use nomen::exiftool::protocol::{
    command_text, extract_json_args, parse_ready_marker, write_tag_args, ReaderAction, ReaderEvent,
    ResponseAssembler,
};
use nomen::exiftool::retry::{RetryPolicy, RetryStep};

fn strings(v: &[&str]) -> Vec<String> {
    v.iter().map(|s| s.to_string()).collect()
}

#[test]
fn command_ends_with_padded_execute() {
    let args = strings(&["/tmp/a.jpg", "-json"]);
    assert_eq!(command_text(&args, 7), "/tmp/a.jpg\n-json\n-execute0007\n");
    assert_eq!(command_text(&Vec::new(), 12345), "-execute12345\n");
}

#[test]
fn ready_marker_is_read_back() {
    assert_eq!(parse_ready_marker("{ready0007}"), Some(7));
    assert_eq!(parse_ready_marker("{ready12345}"), Some(12345));
    assert_eq!(parse_ready_marker("{ready+42}}}"), Some(42));
    assert_eq!(parse_ready_marker("{ready}"), None);
    assert_eq!(parse_ready_marker("{readyx}"), None);
    assert_eq!(parse_ready_marker("{ready4294967296}"), None);
    assert_eq!(parse_ready_marker("ready0001"), None);
}

#[test]
fn marker_round_trip_on_concrete_ids() {
    for id in [0u32, 1, 9, 10, 999, 1000, 65535, u32::MAX] {
        let cmd = command_text(&Vec::new(), id);
        let digits = cmd.trim_start_matches("-execute").trim_end();
        assert_eq!(parse_ready_marker(&format!("{{ready{digits}}}")), Some(id));
    }
}

#[test]
fn assembler_collects_lines_until_marker() {
    let mut a = ResponseAssembler::new();
    assert!(a.feed("[{").is_none());
    assert!(a.feed("  \"X\": 1").is_none());
    assert!(a.feed("{readyabc}").is_none());
    assert!(a.feed("}]").is_none());
    let (id, text) = a.feed("{ready0003}").unwrap();
    assert_eq!(id, 3);
    assert_eq!(text, "[{\n  \"X\": 1\n}]\n");
    let (id, text) = a.feed("{ready0004}").unwrap();
    assert_eq!(id, 4);
    assert_eq!(text, "");
}

#[test]
fn reader_failures_fail_every_caller() {
    let mut a = ResponseAssembler::new();
    match a.on_event(ReaderEvent::Line("12.40".to_string())) {
        ReaderAction::Continue => {}
        _ => panic!("a plain line is buffered"),
    }
    match a.on_event(ReaderEvent::Line("{ready0001}".to_string())) {
        ReaderAction::Deliver(id, text) => {
            assert_eq!(id, 1);
            assert_eq!(text, "12.40\n");
        }
        _ => panic!("the marker delivers"),
    }
    match a.on_event(ReaderEvent::ReadError) {
        ReaderAction::FailAll(m) => assert_eq!(m, "ExifTool process exited unexpectedly"),
        _ => panic!(),
    }
    match a.on_event(ReaderEvent::Closed) {
        ReaderAction::FailAll(m) => assert_eq!(m, "ExifTool process exited"),
        _ => panic!(),
    }
}

#[test]
fn argument_lists() {
    assert_eq!(extract_json_args("/p.jpg"), strings(&["/p.jpg", "-json", "-all:all", "-struct"]));
    assert_eq!(
        write_tag_args("/p.jpg", &strings(&["-XMP:Title=T"])),
        strings(&["/p.jpg", "-overwrite_original_in_place", "-preserve", "-XMP:Title=T"])
    );
}

#[test]
fn retry_pauses_double_and_give_up_after_five_attempts() {
    let mut p = RetryPolicy::new();
    let mut pauses = Vec::new();
    let last = loop {
        match p.on_result(Err(format!("failure {}", pauses.len()))) {
            RetryStep::RestartAfter(ms) => pauses.push(ms),
            RetryStep::Finish(r) => break r,
        }
    };
    assert_eq!(pauses, vec![100, 200, 400, 800]);
    assert_eq!(last, Err("failure 4".to_string()));
}

#[test]
fn retry_success_is_final() {
    let mut p = RetryPolicy::new();
    assert!(matches!(p.on_result(Err("down".to_string())), RetryStep::RestartAfter(100)));
    match p.on_result(Ok("12.40\n".to_string())) {
        RetryStep::Finish(Ok(out)) => assert_eq!(out, "12.40\n"),
        _ => panic!("success is handed over"),
    }
}

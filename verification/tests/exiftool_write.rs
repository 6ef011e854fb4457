use nomen::exiftool::write::{parse_write_output, plan_write, tag_args, MetadataWrite, WritePlan};

#[test]
fn parses_success_output() {
    let r = parse_write_output("1 image files updated").unwrap();
    assert!(r.success);
}

#[test]
fn parses_error_output() {
    let r = parse_write_output("Error: File not found - /tmp/missing.jpg").unwrap();
    assert!(!r.success);
}

#[test]
fn empty_output_treated_as_success() {
    let r = parse_write_output("").unwrap();
    assert!(r.success);
}

#[test]
fn error_line_is_the_message() {
    let r = parse_write_output("    1 image files updated\nWarning: Error reading tag\n").unwrap();
    // the first deciding line wins: here the update report comes first
    assert!(r.success);
    assert_eq!(r.message, "1 image files updated");
    let r = parse_write_output("Warning: something odd\nERROR: cannot write\n1 image files updated").unwrap();
    assert!(!r.success);
    assert_eq!(r.message, "ERROR: cannot write");
}

#[test]
fn uppercase_report_is_lowercased_before_matching() {
    let r = parse_write_output("    1 IMAGE FILE UPDATED  \r\n").unwrap();
    assert!(r.success);
    assert_eq!(r.message, "1 IMAGE FILE UPDATED");
}

#[test]
fn unrecognised_output_is_trimmed_success() {
    let r = parse_write_output("  nothing to do \n").unwrap();
    assert!(r.success);
    assert_eq!(r.message, "nothing to do");
}

#[test]
fn tag_args_set_and_clear() {
    let writes = vec![
        MetadataWrite { tag: "EXIF:ImageDescription".to_string(), value: Some("My caption".to_string()) },
        MetadataWrite { tag: "XMP:Title".to_string(), value: None },
    ];
    let args = tag_args(&writes);
    assert_eq!(args, vec!["-EXIF:ImageDescription=My caption".to_string(), "-XMP:Title=".to_string()]);
}

#[test]
fn empty_write_needs_no_exiftool_call() {
    match plan_write(&Vec::new()) {
        WritePlan::Done(r) => {
            assert!(r.success);
            assert_eq!(r.message, "No writes requested");
        }
        WritePlan::Send(_) => panic!("an empty batch must not be sent"),
    }
    let writes = vec![MetadataWrite { tag: "IPTC:CopyrightNotice".to_string(), value: Some("(c) 2026".to_string()) }];
    match plan_write(&writes) {
        WritePlan::Send(args) => assert_eq!(args, vec!["-IPTC:CopyrightNotice=(c) 2026".to_string()]),
        WritePlan::Done(_) => panic!("a non-empty batch must be sent"),
    }
}

#[test]
fn nothing_changed_is_success() {
    let r = parse_write_output("    0 image files updated\n    1 image files unchanged\n").unwrap();
    assert!(r.success);
    assert_eq!(r.message, "0 image files updated");
}

#[test]
fn write_verdict_ignores_ascii_case() {
    let reports = [
        "    1 image files updated",
        "Error: File not found - /tmp/missing.jpg",
        "Warning: Error reading tag\n    0 image files updated",
        "    1 image file updated\r\nWarning: minor",
        "nothing to report",
        "",
    ];
    for s in reports {
        let plain = parse_write_output(s).unwrap().success;
        let upper = parse_write_output(&s.to_ascii_uppercase()).unwrap().success;
        let lower = parse_write_output(&s.to_ascii_lowercase()).unwrap().success;
        assert_eq!(plain, upper, "{s:?}");
        assert_eq!(plain, lower, "{s:?}");
    }
    assert!(parse_write_output("    1 IMAGE FILES UPDATED").unwrap().success);
    assert!(!parse_write_output("ERROR: FILE NOT FOUND").unwrap().success);
}

use nomen::exiftool::extract::{exif_data_from_items, parse_exiftool_json, JsonField, JsonItem};

#[test]
fn parses_basic_exiftool_json() {
    let json = r#"[{"SourceFile":"/tmp/photo.jpg","EXIF:Make":"Canon","EXIF:Model":"EOS R5","XMP:Title":"My Photo","File:FileSize":"1234 kB"}]"#;
    let data = parse_exiftool_json(json, "/tmp/photo.jpg").unwrap();
    assert_eq!(data.path, "/tmp/photo.jpg");
    assert_eq!(data.tags.get("EXIF:Make").unwrap().as_deref(), Some("Canon"));
    assert_eq!(data.tags.get("XMP:Title").unwrap().as_deref(), Some("My Photo"));
    assert!(!data.tags.contains_key("SourceFile"), "SourceFile should be stripped");
}

#[test]
fn handles_null_values() {
    let json = r#"[{"SourceFile":"/tmp/x.jpg","XMP:Description":null}]"#;
    let data = parse_exiftool_json(json, "/tmp/x.jpg").unwrap();
    assert_eq!(data.tags.get("XMP:Description"), Some(&None));
}

#[test]
fn handles_binary_data_marker() {
    let json = r#"[{"SourceFile":"/tmp/x.jpg","EXIF:ThumbnailImage":"(Binary data 1234 bytes, use -b option to extract)"}]"#;
    let data = parse_exiftool_json(json, "/tmp/x.jpg").unwrap();
    assert_eq!(data.tags.get("EXIF:ThumbnailImage"), Some(&None));
}

#[test]
fn empty_array_returns_error() {
    let result = parse_exiftool_json("[]", "/tmp/x.jpg");
    assert!(result.is_err());
}

#[test]
fn empty_array_error_message() {
    match parse_exiftool_json("  [] \n", "/tmp/x.jpg") {
        Err(m) => assert_eq!(m, "ExifTool returned empty array"),
        Ok(_) => panic!("expected an error"),
    }
}

#[test]
fn invalid_json_is_a_parse_error() {
    match parse_exiftool_json("{not json", "/tmp/x.jpg") {
        Err(m) => assert!(m.starts_with("JSON parse error: "), "{m}"),
        Ok(_) => panic!("expected an error"),
    }
    // an object where an array is expected is also refused
    assert!(parse_exiftool_json(r#"{"a":1}"#, "/tmp/x.jpg").is_err());
}

#[test]
fn scalars_and_nested_values_become_text() {
    let json = "\n[{\"A:Flag\":true,\"A:Off\":false,\"A:Num\":12,\"A:Neg\":-3,\"A:List\":[1,2],\"A:Obj\":{\"k\":\"v\"}}]\n";
    let data = parse_exiftool_json(json, "/p").unwrap();
    assert_eq!(data.tags.get("A:Flag").unwrap().as_deref(), Some("true"));
    assert_eq!(data.tags.get("A:Off").unwrap().as_deref(), Some("false"));
    assert_eq!(data.tags.get("A:Num").unwrap().as_deref(), Some("12"));
    assert_eq!(data.tags.get("A:Neg").unwrap().as_deref(), Some("-3"));
    assert_eq!(data.tags.get("A:List").unwrap().as_deref(), Some("[1,2]"));
    assert_eq!(data.tags.get("A:Obj").unwrap().as_deref(), Some("{\"k\":\"v\"}"));
    assert!(data.tags.get("A:Missing").is_none());
}

#[test]
fn only_the_first_element_is_used() {
    let json = r#"[{"SourceFile":"a","X:One":"1"},{"SourceFile":"b","X:Two":"2"}]"#;
    let data = parse_exiftool_json(json, "a").unwrap();
    assert!(data.tags.contains_key("X:One"));
    assert!(!data.tags.contains_key("X:Two"));
    assert_eq!(data.raw["SourceFile"], "a");
}

#[test]
fn first_element_not_an_object_gives_no_tags() {
    let data = parse_exiftool_json("[5]", "f").unwrap();
    assert_eq!(data.tags.entries().len(), 0);
}

#[test]
fn items_keep_the_first_element_whole() {
    let first = JsonItem {
        raw: serde_json::Value::String("first".to_string()),
        fields: Some(vec![
            ("SourceFile".to_string(), JsonField::Text("a.jpg".to_string())),
            ("EXIF:Make".to_string(), JsonField::Text("Canon".to_string())),
            ("EXIF:Thumb".to_string(), JsonField::Text("(Binary data 9 bytes)".to_string())),
            ("EXIF:ISO".to_string(), JsonField::Number("200".to_string())),
        ]),
    };
    let second = JsonItem {
        raw: serde_json::Value::String("second".to_string()),
        fields: Some(vec![("EXIF:Model".to_string(), JsonField::Text("R5".to_string()))]),
    };
    let data = exif_data_from_items(vec![first, second], "a.jpg").unwrap();
    assert_eq!(data.raw, serde_json::Value::String("first".to_string()));
    assert_eq!(data.path, "a.jpg");
    assert_eq!(data.tags.get("EXIF:Make").unwrap().as_deref(), Some("Canon"));
    assert_eq!(data.tags.get("EXIF:ISO").unwrap().as_deref(), Some("200"));
    assert_eq!(data.tags.get("EXIF:Thumb"), Some(&None));
    assert!(!data.tags.contains_key("SourceFile"));
    assert!(!data.tags.contains_key("EXIF:Model"));
}

#[test]
fn no_items_is_an_empty_array_error() {
    match exif_data_from_items(Vec::new(), "a.jpg") {
        Err(m) => assert_eq!(m, "ExifTool returned empty array"),
        Ok(_) => panic!("expected an error"),
    }
}

#[test]
fn raw_value_is_the_parsed_first_element() {
    let json = r#"[{"SourceFile":"a","X:N":[1,{"b":null}]},{"SourceFile":"b"}]"#;
    let data = parse_exiftool_json(json, "a").unwrap();
    let all: serde_json::Value = serde_json::from_str(json).unwrap();
    assert_eq!(data.raw, all[0]);
}

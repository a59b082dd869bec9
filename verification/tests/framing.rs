use mpvipc::command::{parse_command, serialize_command, MpvCommand, TimeStamp};

#[test]
fn serialize_no_args() {
    let args: Vec<String> = Vec::new();
    let s = serialize_command("pause", &args);
    assert_eq!(s, "{\"command\": [\"pause\"]}\n");
}

#[test]
fn serialize_one_arg() {
    let args = vec![String::from("video.mkv")];
    let s = serialize_command("loadfile", &args);
    assert_eq!(s, "{\"command\": [\"loadfile\", \"video.mkv\"]}\n");
}

#[test]
fn serialize_two_args() {
    let args = vec![String::from("pause"), String::from("yes")];
    let s = serialize_command("set_property", &args);
    assert_eq!(s, "{\"command\": [\"set_property\", \"pause\", \"yes\"]}\n");
}

#[test]
fn serialize_escapes_quotes_backslashes_newlines() {
    let args = vec![String::from("a\"b\\c\nd")];
    let s = serialize_command("print-text", &args);
    assert_eq!(s, "{\"command\": [\"print-text\", \"a\\\"b\\\\c\\nd\"]}\n");
}

#[test]
fn round_trip_plain() {
    let args = vec![String::from("one"), String::from("two"), String::from("three")];
    let s = serialize_command("seek", &args);
    let parsed = parse_command(s.as_str()).expect("serialized command must parse");
    assert_eq!(parsed.0, "seek");
    assert_eq!(parsed.1, args);
}

#[test]
fn round_trip_no_args() {
    let args: Vec<String> = Vec::new();
    let s = serialize_command("quit", &args);
    let parsed = parse_command(s.as_str()).expect("serialized command must parse");
    assert_eq!(parsed.0, "quit");
    assert!(parsed.1.is_empty());
}

#[test]
fn round_trip_special_characters() {
    let args = vec![
        String::from("with \"quotes\""),
        String::from("back\\slash"),
        String::from("line\nbreak"),
        String::from(""),
    ];
    let s = serialize_command("os\"d\\m\nsg", &args);
    let parsed = parse_command(s.as_str()).expect("serialized command must parse");
    assert_eq!(parsed.0, "os\"d\\m\nsg");
    assert_eq!(parsed.1, args);
}

#[test]
fn parse_exact_line() {
    let parsed = parse_command("{\"command\": [\"seek\", \"10\"]}\n").expect("well-formed line");
    assert_eq!(parsed.0, "seek");
    assert_eq!(parsed.1, vec![String::from("10")]);
}

#[test]
fn parse_decodes_escapes() {
    let parsed = parse_command("{\"command\": [\"say\", \"a\\\"b\"]}\n").expect("well-formed line");
    assert_eq!(parsed.0, "say");
    assert_eq!(parsed.1, vec![String::from("a\"b")]);
}

#[test]
fn parse_rejects_malformed() {
    assert!(parse_command("").is_none());
    assert!(parse_command("not a command").is_none());
    assert!(parse_command("{\"command\": [\"a\"]}").is_none());
    assert!(parse_command("{\"command\": [\"a\"]}\nextra").is_none());
    assert!(parse_command("{\"command\": [\"a\", ]}\n").is_none());
    assert!(parse_command("{\"command\": []}\n").is_none());
}

#[test]
fn command_data_carries_its_fields() {
    let seek = MpvCommand::Seek(TimeStamp { seconds: 90 });
    match seek {
        MpvCommand::Seek(t) => assert_eq!(t.seconds, 90),
        _ => panic!("wrong variant"),
    }
    assert_eq!(MpvCommand::Pause, MpvCommand::Pause);
    assert_ne!(MpvCommand::Play, MpvCommand::Pause);
}

use rsless::json::{parse_json, write_json, Json};
use rsless::request::request_of;

#[test]
fn request_members_are_read() {
    let j = parse_json(
        "{\"msg_type\":\"MANAGE\",\"action\":\"create\",\"lang\":\"Rust\",\"prototype\":\"f(a:u32)\",\
         \"file_name\":[\"p/src/main.rs\", 3],\"dirs\":[\"p\"],\"files\":{\"p/src/main.rs\":\"fn f() {}\",\"x\":null},\"id\":[1,\"a\"]}",
    )
    .unwrap();
    let r = request_of(&j);
    assert_eq!(r.msg_type.as_deref(), Some("MANAGE"));
    assert_eq!(r.action.as_deref(), Some("create"));
    assert_eq!(r.lang.as_deref(), Some("Rust"));
    assert_eq!(r.prototype.as_deref(), Some("f(a:u32)"));
    assert_eq!(r.file_name, Some(vec![Some("p/src/main.rs".to_string()), None]));
    assert_eq!(r.dirs, Some(vec![Some("p".to_string())]));
    assert_eq!(r.files, vec![("p/src/main.rs".to_string(), Some("fn f() {}".to_string())), ("x".to_string(), None)]);
    assert_eq!(r.id, "[1,\"a\"]");
    assert_eq!(r.params, None);
}

#[test]
fn missing_id_is_null() {
    let r = request_of(&parse_json("{}").unwrap());
    assert_eq!(r.id, "null");
    assert_eq!(r.msg_type, None);
    let r = request_of(&parse_json("[1,2]").unwrap());
    assert_eq!(r.id, "null");
}

#[test]
fn json_is_written_compactly() {
    let j = parse_json("{ \"b\" : [true, null, 1.5], \"a\": \"q\\\"\" }").unwrap();
    assert_eq!(write_json(&j), "{\"a\":\"q\\\"\",\"b\":[true,null,1.5]}");
    assert_eq!(write_json(&Json::Str("tab\there".to_string())), "\"tab\\there\"");
    assert!(parse_json("not json").is_none());
}

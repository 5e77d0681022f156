use rsless::client::{create_message, dirjson, escape_quotes_exec, id_message, update_message};

fn s(x: &str) -> String {
    x.to_string()
}

#[test]
fn dirjson_lists_package() {
    let text = dirjson(
        &vec![s("fibexample"), s("fibexample/src")],
        &vec![s("fibexample/src/main.rs")],
        &vec![s("fn f() { let c = 'a'; }\n")],
    );
    assert_eq!(
        text,
        " \"dirs\" : [\"fibexample\", \"fibexample/src\"] , \"file_name\" : [\"fibexample/src/main.rs\"] , \"files\" : {  \"fibexample/src/main.rs\" : \"fn f() { let c = \\u{27}a\\u{27}; }\\n\"  } "
    );
}

#[test]
fn dirjson_empty_package() {
    assert_eq!(dirjson(&Vec::new(), &Vec::new(), &Vec::new()), " \"dirs\" : [] , \"file_name\" : [] , \"files\" : {  } ");
}

#[test]
fn create_message_quotes_members() {
    assert_eq!(
        create_message("Rust", "f(a:\"x\")", "P"),
        "{ \"msg_type\": \"MANAGE\" , \"action\": \"create\",\"lang\": \"Rust\", \"prototype\": \"f(a:\\\"x\\\")\", P }"
    );
}

#[test]
fn id_message_is_json() {
    assert_eq!(id_message("delete", Some("abc")), "{\"action\":\"delete\",\"id\":\"abc\",\"msg_type\":\"MANAGE\"}");
    assert_eq!(id_message("publish", None), "{\"action\":\"publish\",\"id\":null,\"msg_type\":\"MANAGE\"}");
    assert_eq!(id_message("delete", Some("a\"b\n")), "{\"action\":\"delete\",\"id\":\"a\\\"b\\n\",\"msg_type\":\"MANAGE\"}");
    assert_eq!(update_message(), "{\"msg_type\":\"MANAGE\"}");
}

#[test]
fn quotes_become_markers() {
    assert_eq!(escape_quotes_exec("it's"), "it\\u{27}s");
    assert_eq!(escape_quotes_exec("plain"), "plain");
}

#[test]
fn escaped_text_has_no_quote() {
    for t in ["'", "a'b'c", "''''", "none"] {
        assert!(!escape_quotes_exec(t).contains('\''));
    }
}

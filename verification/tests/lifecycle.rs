use std::collections::HashMap;

use rsless::client::{escape_quotes_exec, id_message};
use rsless::effect::{Effect, PUB_DB};
use rsless::manage::{action, faas_create, key_of_exec, plan_create};
use rsless::json::parse_json;
use rsless::request::{request_of, Request};
use rsless::server::{handle_text, resume, Event, Session};

fn s(x: &str) -> String {
    x.to_string()
}

fn base() -> Request {
    Request {
        msg_type: Some(s("MANAGE")),
        action: None,
        id: s("null"),
        lang: None,
        prototype: None,
        file_name: None,
        dirs: None,
        files: Vec::new(),
        params: None,
    }
}

fn create_request(text: &str) -> Request {
    Request {
        action: Some(s("create")),
        lang: Some(s("Rust")),
        prototype: Some(s("fib(arg1:u128) -> u128")),
        file_name: Some(vec![Some(s("pkg/src/main.rs"))]),
        dirs: Some(vec![Some(s("pkg")), Some(s("pkg/src"))]),
        files: vec![(s("pkg/src/main.rs"), Some(s(text)))],
        ..base()
    }
}

type Store = HashMap<(u8, String), String>;

fn apply(store: &mut Store, effects: &[Effect]) {
    for e in effects {
        match e {
            Effect::StoreKey { db, key, value } => {
                store.insert((*db, key.clone()), value.clone());
            }
            Effect::DeleteKey { db, key } => {
                store.remove(&(*db, key.clone()));
            }
            Effect::CopyKey { from, to, key } => {
                if let Some(v) = store.get(&(*from, key.clone())).cloned() {
                    store.insert((*to, key.clone()), v);
                }
            }
            _ => {}
        }
    }
}

/// The `id` member as the server reads it from a client's message.
fn sent_id(message: &str) -> String {
    let j = parse_json(message).unwrap();
    request_of(&j).id
}

#[test]
fn file_text_survives_the_trip() {
    for t in ["fn main() { let c = 'x'; }", "no quotes", "''", ""] {
        let sent = escape_quotes_exec(t);
        let out = plan_create(&create_request(&sent), s("id"), 3);
        match &out.effects[3] {
            Effect::WriteFile { contents, .. } => assert_eq!(contents, t),
            other => panic!("{:?}", other),
        }
    }
}

#[test]
fn sent_uuid_is_its_key() {
    let id = "5c72527c-373e-43a2-9d29-4bb8f5fe69e1";
    let text = sent_id(&id_message("publish", Some(id)));
    assert_eq!(text, "\"5c72527c-373e-43a2-9d29-4bb8f5fe69e1\"");
    assert_eq!(key_of_exec(&text), id);
}

#[test]
fn created_published_function_is_invoked() {
    let mut store = Store::new();
    let created = faas_create(&create_request("fn fib() {}"));
    apply(&mut store, &created.effects);
    let id = created.result.unwrap();
    let registered = store.get(&(2, id.clone())).cloned().unwrap();
    assert!(registered.ends_with(&format!("/pkg/target/release/faas_{}", id)));

    let publish = Request { action: Some(s("publish")), id: sent_id(&id_message("publish", Some(&id))), ..base() };
    apply(&mut store, &action(&publish).effects);

    let call = format!(
        "POST / HTTP/1.1\r\nContent-Type: application/json\r\n\r\n{{\"msg_type\":\"INVOKE\", \"params\" : [\"10\"] , \"id\": \"{}\"  }}",
        id
    );
    let step = handle_text(&call).unwrap();
    let looked_up = match &step.effects[..] {
        [Effect::LookupKey { db, key }] => store.get(&(*db, key.clone())).cloned(),
        other => panic!("{:?}", other),
    };
    assert_eq!(looked_up, Some(registered.clone()));
    assert!(matches!(step.session, Session::Invoking(_)));
    let step = resume(step.session, Event::Program(looked_up));
    match &step.effects[..] {
        [Effect::Run { program, .. }] => assert_eq!(program, &registered),
        other => panic!("{:?}", other),
    }
}

#[test]
fn deleted_function_is_gone() {
    let mut store = Store::new();
    store.insert((2, s("f")), s("p"));
    store.insert((PUB_DB, s("f")), s("p"));
    let delete = Request { action: Some(s("delete")), id: s("\"f\""), ..base() };
    apply(&mut store, &action(&delete).effects);
    assert!(store.is_empty());
}

#[test]
fn delete_and_publish_are_idempotent() {
    let mut store = Store::new();
    store.insert((2, s("f")), s("p"));
    let publish = Request { action: Some(s("publish")), id: s("\"f\""), ..base() };
    apply(&mut store, &action(&publish).effects);
    let once = store.clone();
    apply(&mut store, &action(&publish).effects);
    assert_eq!(store, once);
    let delete = Request { action: Some(s("delete")), id: s("\"f\""), ..base() };
    apply(&mut store, &action(&delete).effects);
    let once = store.clone();
    apply(&mut store, &action(&delete).effects);
    assert_eq!(store, once);
    assert!(store.is_empty());
}

#[test]
fn ids_differing_by_quotes_share_a_key() {
    assert_eq!(key_of_exec(&s("a\"b")), key_of_exec(&s("ab")));
    assert_eq!(key_of_exec(&s("\"\"f\"")), "f");
    let (a, _) = rsless::runtime::invoke(&s("\"f\""), vec![]);
    let (b, _) = rsless::runtime::invoke(&s("f"), vec![]);
    assert_eq!(format!("{:?}", a), format!("{:?}", b));
}

#[test]
fn http_head_is_skipped() {
    let body = "{\"msg_type\":\"INVOKE\",\"params\":[\"1\"],\"id\":\"f\"}";
    let with_head = format!("POST / HTTP/1.1\r\nHost: h\r\n\r\n{}", body);
    let a = handle_text(&with_head).unwrap();
    let b = handle_text(body).unwrap();
    assert_eq!(format!("{:?}", a), format!("{:?}", b));
}

#[test]
fn quote_marker_is_not_json() {
    let package = rsless::client::dirjson(&vec![s("p")], &vec![s("p/src/main.rs")], &vec![s("let c = 'x';")]);
    let message = rsless::client::create_message("Rust", "f(a:u32) -> u32", &package);
    assert!(handle_text(&message).is_none());
    let package = rsless::client::dirjson(&vec![s("p")], &vec![s("p/src/main.rs")], &vec![s("let c = 1;")]);
    let message = rsless::client::create_message("Rust", "f(a:u32) -> u32", &package);
    assert!(parse_json(&message).is_some());
}

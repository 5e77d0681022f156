use std::collections::hash_map::DefaultHasher;
use std::hash::{Hash, Hasher};

use rsless::effect::{Effect, DEV_DB, PUB_DB};
use rsless::manage::{
    action, action_error, action_ok_exec, create_ok_exec, faas_create, key_of_exec, plan_create,
};
use rsless::request::Request;

fn s(x: &str) -> String {
    x.to_string()
}

fn list(xs: &[&str]) -> Option<Vec<Option<String>>> {
    Some(xs.iter().map(|x| Some(x.to_string())).collect())
}

fn empty_request() -> Request {
    Request {
        msg_type: None,
        action: None,
        id: s("null"),
        lang: None,
        prototype: None,
        file_name: None,
        dirs: None,
        files: Vec::new(),
        params: None,
    }
}

fn create_request(lang: &str, names: &[&str]) -> Request {
    Request {
        msg_type: Some(s("MANAGE")),
        action: Some(s("create")),
        lang: Some(s(lang)),
        prototype: Some(s("fib(arg1:u128) -> u128")),
        file_name: list(names),
        dirs: list(&["fibexample", "fibexample/src"]),
        files: names.iter().map(|n| (n.to_string(), Some(format!("text of {} it\\u{{27}}s", n)))).collect(),
        ..empty_request()
    }
}

fn describe(e: &Effect) -> String {
    format!("{:?}", e)
}

#[test]
fn plan_create_rust_package() {
    let req = create_request("Rust", &["fibexample/Cargo.toml", "fibexample/src/main.rs"]);
    assert!(create_ok_exec(&req));
    let out = plan_create(&req, s("abc"), 42);
    assert_eq!(out.result, Ok(s("abc")));
    let e = &out.effects;
    assert_eq!(e.len(), 2 + 1 + 2 + 3);
    match &e[0] {
        Effect::CreateDir { path } => assert_eq!(path, ".FaasDirectory/42/fibexample"),
        other => panic!("{:?}", other),
    }
    match &e[1] {
        Effect::CreateDir { path } => assert_eq!(path, ".FaasDirectory/42/fibexample/src"),
        other => panic!("{:?}", other),
    }
    match &e[2] {
        Effect::StoreKey { db, key, value } => {
            assert_eq!(*db, DEV_DB);
            assert_eq!(key, "abc");
            assert_eq!(value, ".FaasDirectory/42/fibexample/target/release/faas_abc");
        }
        other => panic!("{:?}", other),
    }
    match &e[4] {
        Effect::WriteFile { path, contents } => {
            assert_eq!(path, ".FaasDirectory/42/fibexample/src/main.rs");
            assert_eq!(contents, "text of fibexample/src/main.rs it's");
        }
        other => panic!("{:?}", other),
    }
    match &e[6] {
        Effect::Cargo { dir, args } => {
            assert_eq!(dir, ".FaasDirectory/42/fibexample");
            assert_eq!(args[1], "--name=faas_abc");
        }
        other => panic!("{:?}", other),
    }
}

#[test]
fn plan_create_without_main_file() {
    let req = create_request("Rust", &["fibexample/Cargo.toml"]);
    assert!(create_ok_exec(&req));
    let out = plan_create(&req, s("abc"), 7);
    assert_eq!(out.result, Err(action_error::MainFileError));
    assert_eq!(out.effects.len(), 2);
}

#[test]
fn plan_create_other_language() {
    let req = create_request("Python", &["pkg/src/main.rs"]);
    let out = plan_create(&req, s("abc"), 7);
    assert_eq!(out.result, Err(action_error::Unknown));
    assert_eq!(out.effects.len(), 2 + 1 + 1);
    match &out.effects[2] {
        Effect::StoreKey { value, .. } => assert_eq!(value, ".FaasDirectory/7/pkg/target/release/faas_abc"),
        other => panic!("{:?}", other),
    }
}

#[test]
fn plan_create_last_main_file_wins() {
    let req = create_request("Rust", &["a/src/main.rs", "b/src/main.rs"]);
    let out = plan_create(&req, s("x"), 1);
    match &out.effects[2] {
        Effect::StoreKey { value, .. } => assert_eq!(value, ".FaasDirectory/1/b/target/release/faas_x"),
        other => panic!("{:?}", other),
    }
}

#[test]
fn create_checks_members() {
    let mut req = create_request("Rust", &["pkg/src/main.rs"]);
    req.files = Vec::new();
    assert!(!create_ok_exec(&req));
    let mut req = create_request("Rust", &["pkg/src/main.rs"]);
    req.prototype = Some(s("no parens"));
    assert!(!create_ok_exec(&req));
    let mut req = create_request("Rust", &["pkg/Cargo.toml"]);
    req.files = Vec::new();
    assert!(create_ok_exec(&req));
    let mut req = create_request("Rust", &["pkg/src/main.rs"]);
    req.dirs = Some(vec![None]);
    assert!(!create_ok_exec(&req));
}

#[test]
fn faas_create_draws_an_identifier() {
    let req = create_request("Rust", &["pkg/src/main.rs"]);
    let out = faas_create(&req);
    let id = out.result.clone().unwrap();
    assert_eq!(id.len(), 36);
    assert_eq!(id.chars().nth(14), Some('4'));
    let mut hasher = DefaultHasher::new();
    id.hash(&mut hasher);
    let root = format!(".FaasDirectory/{}", hasher.finish());
    match &out.effects[1] {
        Effect::CreateDir { path } => assert_eq!(path, &format!("{}/fibexample/src", root)),
        other => panic!("{:?}", other),
    }
    match &out.effects[2] {
        Effect::StoreKey { key, value, .. } => {
            assert_eq!(key, &id);
            assert_eq!(value, &format!("{}/pkg/target/release/faas_{}", root, id));
        }
        other => panic!("{:?}", other),
    }
    let again = faas_create(&req);
    assert_ne!(again.result.unwrap(), id);
}

#[test]
fn delete_removes_both_entries() {
    let req = Request { action: Some(s("delete")), id: s("\"f-1\""), ..empty_request() };
    assert!(action_ok_exec(&req));
    let out = action(&req);
    assert_eq!(out.result, Ok(s("OK")));
    let d: Vec<String> = out.effects.iter().map(describe).collect();
    assert_eq!(
        d,
        vec![
            describe(&Effect::DeleteKey { db: DEV_DB, key: s("f-1") }),
            describe(&Effect::DeleteKey { db: PUB_DB, key: s("f-1") }),
        ]
    );
}

#[test]
fn publish_copies_entry() {
    let req = Request { action: Some(s("publish")), id: s("\"f-1\""), ..empty_request() };
    let out = action(&req);
    assert_eq!(out.result, Ok(s("OK")));
    assert_eq!(out.effects.len(), 1);
    assert_eq!(
        describe(&out.effects[0]),
        describe(&Effect::CopyKey { from: DEV_DB, to: PUB_DB, key: s("f-1") })
    );
}

#[test]
fn unknown_action_is_refused() {
    let req = Request { action: Some(s("update")), ..empty_request() };
    let out = action(&req);
    assert_eq!(out.result, Err(action_error::Unknown));
    assert!(out.effects.is_empty());
    let out = action(&empty_request());
    assert_eq!(out.result, Err(action_error::Unknown));
}

#[test]
fn key_strips_quotes() {
    assert_eq!(key_of_exec(&s("\"5c72527c-373e-43a2-9d29-4bb8f5fe69e1\"")), "5c72527c-373e-43a2-9d29-4bb8f5fe69e1");
    assert_eq!(key_of_exec(&s("null")), "null");
    assert_eq!(key_of_exec(&s("\"a\\\"b\"")), "a\\b");
}

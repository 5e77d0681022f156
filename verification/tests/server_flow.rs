use rsless::effect::{Effect, PUB_DB};
use rsless::manage::action_error;
use rsless::request::Request;
use rsless::runtime::{invoke, invoke_result, invoke_run, output_ok_exec, Invocation, RuntimeError};
use rsless::server::{
    accepts_exec, handler_ok_exec, request_body, resume, server_api_handler, Event, MsgType, MsgTypeError, Session,
};

fn s(x: &str) -> String {
    x.to_string()
}

fn request(kind: Option<&str>) -> Request {
    Request {
        msg_type: kind.map(s),
        action: None,
        id: s("\"5c72527c-373e-43a2-9d29-4bb8f5fe69e1\""),
        lang: None,
        prototype: None,
        file_name: None,
        dirs: None,
        files: Vec::new(),
        params: Some(vec![Some(s("100"))]),
    }
}

#[test]
fn body_after_http_head() {
    assert_eq!(request_body("POST / HTTP/1.1\r\nHost: x\r\n\r\n{\"a\":1}"), "{\"a\":1}");
    assert_eq!(request_body("{\"a\":1}"), "{\"a\":1}");
    assert_eq!(request_body("h\r\n\r\nb\r\n\r\nc"), "b");
    assert_eq!(request_body("h\r\n\r\n"), "");
}

#[test]
fn unknown_message_is_refused() {
    for kind in [None, Some("PING")] {
        let req = request(kind);
        assert!(handler_ok_exec(&req));
        let step = server_api_handler(&req);
        assert!(step.effects.is_empty());
        assert!(matches!(step.session, Session::Done(Err(MsgTypeError::UnknownMsg))));
    }
}

#[test]
fn manage_message_answers_result() {
    let mut req = request(Some("MANAGE"));
    req.action = Some(s("publish"));
    let step = server_api_handler(&req);
    assert_eq!(step.effects.len(), 2);
    match &step.effects[1] {
        Effect::Reply { text } => assert_eq!(text, "OK"),
        other => panic!("{:?}", other),
    }
    assert!(matches!(step.session, Session::Done(Ok(MsgType::MANAGE))));
}

#[test]
fn failed_action_gets_no_answer() {
    let mut req = request(Some("MANAGE"));
    req.action = Some(s("rename"));
    let step = server_api_handler(&req);
    assert!(step.effects.is_empty());
    assert!(matches!(step.session, Session::Failed(action_error::Unknown)));
}

#[test]
fn invoke_message_runs_program() {
    let req = request(Some("INVOKE"));
    assert!(handler_ok_exec(&req));
    let step = server_api_handler(&req);
    match &step.effects[..] {
        [Effect::LookupKey { db, key }] => {
            assert_eq!(*db, PUB_DB);
            assert_eq!(key, "5c72527c-373e-43a2-9d29-4bb8f5fe69e1");
        }
        other => panic!("{:?}", other),
    }
    let step = resume(step.session, Event::Program(Some(s("/bin/fib"))));
    match &step.effects[..] {
        [Effect::Run { program, args }] => {
            assert_eq!(program, "/bin/fib");
            assert_eq!(args, &vec![s("100")]);
        }
        other => panic!("{:?}", other),
    }
    let step = resume(step.session, Event::Output(s("building\nFaaSRESULT:354224848179261915075\n")));
    match &step.effects[..] {
        [Effect::Reply { text }] => assert_eq!(text, "HTTP/1.1 200 OK\r\n\r\n354224848179261915075\n"),
        other => panic!("{:?}", other),
    }
    assert!(matches!(step.session, Session::Done(Ok(MsgType::INVOKE))));
}

#[test]
fn invoke_without_params_is_not_handled() {
    let mut req = request(Some("INVOKE"));
    req.params = None;
    assert!(!handler_ok_exec(&req));
    req.params = Some(vec![Some(s("1")), None]);
    assert!(!handler_ok_exec(&req));
}

#[test]
fn missing_function_runs_placeholder() {
    match invoke_run(vec![s("1")], None) {
        Effect::Run { program, .. } => assert_eq!(program, "Function not created or published"),
        other => panic!("{:?}", other),
    }
}

#[test]
fn invoke_looks_up_published_key() {
    let (e, inv) = invoke(&s("\"f\""), vec![s("a")]);
    match e {
        Effect::LookupKey { db, key } => {
            assert_eq!(db, PUB_DB);
            assert_eq!(key, "f");
        }
        other => panic!("{:?}", other),
    }
    assert!(matches!(inv, Invocation::Lookup { .. }));
}

#[test]
fn result_after_marker() {
    assert!(output_ok_exec(&s("x FaaSRESULT:1")));
    assert!(!output_ok_exec(&s("no marker")));
    assert_eq!(invoke_result(&s("FaaSRESULT:\"hi\"\n")), Ok::<String, RuntimeError>(s("\"hi\"\n")));
    assert_eq!(invoke_result(&s("aFaaSRESULT:bFaaSRESULT:c")), Ok::<String, RuntimeError>(s("b")));
}

#[test]
fn text_is_parsed_and_handled() {
    let text = "POST / HTTP/1.1\r\nHost: x\r\n\r\n{\"msg_type\":\"INVOKE\", \"params\" : [\"100\"] , \"id\": \"1dbe0457-5747-4ef1-b468-fd5ece355c8f\"  }";
    let step = rsless::server::handle_text(text).unwrap();
    match &step.effects[..] {
        [Effect::LookupKey { db, key }] => {
            assert_eq!(*db, PUB_DB);
            assert_eq!(key, "1dbe0457-5747-4ef1-b468-fd5ece355c8f");
        }
        other => panic!("{:?}", other),
    }
    match step.session {
        Session::Invoking(Invocation::Lookup { params }) => assert_eq!(params, vec![s("100")]),
        other => panic!("{:?}", other),
    }
}

#[test]
fn text_that_is_not_json_is_refused() {
    assert!(rsless::server::handle_text("GET / HTTP/1.1\r\n\r\nhello").is_none());
    assert!(rsless::server::handle_text("{\"msg_type\":\"INVOKE\",\"params\":5}").is_none());
    let step = rsless::server::handle_text("{\"msg_type\":\"PING\"}").unwrap();
    assert!(matches!(step.session, Session::Done(Err(MsgTypeError::UnknownMsg))));
}

#[test]
fn waiting_session_accepts_its_answer() {
    let waiting = Session::Invoking(Invocation::Lookup { params: vec![] });
    assert!(accepts_exec(&waiting, &Event::Program(None)));
    assert!(!accepts_exec(&waiting, &Event::Output(s("FaaSRESULT:1"))));
    let running = Session::Invoking(Invocation::Running);
    assert!(accepts_exec(&running, &Event::Output(s("FaaSRESULT:1"))));
    assert!(!accepts_exec(&running, &Event::Output(s("nothing"))));
}

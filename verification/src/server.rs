//! The server's handling of one client message.
//!
//! A message is either `MANAGE` (create, delete or publish a function) or
//! `INVOKE` (run a published function). Handling is a sequence of steps: each
//! step lists the outside work to do and the state of the session after it;
//! an invocation waits for the program lookup and then for the program's
//! output, which come back as events.

use vstd::prelude::*;
use crate::effect::{effects_view, strings_view, Effect, EffectSpec, PUB_DB};
use crate::json::{member, parse_json, parsed_json, JsonSpec};
use crate::manage::{
    buildable, create_plan, law_registered_program_is_built, text_hash, action, action_error, action_ok, action_ok_exec, action_plan, key_of, uuid_text};
use crate::request::{
    all_strings, all_strings_exec, opt_view, opt_views, request_from, request_of, strings, Request,
    RequestSpec,
};
use crate::runtime::{
    invoke, invoke_result, invoke_run, output_ok, output_ok_exec, output_result, program_for,
    Invocation,
};
use crate::text::{
    find_from, lemma_find_first, lemma_occurs_contains, lemma_split_no_occ, occurs_at, append_chars, chars_of, contains, contains_exec, split, split_exec, string_of, views};

verus! {

/// The kind of a handled message.
#[derive(Debug, Clone, Copy, PartialEq, Eq, Structural)]
pub enum MsgType {
    MANAGE,
    INVOKE,
}

/// Why a message could not be handled.
#[derive(Debug, Clone, Copy, PartialEq, Eq, Structural)]
pub enum MsgTypeError {
    /// `msg_type` is neither `MANAGE` nor `INVOKE`.
    UnknownMsg,
}

/// Where the handling of a message stands.
#[derive(Debug)]
pub enum Session {
    /// An invocation is under way.
    Invoking(Invocation),
    /// The message is handled.
    Done(Result<MsgType, MsgTypeError>),
    /// The management action failed; the client gets no answer.
    Failed(action_error),
}

/// An answer from the outside work of the last step.
#[derive(Debug)]
pub enum Event {
    /// The answer of a program lookup.
    Program(Option<String>),
    /// The standard output of the program that ran.
    Output(String),
}

/// The outside work to do now, and where the session stands after it.
#[derive(Debug)]
pub struct Step {
    pub effects: Vec<Effect>,
    pub session: Session,
}

/// An invocation's state with texts as character sequences.
pub enum InvocationSpec {
    Lookup { params: Seq<Seq<char>> },
    Running,
}

/// A session with texts as character sequences.
pub enum SessionSpec {
    Invoking(InvocationSpec),
    Done(Result<MsgType, MsgTypeError>),
    Failed(action_error),
}

/// An event with texts as character sequences.
pub enum EventSpec {
    Program(Option<Seq<char>>),
    Output(Seq<char>),
}

/// A step with texts as character sequences.
pub struct StepSpec {
    pub effects: Seq<EffectSpec>,
    pub session: SessionSpec,
}

impl View for Session {
    type V = SessionSpec;

    open spec fn view(&self) -> SessionSpec {
        match self {
            Session::Invoking(Invocation::Lookup { params }) => SessionSpec::Invoking(
                InvocationSpec::Lookup { params: strings_view(params@) },
            ),
            Session::Invoking(Invocation::Running) => SessionSpec::Invoking(InvocationSpec::Running),
            Session::Done(r) => SessionSpec::Done(*r),
            Session::Failed(e) => SessionSpec::Failed(*e),
        }
    }
}

impl View for Event {
    type V = EventSpec;

    open spec fn view(&self) -> EventSpec {
        match self {
            Event::Program(r) => EventSpec::Program(opt_view(*r)),
            Event::Output(t) => EventSpec::Output(t@),
        }
    }
}

impl View for Step {
    type V = StepSpec;

    open spec fn view(&self) -> StepSpec {
        StepSpec { effects: effects_view(self.effects@), session: self.session@ }
    }
}

/// What separates the head of an HTTP request from its body.
pub open spec fn head_end() -> Seq<char> {
    "\r\n\r\n"@
}

/// The message in a received text: for an HTTP request the part after the
/// head (up to a second blank line, if any), otherwise the whole text.
pub open spec fn body_of(text: Seq<char>) -> Seq<char> {
    if contains(text, head_end()) {
        split(text, head_end())[1]
    } else {
        text
    }
}

/// The start of the answer to an invocation.
pub open spec fn http_ok() -> Seq<char> {
    "HTTP/1.1 200 OK\r\n\r\n"@
}

/// A message that can be handled without a missing member.
pub open spec fn handler_ok(r: RequestSpec) -> bool {
    &&& r.msg_type == Some("MANAGE"@) ==> action_ok(r)
    &&& r.msg_type == Some("INVOKE"@) ==> all_strings(r.params)
}

/// The first step of handling the message `r`, where `id` is the identifier
/// that a `create` draws: a management action's work followed by its answer
/// (or nothing more when it failed); the lookup of the program of an
/// invocation; nothing for any other message.
pub open spec fn handler_plan(r: RequestSpec, id: Seq<char>) -> StepSpec {
    if r.msg_type == Some("MANAGE"@) {
        let a = action_plan(r, id);
        match a.result {
            Ok(t) => StepSpec {
                effects: a.effects.push(EffectSpec::Reply { text: t }),
                session: SessionSpec::Done(Ok(MsgType::MANAGE)),
            },
            Err(e) => StepSpec { effects: a.effects, session: SessionSpec::Failed(e) },
        }
    } else if r.msg_type == Some("INVOKE"@) {
        StepSpec {
            effects: seq![EffectSpec::LookupKey { db: PUB_DB, key: key_of(r.id) }],
            session: SessionSpec::Invoking(InvocationSpec::Lookup { params: strings(r.params) }),
        }
    } else {
        StepSpec { effects: Seq::empty(), session: SessionSpec::Done(Err(MsgTypeError::UnknownMsg)) }
    }
}

/// The session is waiting for this event, and program output holds the result marker.
pub open spec fn accepts(s: SessionSpec, e: EventSpec) -> bool {
    match (s, e) {
        (SessionSpec::Invoking(InvocationSpec::Lookup { .. }), EventSpec::Program(_)) => true,
        (SessionSpec::Invoking(InvocationSpec::Running), EventSpec::Output(t)) => output_ok(t),
        _ => false,
    }
}

/// The next step after the event `e`: run the program that was found (or
/// the placeholder) with the call's arguments; then answer with the
/// function's result.
pub open spec fn resume_plan(s: SessionSpec, e: EventSpec) -> StepSpec {
    match (s, e) {
        (SessionSpec::Invoking(InvocationSpec::Lookup { params }), EventSpec::Program(reply)) => StepSpec {
            effects: seq![EffectSpec::Run { program: program_for(reply), args: params }],
            session: SessionSpec::Invoking(InvocationSpec::Running),
        },
        (_, EventSpec::Output(t)) => StepSpec {
            effects: seq![EffectSpec::Reply { text: http_ok() + output_result(t) }],
            session: SessionSpec::Done(Ok(MsgType::INVOKE)),
        },
        _ => StepSpec { effects: Seq::empty(), session: s },
    }
}

/// The message in a received text.
pub fn request_body(text: &str) -> (body: String)
    ensures
        body@ == body_of(text@),
{
    proof {
        reveal_strlit("\r\n\r\n");
    }
    let t = chars_of(text);
    let sep = chars_of("\r\n\r\n");
    if contains_exec(&t, &sep) {
        let pieces = split_exec(&t, &sep);
        proof {
            crate::text::lemma_find_from_bounds(t@, sep@, 0);
            assert(split(t@, sep@).len() >= 2) by {
                reveal_with_fuel(split, 2);
                crate::text::lemma_split_nonempty(
                    t@.skip(find_first(t@, sep@) + sep@.len()),
                    sep@,
                );
            }
            assert(views(pieces@)[1] == pieces@[1]@);
        }
        string_of(&pieces[1])
    } else {
        String::from_str(text)
    }
}

/// The index of the first occurrence of `sep` in `t`.
spec fn find_first(t: Seq<char>, sep: Seq<char>) -> int {
    find_from(t, sep, 0)->0
}

/// Whether the message can be handled without a missing member.
pub fn handler_ok_exec(request: &Request) -> (b: bool)
    ensures
        b == handler_ok(request@),
{
    let manage = String::from_str("MANAGE");
    let invoke_kind = String::from_str("INVOKE");
    proof {
        reveal_strlit("MANAGE");
        reveal_strlit("INVOKE");
        assert("MANAGE"@[0] != "INVOKE"@[0]);
        assert("MANAGE"@ != "INVOKE"@);
    }
    match &request.msg_type {
        Some(m) => {
            if *m == manage {
                action_ok_exec(request)
            } else if *m == invoke_kind {
                all_strings_exec(&request.params)
            } else {
                true
            }
        },
        None => true,
    }
}

/// The strings of a list whose elements are all strings.
fn strings_exec(v: &Vec<Option<String>>) -> (r: Vec<String>)
    requires
        all_strings(Some(opt_views(v@))),
    ensures
        strings_view(r@) == strings(Some(opt_views(v@))),
{
    let ghost target = strings(Some(opt_views(v@)));
    let mut r: Vec<String> = Vec::new();
    let mut i: usize = 0;
    while i < v.len()
        invariant
            i <= v@.len(),
            all_strings(Some(opt_views(v@))),
            target == strings(Some(opt_views(v@))),
            target.len() == v@.len(),
            strings_view(r@) == target.take(i as int),
        decreases v@.len() - i,
    {
        proof {
            assert(opt_views(v@)[i as int] is Some);
        }
        match &v[i] {
            Some(s) => {
                let ghost before = r@;
                r.push(s.clone());
                proof {
                    assert(strings_view(r@) =~= strings_view(before).push(s@));
                    assert(target.take(i + 1) =~= target.take(i as int).push(target[i as int]));
                }
            },
            None => {
                return r;
            },
        }
        i = i + 1;
    }
    proof {
        assert(target.take(v@.len() as int) =~= target);
    }
    r
}

/// The first step of handling a client's message.
pub fn server_api_handler(request: &Request) -> (step: Step)
    requires
        handler_ok(request@),
    ensures
        exists|id: Seq<char>| uuid_text(id) && step@ == #[trigger] handler_plan(request@, id),
{
    let manage = String::from_str("MANAGE");
    let invoke_kind = String::from_str("INVOKE");
    let kind = match &request.msg_type {
        Some(m) => {
            if *m == manage {
                1u8
            } else if *m == invoke_kind {
                2u8
            } else {
                0u8
            }
        },
        None => 0u8,
    };
    if kind == 1 {
        let out = action(request);
        let ghost id = choose|id: Seq<char>| uuid_text(id) && out@ == #[trigger] action_plan(request@, id);
        let mut effects = out.effects;
        match out.result {
            Ok(text) => {
                let ghost before = effects@;
                effects.push(Effect::Reply { text });
                let step = Step { effects, session: Session::Done(Ok(MsgType::MANAGE)) };
                proof {
                    assert(effects_view(step.effects@) =~= effects_view(before).push(
                        EffectSpec::Reply { text: text@ },
                    ));
                    assert(step@ == handler_plan(request@, id));
                }
                step
            },
            Err(e) => {
                let step = Step { effects, session: Session::Failed(e) };
                proof {
                    assert(step@ == handler_plan(request@, id));
                }
                step
            },
        }
    } else if kind == 2 {
        let params = match &request.params {
            Some(p) => strings_exec(p),
            None => Vec::new(),
        };
        let (lookup, inv) = invoke(&request.id, params);
        let mut effects = Vec::new();
        effects.push(lookup);
        let step = Step { effects, session: Session::Invoking(inv) };
        proof {
            crate::manage::lemma_uuid_exists();
            let id = choose|id: Seq<char>| uuid_text(id);
            assert(effects_view(step.effects@) =~= handler_plan(request@, id).effects);
            assert(step@ == handler_plan(request@, id));
        }
        step
    } else {
        let step = Step { effects: Vec::new(), session: Session::Done(Err(MsgTypeError::UnknownMsg)) };
        proof {
            crate::manage::lemma_uuid_exists();
            let id = choose|id: Seq<char>| uuid_text(id);
            assert(effects_view(step.effects@) =~= Seq::<EffectSpec>::empty());
            assert(step@ == handler_plan(request@, id));
        }
        step
    }
}

/// The next step of a session after the answer `event` to its last step.
pub fn resume(session: Session, event: Event) -> (step: Step)
    requires
        accepts(session@, event@),
    ensures
        step@ == resume_plan(session@, event@),
{
    match (session, event) {
        (Session::Invoking(Invocation::Lookup { params }), Event::Program(reply)) => {
            let mut effects = Vec::new();
            effects.push(invoke_run(params, reply));
            let step = Step { effects, session: Session::Invoking(Invocation::Running) };
            proof {
                assert(effects_view(step.effects@) =~= resume_plan(session@, event@).effects);
            }
            step
        },
        (Session::Invoking(Invocation::Running), Event::Output(out)) => {
            let result = match invoke_result(&out) {
                Ok(t) => t,
                Err(_) => String::new(),
            };
            let mut text = chars_of("HTTP/1.1 200 OK\r\n\r\n");
            append_chars(&mut text, &chars_of(result.as_str()));
            let mut effects = Vec::new();
            effects.push(Effect::Reply { text: string_of(&text) });
            let step = Step { effects, session: Session::Done(Ok(MsgType::INVOKE)) };
            proof {
                assert(effects_view(step.effects@) =~= resume_plan(session@, event@).effects);
            }
            step
        },
        (session, _) => Step { effects: Vec::new(), session },
    }
}

/// What the server reads from a message body: nothing when it is not JSON.
pub open spec fn parsed_request(body: Seq<char>) -> Option<RequestSpec> {
    match parsed_json(body) {
        Some(j) => Some(request_from(j)),
        None => None,
    }
}

/// The first step of handling a received text: its body is parsed as JSON
/// and read, then handled. Nothing when the body is not JSON or lacks a
/// member that its handling needs.
pub fn handle_text(text: &str) -> (step: Option<Step>)
    ensures
        step is None <==> (parsed_request(body_of(text@)) is None || !handler_ok(
            parsed_request(body_of(text@))->0,
        )),
        step matches Some(s) ==> exists|id: Seq<char>|
            uuid_text(id) && s@ == #[trigger] handler_plan(parsed_request(body_of(text@))->0, id),
{
    let body = request_body(text);
    match parse_json(body.as_str()) {
        None => None,
        Some(j) => {
            let request = request_of(&j);
            if handler_ok_exec(&request) {
                Some(server_api_handler(&request))
            } else {
                None
            }
        },
    }
}

/// Whether the session waits for this event (and program output holds the
/// result marker).
pub fn accepts_exec(session: &Session, event: &Event) -> (b: bool)
    ensures
        b == accepts(session@, event@),
{
    match (session, event) {
        (Session::Invoking(Invocation::Lookup { .. }), Event::Program(_)) => true,
        (Session::Invoking(Invocation::Running), Event::Output(t)) => output_ok_exec(t),
        _ => false,
    }
}

/// Law: an HTTP head before the message changes nothing: when the head's
/// first blank line is the one that ends it and the message holds no blank
/// line, the server reads the same body, so it handles the text as it
/// handles the message alone.
pub proof fn law_head_is_skipped(h: Seq<char>, b: Seq<char>)
    requires
        !contains((h + head_end()).drop_last(), head_end()),
        !contains(b, head_end()),
    ensures
        body_of(h + head_end() + b) == b,
        body_of(b) == b,
        parsed_request(body_of(h + head_end() + b)) == parsed_request(body_of(b)),
{
    reveal_strlit("\r\n\r\n");
    let sep = head_end();
    let s = h + sep + b;
    let n = h.len() as int;
    let d = (h + sep).drop_last();
    assert forall|k: int| 0 <= k < n implies !occurs_at(s, sep, k) by {
        if occurs_at(s, sep, k) {
            assert(d.subrange(k, k + sep.len()) =~= s.subrange(k, k + sep.len()));
            lemma_occurs_contains(d, sep, k);
        }
    }
    assert(s.subrange(n, n + sep.len()) =~= sep);
    lemma_find_first(s, sep, 0, n);
    lemma_occurs_contains(s, sep, n);
    assert(s.take(n) =~= h);
    assert(s.skip(n + sep.len()) =~= b);
    lemma_split_no_occ(b, sep);
}

/// Law: an invocation of a function whose message names it by its
/// identifier (a random UUID, as a JSON string) looks up that identifier in
/// the published database, which is where publishing puts it.
pub proof fn law_invocation_looks_up_sent_id(text: Seq<char>, j: JsonSpec, id: Seq<char>, drawn: Seq<char>)
    requires
        parsed_json(body_of(text)) == Some(j),
        member(j, "msg_type"@) == JsonSpec::Str("INVOKE"@),
        member(j, "id"@) == JsonSpec::Str(id),
        uuid_text(id),
    ensures
        handler_plan(parsed_request(body_of(text))->0, drawn).effects == seq![
            EffectSpec::LookupKey { db: PUB_DB, key: id },
        ],
{
    reveal_strlit("MANAGE");
    reveal_strlit("INVOKE");
    assert("MANAGE"@[0] != "INVOKE"@[0]);
    crate::client::law_sent_id_is_key(id);
}

/// Law: a `MANAGE` message answers the client with the action's result after
/// the action's work; a failed action gets no answer.
pub proof fn law_manage_answers_result(r: RequestSpec, id: Seq<char>)
    requires
        r.msg_type == Some("MANAGE"@),
    ensures
        action_plan(r, id).result matches Ok(t) ==> {
            &&& handler_plan(r, id).effects == action_plan(r, id).effects.push(
                EffectSpec::Reply { text: t },
            )
            &&& handler_plan(r, id).session == SessionSpec::Done(Ok(MsgType::MANAGE))
        },
        action_plan(r, id).result matches Err(e) ==> {
            &&& handler_plan(r, id).effects == action_plan(r, id).effects
            &&& handler_plan(r, id).session == SessionSpec::Failed(e)
        },
{
}

/// Law: creating a buildable function answers the client with the identifier
/// under which its program is registered in the development database.
pub proof fn law_create_answers_registered_id(r: RequestSpec, id: Seq<char>)
    requires
        r.msg_type == Some("MANAGE"@),
        r.action == Some("create"@),
        buildable(r),
    ensures
        ({
            let e = handler_plan(r, id).effects;
            let k = strings(r.dirs).len() as int;
            &&& e.len() > 0
            &&& e.last() == (EffectSpec::Reply { text: id })
            &&& e[k] matches EffectSpec::StoreKey { db, key, .. } && db == crate::effect::DEV_DB
                && key == id
        }),
{
    law_registered_program_is_built(r, id, text_hash(id));
    let p = create_plan(r, id, text_hash(id));
    assert(p.effects.push(EffectSpec::Reply { text: id })[strings(r.dirs).len() as int] == p.effects[strings(r.dirs).len() as int]);
}

/// Law: once its program is found (or not), an invocation runs that program
/// (or the placeholder) with exactly the call's arguments, in the order the
/// message gave them.
pub proof fn law_run_with_call_params(params: Seq<Seq<char>>, reply: Option<Seq<char>>)
    ensures
        resume_plan(
            SessionSpec::Invoking(InvocationSpec::Lookup { params }),
            EventSpec::Program(reply),
        ).effects == seq![
            EffectSpec::Run {
                program: match reply {
                    Some(p) => p,
                    None => "Function not created or published"@,
                },
                args: params,
            },
        ],
{
}

} // verus!

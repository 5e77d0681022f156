//! Running a published function.
//!
//! The function's program is looked up by its identifier in the published
//! database, run with the call's arguments, and its answer is the text that
//! follows the driver's `FaaSRESULT:` marker in what it prints.

use vstd::prelude::*;
use crate::effect::{strings_view, Effect, EffectSpec, PUB_DB};
use crate::manage::{key_of, key_of_exec, law_key_ignores_a_quote};
use crate::request::opt_view;
use crate::text::{chars_of, split, split_exec, string_of, views};

verus! {

/// Why running a function failed.
#[derive(Debug, Clone, Copy, PartialEq, Eq, Structural)]
pub enum RuntimeError {
    RustError,
}

/// The marker after which a driver prints the function's result.
pub open spec fn result_marker() -> Seq<char> {
    "FaaSRESULT:"@
}

/// The program that runs when no function is registered under the identifier.
pub open spec fn missing_program() -> Seq<char> {
    "Function not created or published"@
}

/// The program to run, given the answer of the lookup.
pub open spec fn program_for(reply: Option<Seq<char>>) -> Seq<char> {
    match reply {
        Some(p) => p,
        None => missing_program(),
    }
}

/// Output that holds the result marker.
pub open spec fn output_ok(output: Seq<char>) -> bool {
    split(output, result_marker()).len() >= 2
}

/// The function's answer: the text after the first result marker, up to the
/// next one if any.
pub open spec fn output_result(output: Seq<char>) -> Seq<char> {
    split(output, result_marker())[1]
}

/// An invocation under way.
#[derive(Debug)]
pub enum Invocation {
    /// The program's path has been asked for; the call's arguments wait.
    Lookup { params: Vec<String> },
    /// The program runs; its output is awaited.
    Running,
}

/// Starts invoking the function `id` (as received, possibly quoted) with
/// `params`: its program is looked up in the published database.
pub fn invoke(id: &String, params: Vec<String>) -> (step: (Effect, Invocation))
    ensures
        step.0@ == (EffectSpec::LookupKey { db: PUB_DB, key: key_of(id@) }),
        step.1 == (Invocation::Lookup { params }),
{
    (Effect::LookupKey { db: PUB_DB, key: key_of_exec(id) }, Invocation::Lookup { params })
}

/// Runs the looked-up program (or the placeholder when nothing was found)
/// with the call's arguments.
pub fn invoke_run(params: Vec<String>, reply: Option<String>) -> (e: Effect)
    ensures
        e@ == (EffectSpec::Run { program: program_for(opt_view(reply)), args: strings_view(params@) }),
{
    let program = match reply {
        Some(p) => p,
        None => String::from_str("Function not created or published"),
    };
    Effect::Run { program, args: params }
}

/// Whether the program's output holds the result marker.
pub fn output_ok_exec(output: &String) -> (b: bool)
    ensures
        b == output_ok(output@),
{
    proof {
        reveal_strlit("FaaSRESULT:");
    }
    let pieces = split_exec(&chars_of(output.as_str()), &chars_of("FaaSRESULT:"));
    pieces.len() >= 2
}

/// The function's answer in the program's output.
pub fn invoke_result(output: &String) -> (r: Result<String, RuntimeError>)
    requires
        output_ok(output@),
    ensures
        r matches Ok(t) && t@ == output_result(output@),
{
    proof {
        reveal_strlit("FaaSRESULT:");
    }
    let pieces = split_exec(&chars_of(output.as_str()), &chars_of("FaaSRESULT:"));
    proof {
        assert(views(pieces@)[1] == pieces@[1]@);
    }
    Ok(string_of(&pieces[1]))
}

/// Law: an invocation looks up the same program for two identifiers that
/// differ by a `"`.
pub proof fn law_invoke_ignores_a_quote(a: Seq<char>, b: Seq<char>)
    ensures
        (EffectSpec::LookupKey { db: PUB_DB, key: key_of(a + "\""@ + b) }) == (EffectSpec::LookupKey {
            db: PUB_DB,
            key: key_of(a + b),
        }),
{
    law_key_ignores_a_quote(a, b);
}

} // verus!

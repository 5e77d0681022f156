//! The outside work that the server's decisions call for.
//!
//! The library decides; the program around it carries out each effect in
//! order (file system, key-value store, processes, the client connection).

use vstd::prelude::*;

verus! {

/// Key-value database that holds functions that were created but maybe not published.
pub const DEV_DB: u8 = 2;

/// Key-value database that holds published functions, the ones that can be invoked.
pub const PUB_DB: u8 = 3;

/// One piece of outside work.
#[derive(Debug)]
pub enum Effect {
    /// Create the directory `path` with its missing parents.
    CreateDir { path: String },
    /// Create the file `path` if needed and write `contents` from its start.
    WriteFile { path: String, contents: String },
    /// Append `contents` to the existing file `path`.
    AppendFile { path: String, contents: String },
    /// Store `value` under `key` in database `db`.
    StoreKey { db: u8, key: String, value: String },
    /// Delete `key` from database `db`.
    DeleteKey { db: u8, key: String },
    /// Read the value under `key` in database `from` and store it under `key` in `to`.
    CopyKey { from: u8, to: u8, key: String },
    /// Run `cargo` with `args` in the directory `dir`.
    Cargo { dir: String, args: Vec<String> },
    /// Look `key` up in database `db`; the answer comes back as an event.
    LookupKey { db: u8, key: String },
    /// Run `program` with `args`; its standard output comes back as an event.
    Run { program: String, args: Vec<String> },
    /// Send `text` to the client.
    Reply { text: String },
}

/// An effect with its texts seen as character sequences.
pub enum EffectSpec {
    CreateDir { path: Seq<char> },
    WriteFile { path: Seq<char>, contents: Seq<char> },
    AppendFile { path: Seq<char>, contents: Seq<char> },
    StoreKey { db: u8, key: Seq<char>, value: Seq<char> },
    DeleteKey { db: u8, key: Seq<char> },
    CopyKey { from: u8, to: u8, key: Seq<char> },
    Cargo { dir: Seq<char>, args: Seq<Seq<char>> },
    LookupKey { db: u8, key: Seq<char> },
    Run { program: Seq<char>, args: Seq<Seq<char>> },
    Reply { text: Seq<char> },
}

/// The character sequences of a list of strings.
pub open spec fn strings_view(v: Seq<String>) -> Seq<Seq<char>> {
    v.map_values(|s: String| s@)
}

impl View for Effect {
    type V = EffectSpec;

    open spec fn view(&self) -> EffectSpec {
        match self {
            Effect::CreateDir { path } => EffectSpec::CreateDir { path: path@ },
            Effect::WriteFile { path, contents } => EffectSpec::WriteFile {
                path: path@,
                contents: contents@,
            },
            Effect::AppendFile { path, contents } => EffectSpec::AppendFile {
                path: path@,
                contents: contents@,
            },
            Effect::StoreKey { db, key, value } => EffectSpec::StoreKey {
                db: *db,
                key: key@,
                value: value@,
            },
            Effect::DeleteKey { db, key } => EffectSpec::DeleteKey { db: *db, key: key@ },
            Effect::CopyKey { from, to, key } => EffectSpec::CopyKey {
                from: *from,
                to: *to,
                key: key@,
            },
            Effect::Cargo { dir, args } => EffectSpec::Cargo {
                dir: dir@,
                args: strings_view(args@),
            },
            Effect::LookupKey { db, key } => EffectSpec::LookupKey { db: *db, key: key@ },
            Effect::Run { program, args } => EffectSpec::Run {
                program: program@,
                args: strings_view(args@),
            },
            Effect::Reply { text } => EffectSpec::Reply { text: text@ },
        }
    }
}

/// The models of a list of effects.
pub open spec fn effects_view(v: Seq<Effect>) -> Seq<EffectSpec> {
    v.map_values(|e: Effect| e@)
}

/// The key-value databases, as a map from a database and a key to a value.
pub type StoreModel = Map<(u8, Seq<char>), Seq<char>>;

/// The databases after one effect: storing writes a key, deleting removes it,
/// copying writes the source value when there is one; other effects leave
/// the databases alone.
pub open spec fn store_after(st: StoreModel, e: EffectSpec) -> StoreModel {
    match e {
        EffectSpec::StoreKey { db, key, value } => st.insert((db, key), value),
        EffectSpec::DeleteKey { db, key } => st.remove((db, key)),
        EffectSpec::CopyKey { from, to, key } => if st.contains_key((from, key)) {
            st.insert((to, key), st[(from, key)])
        } else {
            st
        },
        _ => st,
    }
}

/// The databases after a sequence of effects, in order.
pub open spec fn store_after_all(st: StoreModel, es: Seq<EffectSpec>) -> StoreModel
    decreases es.len(),
{
    if es.len() == 0 {
        st
    } else {
        store_after_all(store_after(st, es[0]), es.drop_first())
    }
}

/// An effect that does not touch the databases.
pub open spec fn store_neutral(e: EffectSpec) -> bool {
    !(e is StoreKey || e is DeleteKey || e is CopyKey)
}

/// Effects in sequence: the second part starts from where the first ended.
pub proof fn lemma_store_after_concat(st: StoreModel, a: Seq<EffectSpec>, b: Seq<EffectSpec>)
    ensures
        store_after_all(st, a + b) == store_after_all(store_after_all(st, a), b),
    decreases a.len(),
{
    if a.len() == 0 {
        assert(a + b =~= b);
    } else {
        assert((a + b).drop_first() =~= a.drop_first() + b);
        lemma_store_after_concat(store_after(st, a[0]), a.drop_first(), b);
    }
}

/// Effects that do not touch the databases leave them as they were.
pub proof fn lemma_store_neutral(st: StoreModel, es: Seq<EffectSpec>)
    requires
        forall|i: int| 0 <= i < es.len() ==> store_neutral(#[trigger] es[i]),
    ensures
        store_after_all(st, es) == st,
    decreases es.len(),
{
    if es.len() > 0 {
        assert(store_neutral(es[0]));
        assert forall|i: int| 0 <= i < es.drop_first().len() implies store_neutral(#[trigger] es.drop_first()[i]) by {
            assert(es.drop_first()[i] == es[i + 1]);
        }
        lemma_store_neutral(store_after(st, es[0]), es.drop_first());
    }
}

} // verus!

//! Managing functions: create (unpack, register, build), delete and publish.

use std::collections::hash_map::DefaultHasher;
use std::hash::{Hash, Hasher};
use vstd::prelude::*;
use crate::client::{json_string, law_sent_id_is_key};
use crate::effect::{
    effects_view, lemma_store_after_concat, lemma_store_neutral, store_after_all, Effect,
    EffectSpec, StoreModel, DEV_DB, PUB_DB,
};
use crate::request::{
    all_strings, all_strings_exec, file_text, opt_view, opt_views, strings, Request,
    RequestSpec,
};
use crate::templates::{
    all_supported, build_effects, proto_args, prototype_ok, prototype_ok_exec, rust_temp,
};
use crate::text::{
    append_chars, chars_of, decimal, lemma_remove_char, not_char, decimal_exec, ends_with, ends_with_exec, replace,
    replace_exec, string_of, trim_end_matches, trim_end_matches_exec,
};

verus! {

/// Why a management action failed.
#[allow(non_camel_case_types)]
#[derive(Debug, Clone, Copy, PartialEq, Eq, Structural)]
pub enum action_error {
    PubError,
    DeleteError,
    CreateError,
    /// The action, or the language of the uploaded function, is not known.
    Unknown,
    /// No uploaded file is the package's `src/main.rs`.
    MainFileError,
}

/// The outside work a management action needs, in order, and what it answers.
#[derive(Debug)]
pub struct ActionOutcome {
    pub effects: Vec<Effect>,
    pub result: Result<String, action_error>,
}

/// An action's outcome with its texts seen as character sequences.
pub struct ActionOutcomeSpec {
    pub effects: Seq<EffectSpec>,
    pub result: Result<Seq<char>, action_error>,
}

impl View for ActionOutcome {
    type V = ActionOutcomeSpec;

    open spec fn view(&self) -> ActionOutcomeSpec {
        ActionOutcomeSpec {
            effects: effects_view(self.effects@),
            result: match self.result {
                Ok(s) => Ok(s@),
                Err(e) => Err(e),
            },
        }
    }
}

// ---------------------------------------------------------------------------
// Specifications
// ---------------------------------------------------------------------------

/// A lower-case hexadecimal digit.
pub open spec fn is_hex_lower(c: char) -> bool {
    ('0' <= c <= '9') || ('a' <= c <= 'f')
}

/// The text of a random (version 4) UUID in hyphenated lower-case form.
pub open spec fn uuid_text(s: Seq<char>) -> bool {
    &&& s.len() == 36
    &&& forall|i: int| 0 <= i < 36 ==> if i == 8 || i == 13 || i == 18 || i == 23 {
        #[trigger] s[i] == '-'
    } else {
        is_hex_lower(s[i])
    }
    &&& s[14] == '4'
    &&& (s[19] == '8' || s[19] == '9' || s[19] == 'a' || s[19] == 'b')
}

/// What std's `DefaultHasher` gives for the text `s`.
pub uninterp spec fn text_hash(s: Seq<char>) -> u64;

/// The last uploaded path that ends with `src/main.rs`.
pub open spec fn main_file(names: Seq<Seq<char>>) -> Option<Seq<char>>
    decreases names.len(),
{
    if names.len() == 0 {
        None
    } else if ends_with(names.last(), "src/main.rs"@) {
        Some(names.last())
    } else {
        main_file(names.drop_last())
    }
}

/// `rel` inside the directory `root`.
pub open spec fn under(root: Seq<char>, rel: Seq<char>) -> Seq<char> {
    root + "/"@ + rel
}

/// The directory that receives the uploaded files of a function whose
/// identifier hashes to `hash`.
pub open spec fn root_dir(hash: u64) -> Seq<char> {
    ".FaasDirectory/"@ + decimal(hash as nat)
}

/// The package directory: the one that holds the main file's `src`.
pub open spec fn package_dir(root: Seq<char>, main: Seq<char>) -> Seq<char> {
    under(root, trim_end_matches(main, "/src/main.rs"@))
}

/// The name of the program built for the function `id`.
pub open spec fn binary_name(id: Seq<char>) -> Seq<char> {
    "faas_"@ + id
}

/// Where cargo leaves the release build of `binary` in the package `dir`.
pub open spec fn release_path(dir: Seq<char>, binary: Seq<char>) -> Seq<char> {
    dir + "/target/release/"@ + binary
}

/// The marker that stands for a single quote in uploaded file texts.
pub open spec fn quote_marker() -> Seq<char> {
    "\\u{27}"@
}

/// An uploaded file text with each quote marker turned back into a quote.
pub open spec fn unescape_quotes(t: Seq<char>) -> Seq<char> {
    replace(t, quote_marker(), "'"@)
}

/// Creating each uploaded directory under `root`.
pub open spec fn dir_effects(root: Seq<char>, dirs: Seq<Seq<char>>) -> Seq<EffectSpec> {
    Seq::new(dirs.len(), |i: int| EffectSpec::CreateDir { path: under(root, dirs[i]) })
}

/// Writing each uploaded file under `root`.
pub open spec fn write_effects(
    root: Seq<char>,
    names: Seq<Seq<char>>,
    files: Seq<(Seq<char>, Option<Seq<char>>)>,
) -> Seq<EffectSpec> {
    Seq::new(
        names.len(),
        |i: int|
            EffectSpec::WriteFile {
                path: under(root, names[i]),
                contents: unescape_quotes(file_text(files, names[i])->0),
            },
    )
}

/// A `create` request that can be carried out without a missing member: the
/// language, the prototype and the lists are there, and once a main file is
/// found every uploaded file has a text and a Rust prototype can be read.
pub open spec fn create_ok(r: RequestSpec) -> bool {
    let names = strings(r.file_name);
    &&& r.lang is Some
    &&& r.prototype is Some
    &&& all_strings(r.file_name)
    &&& all_strings(r.dirs)
    &&& main_file(names) is Some ==> {
        &&& forall|i: int| 0 <= i < names.len() ==> (#[trigger] file_text(r.files, names[i])) is Some
        &&& r.lang->0 == "Rust"@ ==> prototype_ok(r.prototype->0)
    }
}

/// Creating the function `id` (whose text hashes to `hash`): make the uploaded
/// directories; without a main file stop there. Otherwise register the
/// release path of `faas_<id>` under `id` in the development database, write
/// the uploaded files, and for Rust build the package; any other language is
/// refused after the files are written.
pub open spec fn create_plan(r: RequestSpec, id: Seq<char>, hash: u64) -> ActionOutcomeSpec {
    let root = root_dir(hash);
    let names = strings(r.file_name);
    let dirs = dir_effects(root, strings(r.dirs));
    match main_file(names) {
        None => ActionOutcomeSpec { effects: dirs, result: Err(action_error::MainFileError) },
        Some(m) => {
            let dir = package_dir(root, m);
            let binary = binary_name(id);
            let stored = dirs.push(
                EffectSpec::StoreKey { db: DEV_DB, key: id, value: release_path(dir, binary) },
            ) + write_effects(root, names, r.files);
            if r.lang->0 == "Rust"@ {
                ActionOutcomeSpec {
                    effects: stored + build_effects(binary, dir, r.prototype->0),
                    result: Ok(id),
                }
            } else {
                ActionOutcomeSpec { effects: stored, result: Err(action_error::Unknown) }
            }
        },
    }
}

/// The database key of a function: its identifier as received, without quotes.
pub open spec fn key_of(id: Seq<char>) -> Seq<char> {
    replace(id, "\""@, Seq::empty())
}

/// Deleting the function `id` from both databases.
pub open spec fn delete_plan(id: Seq<char>) -> ActionOutcomeSpec {
    ActionOutcomeSpec {
        effects: seq![
            EffectSpec::DeleteKey { db: DEV_DB, key: key_of(id) },
            EffectSpec::DeleteKey { db: PUB_DB, key: key_of(id) },
        ],
        result: Ok("OK"@),
    }
}

/// Publishing the function `id`: copying its entry to the published database.
pub open spec fn publish_plan(id: Seq<char>) -> ActionOutcomeSpec {
    ActionOutcomeSpec {
        effects: seq![EffectSpec::CopyKey { from: DEV_DB, to: PUB_DB, key: key_of(id) }],
        result: Ok("OK"@),
    }
}

/// A management request that can be carried out without a missing member.
pub open spec fn action_ok(r: RequestSpec) -> bool {
    r.action == Some("create"@) ==> create_ok(r)
}

/// The outcome of a management request, where `id` is the identifier that a
/// `create` draws.
pub open spec fn action_plan(r: RequestSpec, id: Seq<char>) -> ActionOutcomeSpec {
    if r.action == Some("create"@) {
        create_plan(r, id, text_hash(id))
    } else if r.action == Some("delete"@) {
        delete_plan(r.id)
    } else if r.action == Some("publish"@) {
        publish_plan(r.id)
    } else {
        ActionOutcomeSpec { effects: Seq::empty(), result: Err(action_error::Unknown) }
    }
}

// ---------------------------------------------------------------------------
// Outside calls
// ---------------------------------------------------------------------------

/// A fresh identifier: `uuid::Uuid::new_v4()` written by its `Display` impl,
/// which gives the hyphenated lower-case form; `new_v4` sets the version digit
/// to 4 and the variant bits to `10`. Which identifier comes out is random.
#[verifier::external_body]
fn new_function_id() -> (id: String)
    ensures
        uuid_text(id@),
{
    uuid::Uuid::new_v4().to_string()
}

/// std's `DefaultHasher` (made by `DefaultHasher::new`, whose keys are fixed)
/// fed with `s` through `Hash`, then `finish`. The value is named, not stated.
#[verifier::external_body]
fn hash_text(s: &str) -> (h: u64)
    ensures
        h == text_hash(s@),
{
    let mut hasher = DefaultHasher::new();
    s.hash(&mut hasher);
    hasher.finish()
}

// ---------------------------------------------------------------------------
// Code
// ---------------------------------------------------------------------------

/// `root/rel` as characters.
fn under_exec(root: &Vec<char>, rel: &Vec<char>) -> (r: Vec<char>)
    ensures
        r@ == under(root@, rel@),
{
    let mut r = Vec::new();
    append_chars(&mut r, root);
    append_chars(&mut r, &chars_of("/"));
    append_chars(&mut r, rel);
    r
}

/// The last path in `names` that ends with `src/main.rs`, by index.
fn main_file_exec(names: &Vec<Option<String>>) -> (r: Option<usize>)
    requires
        all_strings(Some(opt_views(names@))),
    ensures
        match r {
            Some(i) => i < names@.len() && main_file(strings(Some(opt_views(names@)))) == Some(
                names@[i as int]->0@,
            ),
            None => main_file(strings(Some(opt_views(names@)))) is None,
        },
{
    let ghost ns = strings(Some(opt_views(names@)));
    let suffix = chars_of("src/main.rs");
    let mut i: usize = names.len();
    proof {
        assert(ns.take(i as int) =~= ns);
    }
    while i > 0
        invariant
            i <= names@.len(),
            ns == strings(Some(opt_views(names@))),
            ns.len() == names@.len(),
            all_strings(Some(opt_views(names@))),
            suffix@ == "src/main.rs"@,
            main_file(ns) == main_file(ns.take(i as int)),
        decreases i,
    {
        proof {
            assert(opt_views(names@)[i - 1] is Some);
        }
        let name = match &names[i - 1] {
            Some(n) => chars_of(n.as_str()),
            None => {
                return None;
            },
        };
        proof {
            assert(ns[i - 1] == name@);
            assert(ns.take(i as int).last() == name@);
            assert(ns.take(i as int).drop_last() =~= ns.take(i - 1));
        }
        if ends_with_exec(&name, &suffix) {
            return Some(i - 1);
        }
        i = i - 1;
    }
    proof {
        assert(ns.take(0) =~= Seq::<Seq<char>>::empty());
    }
    None
}

/// The text of the member `name` of `files`, when it is a string.
fn file_text_exec(files: &Vec<(String, Option<String>)>, name: &String) -> (r: Option<String>)
    ensures
        opt_view(r) == file_text(
            files@.map_values(|m: (String, Option<String>)| (m.0@, opt_view(m.1))),
            name@,
        ),
{
    let ghost fs = files@.map_values(|m: (String, Option<String>)| (m.0@, opt_view(m.1)));
    let mut k: usize = 0;
    proof {
        assert(fs.skip(0) =~= fs);
    }
    while k < files.len()
        invariant
            k <= files@.len(),
            fs == files@.map_values(|m: (String, Option<String>)| (m.0@, opt_view(m.1))),
            file_text(fs, name@) == file_text(fs.skip(k as int), name@),
        decreases files@.len() - k,
    {
        proof {
            assert(fs.skip(k as int)[0] == fs[k as int]);
            assert(fs.skip(k as int).drop_first() =~= fs.skip(k + 1));
        }
        if files[k].0 == *name {
            return files[k].1.clone();
        }
        k = k + 1;
    }
    None
}

/// Whether a `create` request can be carried out without a missing member.
pub fn create_ok_exec(data: &Request) -> (b: bool)
    ensures
        b == create_ok(data@),
{
    if data.lang.is_none() || data.prototype.is_none() {
        return false;
    }
    if !all_strings_exec(&data.file_name) || !all_strings_exec(&data.dirs) {
        return false;
    }
    let names = match &data.file_name {
        Some(v) => v,
        None => {
            return false;
        },
    };
    if main_file_exec(names).is_none() {
        return true;
    }
    let ghost ns = strings(data@.file_name);
    let mut i: usize = 0;
    while i < names.len()
        invariant
            i <= names@.len(),
            data@.file_name == Some(opt_views(names@)),
            all_strings(data@.file_name),
            ns == strings(data@.file_name),
            ns.len() == names@.len(),
            main_file(ns) is Some,
            forall|k: int| 0 <= k < i ==> (#[trigger] file_text(data@.files, ns[k])) is Some,
        decreases names@.len() - i,
    {
        proof {
            assert(opt_views(names@)[i as int] is Some);
        }
        match &names[i] {
            Some(n) => {
                proof {
                    assert(ns[i as int] == n@);
                }
                if file_text_exec(&data.files, n).is_none() {
                    return false;
                }
            },
            None => {
                return false;
            },
        }
        i = i + 1;
    }
    let lang = match &data.lang {
        Some(l) => l,
        None => {
            return false;
        },
    };
    let prototype = match &data.prototype {
        Some(p) => p,
        None => {
            return false;
        },
    };
    let rust = String::from_str("Rust");
    if *lang == rust {
        prototype_ok_exec(prototype.as_str())
    } else {
        true
    }
}

/// The work of creating the function `id`, whose text hashes to `hash`.
pub fn plan_create(data: &Request, id: String, hash: u64) -> (out: ActionOutcome)
    requires
        create_ok(data@),
    ensures
        out@ == create_plan(data@, id@, hash),
{
    let mut root = chars_of(".FaasDirectory/");
    append_chars(&mut root, &decimal_exec(hash));
    let ghost r = data@;
    let dirs = match &data.dirs {
        Some(d) => d,
        None => {
            return ActionOutcome { effects: Vec::new(), result: Err(action_error::CreateError) };
        },
    };
    let names = match &data.file_name {
        Some(n) => n,
        None => {
            return ActionOutcome { effects: Vec::new(), result: Err(action_error::CreateError) };
        },
    };
    let ghost ds = strings(r.dirs);
    let ghost ns = strings(r.file_name);

    let mut effects: Vec<Effect> = Vec::new();
    let mut i: usize = 0;
    while i < dirs.len()
        invariant
            i <= dirs@.len(),
            r.dirs == Some(opt_views(dirs@)),
            all_strings(r.dirs),
            ds == strings(r.dirs),
            ds.len() == dirs@.len(),
            root@ == root_dir(hash),
            effects_view(effects@) == dir_effects(root@, ds).take(i as int),
        decreases dirs@.len() - i,
    {
        proof {
            assert(opt_views(dirs@)[i as int] is Some);
        }
        match &dirs[i] {
            Some(d) => {
                proof {
                    assert(ds[i as int] == d@);
                }
                let path = under_exec(&root, &chars_of(d.as_str()));
                let ghost before = effects@;
                effects.push(Effect::CreateDir { path: string_of(&path) });
                proof {
                    assert(effects_view(effects@) =~= effects_view(before).push(
                        EffectSpec::CreateDir { path: path@ },
                    ));
                    assert(dir_effects(root@, ds).take(i + 1) =~= dir_effects(root@, ds).take(
                        i as int,
                    ).push(EffectSpec::CreateDir { path: path@ }));
                }
            },
            None => {
                return ActionOutcome { effects, result: Err(action_error::CreateError) };
            },
        }
        i = i + 1;
    }
    proof {
        assert(dir_effects(root@, ds).take(dirs@.len() as int) =~= dir_effects(root@, ds));
    }

    let main_index = match main_file_exec(names) {
        None => {
            return ActionOutcome { effects, result: Err(action_error::MainFileError) };
        },
        Some(k) => k,
    };
    proof {
        assert(opt_views(names@)[main_index as int] is Some);
        reveal_strlit("/src/main.rs");
    }
    let main = match &names[main_index] {
        Some(m) => chars_of(m.as_str()),
        None => {
            return ActionOutcome { effects, result: Err(action_error::CreateError) };
        },
    };
    let trimmed = trim_end_matches_exec(&main, &chars_of("/src/main.rs"));
    let dir = under_exec(&root, &trimmed);
    let mut binary = chars_of("faas_");
    append_chars(&mut binary, &chars_of(id.as_str()));
    let mut value = Vec::new();
    append_chars(&mut value, &dir);
    append_chars(&mut value, &chars_of("/target/release/"));
    append_chars(&mut value, &binary);
    effects.push(Effect::StoreKey { db: DEV_DB, key: id.clone(), value: string_of(&value) });
    let ghost after_store = effects_view(effects@);
    proof {
        assert(after_store =~= dir_effects(root@, ds).push(
            EffectSpec::StoreKey { db: DEV_DB, key: id@, value: value@ },
        ));
    }

    let marker = chars_of("\\u{27}");
    let quote = chars_of("'");
    proof {
        reveal_strlit("\\u{27}");
    }
    let mut j: usize = 0;
    while j < names.len()
        invariant
            j <= names@.len(),
            r == data@,
            r.file_name == Some(opt_views(names@)),
            create_ok(r),
            main_file(ns) is Some,
            ns == strings(r.file_name),
            ns.len() == names@.len(),
            root@ == root_dir(hash),
            marker@ == quote_marker(),
            marker@.len() > 0,
            quote@ == "'"@,
            effects_view(effects@) == after_store + write_effects(root@, ns, r.files).take(j as int),
        decreases names@.len() - j,
    {
        proof {
            assert(opt_views(names@)[j as int] is Some);
        }
        match &names[j] {
            Some(n) => {
                proof {
                    assert(ns[j as int] == n@);
                    assert(file_text(r.files, ns[j as int]) is Some);
                }
                let text = match file_text_exec(&data.files, n) {
                    Some(t) => t,
                    None => {
                        return ActionOutcome { effects, result: Err(action_error::CreateError) };
                    },
                };
                let contents = replace_exec(&chars_of(text.as_str()), &marker, &quote);
                let path = under_exec(&root, &chars_of(n.as_str()));
                let ghost before = effects@;
                effects.push(
                    Effect::WriteFile { path: string_of(&path), contents: string_of(&contents) },
                );
                proof {
                    let w = write_effects(root@, ns, r.files);
                    assert(w[j as int] == EffectSpec::WriteFile { path: path@, contents: contents@ });
                    assert(w.take(j + 1) =~= w.take(j as int).push(w[j as int]));
                    assert(effects_view(effects@) =~= effects_view(before).push(w[j as int]));
                }
            },
            None => {
                return ActionOutcome { effects, result: Err(action_error::CreateError) };
            },
        }
        j = j + 1;
    }
    proof {
        assert(write_effects(root@, ns, r.files).take(names@.len() as int) =~= write_effects(
            root@,
            ns,
            r.files,
        ));
    }

    let lang = match &data.lang {
        Some(l) => l,
        None => {
            return ActionOutcome { effects, result: Err(action_error::CreateError) };
        },
    };
    let prototype = match &data.prototype {
        Some(p) => p,
        None => {
            return ActionOutcome { effects, result: Err(action_error::CreateError) };
        },
    };
    let rust = String::from_str("Rust");
    if *lang == rust {
        let mut build = rust_temp(string_of(&binary), string_of(&dir), prototype.clone());
        let ghost before = effects@;
        let ghost built = build@;
        effects.append(&mut build);
        proof {
            assert(effects_view(effects@) =~= effects_view(before) + effects_view(built));
        }
        ActionOutcome { effects, result: Ok(id) }
    } else {
        ActionOutcome { effects, result: Err(action_error::Unknown) }
    }
}

/// Creates a function from an uploaded package: draws a fresh identifier,
/// then does the work of `plan_create` for it.
pub fn faas_create(data: &Request) -> (out: ActionOutcome)
    requires
        create_ok(data@),
    ensures
        exists|id: Seq<char>| uuid_text(id) && out@ == #[trigger] create_plan(data@, id, text_hash(id)),
{
    let function_id = new_function_id();
    let hash = hash_text(function_id.as_str());
    let ghost id = function_id@;
    let out = plan_create(data, function_id, hash);
    proof {
        assert(uuid_text(id) && out@ == create_plan(data@, id, text_hash(id)));
    }
    out
}

/// The database key of the received identifier text: its quotes removed.
pub fn key_of_exec(id: &String) -> (key: String)
    ensures
        key@ == key_of(id@),
{
    let quote = chars_of("\"");
    proof {
        reveal_strlit("\"");
    }
    string_of(&replace_exec(&chars_of(id.as_str()), &quote, &Vec::new()))
}

/// Deletes the function `id` from the development and the published database.
fn faas_delete(id: &String) -> (out: ActionOutcome)
    ensures
        out@ == delete_plan(id@),
{
    let mut effects: Vec<Effect> = Vec::new();
    effects.push(Effect::DeleteKey { db: DEV_DB, key: key_of_exec(id) });
    effects.push(Effect::DeleteKey { db: PUB_DB, key: key_of_exec(id) });
    let out = ActionOutcome { effects, result: Ok(String::from_str("OK")) };
    proof {
        assert(out@.effects =~= delete_plan(id@).effects);
    }
    out
}

/// Publishes the function `id`: after this it can be invoked.
fn faas_publish(id: &String) -> (out: ActionOutcome)
    ensures
        out@ == publish_plan(id@),
{
    let mut effects: Vec<Effect> = Vec::new();
    effects.push(Effect::CopyKey { from: DEV_DB, to: PUB_DB, key: key_of_exec(id) });
    let out = ActionOutcome { effects, result: Ok(String::from_str("OK")) };
    proof {
        assert(out@.effects =~= publish_plan(id@).effects);
    }
    out
}

/// Whether a management request can be carried out without a missing member.
pub fn action_ok_exec(data: &Request) -> (b: bool)
    ensures
        b == action_ok(data@),
{
    match &data.action {
        Some(a) => {
            let create = String::from_str("create");
            if *a == create {
                create_ok_exec(data)
            } else {
                true
            }
        },
        None => true,
    }
}

/// Carries out a management request: `create`, `delete` or `publish`; any
/// other action is refused as `Unknown` with nothing done.
pub fn action(data: &Request) -> (out: ActionOutcome)
    requires
        action_ok(data@),
    ensures
        exists|id: Seq<char>| uuid_text(id) && out@ == #[trigger] action_plan(data@, id),
{
    let create = String::from_str("create");
    let delete = String::from_str("delete");
    let publish = String::from_str("publish");
    match &data.action {
        Some(a) => {
            if *a == create {
                let out = faas_create(data);
                proof {
                    let id = choose|id: Seq<char>| uuid_text(id) && out@ == #[trigger] create_plan(data@, id, text_hash(id));
                    assert(out@ == action_plan(data@, id));
                }
                return out;
            } else if *a == delete {
                let out = faas_delete(&data.id);
                proof {
                    lemma_some_uuid();
                    assert(out@ == action_plan(data@, some_uuid()));
                }
                return out;
            } else if *a == publish {
                let out = faas_publish(&data.id);
                proof {
                    lemma_some_uuid();
                    assert(out@ == action_plan(data@, some_uuid()));
                }
                return out;
            }
        },
        None => {},
    }
    let out = ActionOutcome { effects: Vec::new(), result: Err(action_error::Unknown) };
    proof {
        lemma_some_uuid();
        assert(out@.effects =~= Seq::<EffectSpec>::empty());
        assert(out@ == action_plan(data@, some_uuid()));
    }
    out
}

/// A text in the shape of a random UUID.
spec fn some_uuid() -> Seq<char> {
    Seq::new(36, |i: int| if i == 8 || i == 13 || i == 18 || i == 23 { '-' } else if i == 14 { '4' } else if i == 19 { '8' } else { '0' })
}

/// `some_uuid` has the shape of a random UUID.
proof fn lemma_some_uuid()
    ensures
        uuid_text(some_uuid()),
{
}

/// Some text has the shape of a random UUID.
pub proof fn lemma_uuid_exists()
    ensures
        exists|id: Seq<char>| uuid_text(id),
{
    lemma_some_uuid();
}

// ---------------------------------------------------------------------------
// Laws
// ---------------------------------------------------------------------------

/// A `create` request for a Rust function whose package has a main file and
/// whose parameter types the driver supports.
pub open spec fn buildable(r: RequestSpec) -> bool {
    &&& create_ok(r)
    &&& main_file(strings(r.file_name)) is Some
    &&& r.lang == Some("Rust"@)
    &&& all_supported(proto_args(r.prototype->0))
}

/// Law: creating a buildable function answers its identifier, registers under
/// it the path where cargo leaves the release build of the package that it
/// then initialises under the name `faas_<id>` and builds.
pub proof fn law_registered_program_is_built(r: RequestSpec, id: Seq<char>, hash: u64)
    requires
        buildable(r),
    ensures
        ({
            let p = create_plan(r, id, hash);
            let k = strings(r.dirs).len() as int;
            let n = strings(r.file_name).len() as int;
            let dir = package_dir(root_dir(hash), main_file(strings(r.file_name))->0);
            &&& p.result == Ok::<Seq<char>, action_error>(id)
            &&& p.effects.len() == k + n + 4
            &&& p.effects[k] == (EffectSpec::StoreKey {
                db: DEV_DB,
                key: id,
                value: release_path(dir, binary_name(id)),
            })
            &&& p.effects[k + n + 2] == (EffectSpec::Cargo {
                dir: dir,
                args: seq!["init"@, "--name="@ + binary_name(id)],
            })
            &&& p.effects[k + n + 3] == (EffectSpec::Cargo {
                dir: dir,
                args: seq!["build"@, "--release"@],
            })
        }),
{
    reveal_strlit("Rust");
}

/// The databases after creating a buildable function: its release path is
/// registered under its identifier in the development database.
proof fn lemma_create_store(st: StoreModel, r: RequestSpec, id: Seq<char>, hash: u64)
    requires
        buildable(r),
    ensures
        ({
            let root = root_dir(hash);
            let dir = package_dir(root, main_file(strings(r.file_name))->0);
            store_after_all(st, create_plan(r, id, hash).effects) == st.insert(
                (DEV_DB, id),
                release_path(dir, binary_name(id)),
            )
        }),
{
    reveal_strlit("Rust");
    let root = root_dir(hash);
    let names = strings(r.file_name);
    let dir = package_dir(root, main_file(names)->0);
    let dirs = dir_effects(root, strings(r.dirs));
    let store = EffectSpec::StoreKey { db: DEV_DB, key: id, value: release_path(dir, binary_name(id)) };
    let writes = write_effects(root, names, r.files);
    let build = build_effects(binary_name(id), dir, r.prototype->0);
    let effects = create_plan(r, id, hash).effects;
    assert(effects =~= dirs + (seq![store] + (writes + build)));
    lemma_store_after_concat(st, dirs, seq![store] + (writes + build));
    assert forall|i: int| 0 <= i < dirs.len() implies crate::effect::store_neutral(#[trigger] dirs[i]) by {}
    lemma_store_neutral(st, dirs);
    lemma_store_after_concat(st, seq![store], writes + build);
    let st1 = store_after_all(st, seq![store]);
    assert(st1 == st.insert((DEV_DB, id), release_path(dir, binary_name(id)))) by {
        reveal_with_fuel(store_after_all, 2);
        assert(seq![store].drop_first() =~= Seq::<EffectSpec>::empty());
    }
    assert forall|i: int| 0 <= i < (writes + build).len() implies crate::effect::store_neutral(#[trigger] (writes + build)[i]) by {
        if i < writes.len() {
            assert((writes + build)[i] == writes[i]);
        } else {
            assert((writes + build)[i] == build[i - writes.len()]);
        }
    }
    lemma_store_neutral(st1, writes + build);
}

/// Law: once a buildable function is created, and then published by a client
/// that sends its identifier as a JSON string, an invocation that sends the
/// same identifier finds the function's program in the published database.
pub proof fn law_created_and_published_function_is_found(
    st: StoreModel,
    r: RequestSpec,
    id: Seq<char>,
    hash: u64,
)
    requires
        buildable(r),
        uuid_text(id),
    ensures
        ({
            let dir = package_dir(root_dir(hash), main_file(strings(r.file_name))->0);
            let created = store_after_all(st, create_plan(r, id, hash).effects);
            let published = store_after_all(created, publish_plan(json_string(id)).effects);
            &&& key_of(json_string(id)) == id
            &&& published.contains_key((PUB_DB, key_of(json_string(id))))
            &&& published[(PUB_DB, key_of(json_string(id)))] == release_path(dir, binary_name(id))
        }),
{
    law_sent_id_is_key(id);
    lemma_create_store(st, r, id, hash);
    let created = store_after_all(st, create_plan(r, id, hash).effects);
    let es = publish_plan(json_string(id)).effects;
    assert(es.drop_first() =~= Seq::<EffectSpec>::empty());
    reveal_with_fuel(store_after_all, 2);
}

/// Law: after a delete of an identifier, neither database holds its key.
pub proof fn law_deleted_function_is_gone(st: StoreModel, sent_id: Seq<char>)
    ensures
        ({
            let after = store_after_all(st, delete_plan(sent_id).effects);
            &&& !after.contains_key((DEV_DB, key_of(sent_id)))
            &&& !after.contains_key((PUB_DB, key_of(sent_id)))
        }),
{
    let es = delete_plan(sent_id).effects;
    assert(es.drop_first().drop_first() =~= Seq::<EffectSpec>::empty());
    reveal_with_fuel(store_after_all, 3);
}

/// Law: the key of an identifier keeps exactly its characters other than `"`.
pub proof fn law_key_drops_quotes(id: Seq<char>)
    ensures
        key_of(id) == id.filter(not_char('"')),
{
    reveal_strlit("\"");
    assert("\""@ =~= seq!['"']);
    lemma_remove_char(id, '"');
}

/// Law: identifiers that differ by a `"` have the same key, so they name the
/// same function (e.g. the JSON text of an id and the id itself).
pub proof fn law_key_ignores_a_quote(a: Seq<char>, b: Seq<char>)
    ensures
        key_of(a + "\""@ + b) == key_of(a + b),
{
    reveal_strlit("\"");
    assert("\""@ =~= seq!['"']);
    law_key_drops_quotes(a + "\""@ + b);
    law_key_drops_quotes(a + b);
    let p = not_char('"');
    Seq::filter_distributes_over_add(a + seq!['"'], b, p);
    Seq::filter_distributes_over_add(a, seq!['"'], p);
    Seq::filter_distributes_over_add(a, b, p);
    reveal_with_fuel(Seq::filter, 2);
    assert(seq!['"'].drop_last() =~= Seq::<char>::empty());
    assert(seq!['"'].filter(p) =~= Seq::<char>::empty());
    assert(a.filter(p) + Seq::<char>::empty() =~= a.filter(p));
}

/// Law: deleting a function twice leaves the databases as deleting it once.
pub proof fn law_delete_idempotent(st: StoreModel, sent_id: Seq<char>)
    ensures
        ({
            let once = store_after_all(st, delete_plan(sent_id).effects);
            store_after_all(once, delete_plan(sent_id).effects) == once
        }),
{
    let es = delete_plan(sent_id).effects;
    assert(es.drop_first().drop_first() =~= Seq::<EffectSpec>::empty());
    reveal_with_fuel(store_after_all, 3);
    let once = store_after_all(st, es);
    let k = key_of(sent_id);
    assert(once.remove((DEV_DB, k)).remove((PUB_DB, k)) =~= once);
}

/// Law: publishing a function twice leaves the databases as publishing it once.
pub proof fn law_publish_idempotent(st: StoreModel, sent_id: Seq<char>)
    ensures
        ({
            let once = store_after_all(st, publish_plan(sent_id).effects);
            store_after_all(once, publish_plan(sent_id).effects) == once
        }),
{
    let es = publish_plan(sent_id).effects;
    assert(es.drop_first() =~= Seq::<EffectSpec>::empty());
    reveal_with_fuel(store_after_all, 2);
    let once = store_after_all(st, es);
    let k = key_of(sent_id);
    if st.contains_key((DEV_DB, k)) {
        assert(once.insert((PUB_DB, k), once[(DEV_DB, k)]) =~= once);
    }
}

/// Law: a management action fails only as `Unknown` (unknown action, or a
/// language other than Rust) or `MainFileError` (no main file).
pub proof fn law_action_errors(r: RequestSpec, id: Seq<char>)
    ensures
        action_plan(r, id).result matches Err(e) ==> e == action_error::Unknown || e
            == action_error::MainFileError,
{
}

/// Law: a management action does what its name says: `create` carries out
/// the creation of the identifier it draws, `delete` and `publish` act on the
/// received id text; any other action (missing, or another text) is refused
/// as `Unknown` with nothing done.
pub proof fn law_action_dispatch(r: RequestSpec, id: Seq<char>)
    ensures
        r.action == Some("create"@) ==> action_plan(r, id) == create_plan(r, id, text_hash(id)),
        r.action == Some("delete"@) ==> action_plan(r, id) == delete_plan(r.id),
        r.action == Some("publish"@) ==> action_plan(r, id) == publish_plan(r.id),
        r.action != Some("create"@) && r.action != Some("delete"@) && r.action != Some(
            "publish"@,
        ) ==> action_plan(r, id).effects.len() == 0 && action_plan(r, id).result == Err::<
            Seq<char>,
            action_error,
        >(action_error::Unknown),
{
    reveal_strlit("create");
    reveal_strlit("delete");
    reveal_strlit("publish");
    assert("create"@[0] != "delete"@[0]);
    assert("create"@[0] != "publish"@[0]);
    assert("delete"@[0] != "publish"@[0]);
}

/// Law: once the package has a main file, the create writes each uploaded
/// file at its own path under `.FaasDirectory/<hash>`, with the text of the
/// `files` member of that same name, every quote marker turned back into a
/// quote. The `i`-th write follows the store entry, after the directories.
pub proof fn law_create_writes_each_file(r: RequestSpec, id: Seq<char>, hash: u64, i: int)
    requires
        create_ok(r),
        main_file(strings(r.file_name)) is Some,
        0 <= i < strings(r.file_name).len(),
    ensures
        ({
            let names = strings(r.file_name);
            let k = strings(r.dirs).len() as int;
            let p = create_plan(r, id, hash);
            &&& k + 1 + i < p.effects.len()
            &&& p.effects[k + 1 + i] == (EffectSpec::WriteFile {
                path: ".FaasDirectory/"@ + decimal(hash as nat) + "/"@ + names[i],
                contents: replace(file_text(r.files, names[i])->0, "\\u{27}"@, "'"@),
            })
        }),
{
    let root = root_dir(hash);
    let names = strings(r.file_name);
    let dirs = dir_effects(root, strings(r.dirs));
    let m = main_file(names)->0;
    let dir = package_dir(root, m);
    let binary = binary_name(id);
    let writes = write_effects(root, names, r.files);
    let stored = dirs.push(
        EffectSpec::StoreKey { db: DEV_DB, key: id, value: release_path(dir, binary) },
    ) + writes;
    let k = strings(r.dirs).len() as int;
    assert(stored[k + 1 + i] == writes[i]);
    assert(writes[i] == (EffectSpec::WriteFile {
        path: ".FaasDirectory/"@ + decimal(hash as nat) + "/"@ + names[i],
        contents: replace(file_text(r.files, names[i])->0, "\\u{27}"@, "'"@),
    })) by {
        assert(root + "/"@ + names[i] =~= ".FaasDirectory/"@ + decimal(hash as nat) + "/"@ + names[i]);
    }
    if r.lang->0 == "Rust"@ {
        let b = build_effects(binary, dir, r.prototype->0);
        assert((stored + b)[k + 1 + i] == stored[k + 1 + i]);
    }
}

} // verus!

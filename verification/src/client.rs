//! The messages a client sends to the server.
//!
//! A `create` message carries the uploaded package: its directories, its
//! file paths and each file's text. Single quotes in the file texts are sent
//! as the marker `\u{27}`, which the server's create turns back into quotes.
//! The marker is put in after the texts are quoted with `{:?}`, so in the
//! message it stands as a backslash escape that JSON does not know
//! (`\u` must be followed by four hex digits): a message whose files hold a
//! single quote is not parsed by the server, and gets no answer.

use vstd::prelude::*;
use crate::json::{write_json, written_json, Json, JsonSpec};
use crate::manage::{key_of, quote_marker, unescape_quotes, uuid_text, is_hex_lower};
use crate::text::{
    append_chars, chars_of, contains, join, lacks, lemma_join_lacks, lemma_split_pieces_lack, join_exec, lemma_join_split,
    lemma_split_cons, lemma_split_join, lemma_split_no_occ, lemma_split_nonempty,
    lemma_split_pieces_no_contains, lemma_no_char, replace, replace_exec, split, starts_unique, string_of, views,
};

verus! {

// ---------------------------------------------------------------------------
// Specifications
// ---------------------------------------------------------------------------

/// What std's `{:?}` writes for the text `s`: a quoted, escaped string literal.
pub uninterp spec fn debug_text(s: Seq<char>) -> Seq<char>;

/// The lower-case hexadecimal digit for `d < 16`.
pub open spec fn hex_digit(d: int) -> char {
    if d < 10 { crate::text::digit(d as nat) }
    else if d == 10 { 'a' }
    else if d == 11 { 'b' }
    else if d == 12 { 'c' }
    else if d == 13 { 'd' }
    else if d == 14 { 'e' }
    else { 'f' }
}

/// How a JSON string writes one character: quote, backslash and control
/// characters escaped, every other character as itself.
pub open spec fn json_char(c: char) -> Seq<char> {
    if c == '"' {
        seq!['\\', '"']
    } else if c == '\\' {
        seq!['\\', '\\']
    } else if c == '\u{8}' {
        seq!['\\', 'b']
    } else if c == '\t' {
        seq!['\\', 't']
    } else if c == '\n' {
        seq!['\\', 'n']
    } else if c == '\u{c}' {
        seq!['\\', 'f']
    } else if c == '\r' {
        seq!['\\', 'r']
    } else if (c as int) < 0x20 {
        seq!['\\', 'u', '0', '0', hex_digit((c as int) / 16), hex_digit((c as int) % 16)]
    } else {
        seq![c]
    }
}

/// The characters of `s` as written inside a JSON string.
pub open spec fn json_escape(s: Seq<char>) -> Seq<char>
    decreases s.len(),
{
    if s.len() == 0 {
        Seq::empty()
    } else {
        json_char(s[0]) + json_escape(s.drop_first())
    }
}

/// `s` as a JSON string.
pub open spec fn json_string(s: Seq<char>) -> Seq<char> {
    "\""@ + json_escape(s) + "\""@
}

/// What std's `{:?}` writes for a list of texts.
pub open spec fn debug_list(items: Seq<Seq<char>>) -> Seq<char> {
    "["@ + join(items.map_values(|t: Seq<char>| debug_text(t)), ", "@) + "]"@
}

/// A file text with each single quote sent as the quote marker.
pub open spec fn escape_quotes(t: Seq<char>) -> Seq<char> {
    replace(t, "'"@, quote_marker())
}

/// One member of the `files` object: a file's path and its text.
pub open spec fn file_entry(name: Seq<char>, text: Seq<char>) -> Seq<char> {
    " "@ + debug_text(name) + " : "@ + debug_text(text) + " "@
}

/// The package part of a `create` message: its directories, its file paths
/// and the `files` object, whose quotes are sent as markers.
pub open spec fn dirjson_text(dirs: Seq<Seq<char>>, files: Seq<Seq<char>>, texts: Seq<Seq<char>>) -> Seq<char> {
    let entries = Seq::new(files.len(), |i: int| file_entry(files[i], texts[i]));
    " "@ + "\"dirs\" : "@ + debug_list(dirs) + " , "@ + "\"file_name\" : "@ + debug_list(files)
        + " , "@ + escape_quotes("\"files\" : { "@ + join(entries, ","@) + " }"@) + " "@
}

/// The `create` message for a package in the language `lang`.
pub open spec fn create_message_text(lang: Seq<char>, prototype: Seq<char>, package: Seq<char>) -> Seq<char> {
    "{ \"msg_type\": \"MANAGE\" , \"action\": \"create\",\"lang\": "@ + debug_text(lang)
        + ", \"prototype\": "@ + debug_text(prototype) + ", "@ + package + " }"@
}

// ---------------------------------------------------------------------------
// Outside calls
// ---------------------------------------------------------------------------

/// std's `{:?}` of a `str` (`format!("{:?}", s)`). Its result is named, not
/// stated: the escaping follows Unicode tables.
#[verifier::external_body]
fn debug_quote(s: &str) -> (r: String)
    ensures
        r@ == debug_text(s@),
{
    format!("{:?}", s)
}

// ---------------------------------------------------------------------------
// Code
// ---------------------------------------------------------------------------

/// A file text with each single quote sent as the quote marker.
pub fn escape_quotes_exec(t: &str) -> (r: String)
    ensures
        r@ == escape_quotes(t@),
{
    proof {
        reveal_strlit("'");
    }
    string_of(&replace_exec(&chars_of(t), &chars_of("'"), &chars_of("\\u{27}")))
}

/// `{:?}` of a list of texts.
fn debug_list_exec(items: &Vec<String>) -> (r: Vec<char>)
    ensures
        r@ == debug_list(items@.map_values(|s: String| s@)),
{
    let ghost target = items@.map_values(|s: String| s@).map_values(|t: Seq<char>| debug_text(t));
    let mut quoted: Vec<Vec<char>> = Vec::new();
    let mut i: usize = 0;
    while i < items.len()
        invariant
            i <= items@.len(),
            target == items@.map_values(|s: String| s@).map_values(|t: Seq<char>| debug_text(t)),
            views(quoted@) == target.take(i as int),
        decreases items@.len() - i,
    {
        let q = chars_of(debug_quote(items[i].as_str()).as_str());
        let ghost before = quoted@;
        quoted.push(q);
        proof {
            assert(views(quoted@) =~= views(before).push(q@));
            assert(target.take(i + 1) =~= target.take(i as int).push(target[i as int]));
        }
        i = i + 1;
    }
    proof {
        assert(target.take(items@.len() as int) =~= target);
    }
    let mut r = chars_of("[");
    append_chars(&mut r, &join_exec(&quoted, &chars_of(", ")));
    append_chars(&mut r, &chars_of("]"));
    r
}

/// The package part of a `create` message for the walked directory: its
/// directories, its files' paths, and each file's text.
pub fn dirjson(dirs: &Vec<String>, files: &Vec<String>, texts: &Vec<String>) -> (r: String)
    requires
        files@.len() == texts@.len(),
    ensures
        r@ == dirjson_text(
            dirs@.map_values(|s: String| s@),
            files@.map_values(|s: String| s@),
            texts@.map_values(|s: String| s@),
        ),
{
    let ghost fs = files@.map_values(|s: String| s@);
    let ghost ts = texts@.map_values(|s: String| s@);
    let ghost target = Seq::new(fs.len(), |i: int| file_entry(fs[i], ts[i]));
    let mut entries: Vec<Vec<char>> = Vec::new();
    let mut i: usize = 0;
    while i < files.len()
        invariant
            i <= files@.len(),
            files@.len() == texts@.len(),
            fs == files@.map_values(|s: String| s@),
            ts == texts@.map_values(|s: String| s@),
            target == Seq::new(fs.len(), |i: int| file_entry(fs[i], ts[i])),
            views(entries@) == target.take(i as int),
        decreases files@.len() - i,
    {
        let mut e = chars_of(" ");
        append_chars(&mut e, &chars_of(debug_quote(files[i].as_str()).as_str()));
        append_chars(&mut e, &chars_of(" : "));
        append_chars(&mut e, &chars_of(debug_quote(texts[i].as_str()).as_str()));
        append_chars(&mut e, &chars_of(" "));
        let ghost before = entries@;
        entries.push(e);
        proof {
            assert(e@ =~= file_entry(fs[i as int], ts[i as int]));
            assert(views(entries@) =~= views(before).push(e@));
            assert(target.take(i + 1) =~= target.take(i as int).push(target[i as int]));
        }
        i = i + 1;
    }
    proof {
        assert(target.take(files@.len() as int) =~= target);
    }
    let mut data = chars_of("\"files\" : { ");
    append_chars(&mut data, &join_exec(&entries, &chars_of(",")));
    append_chars(&mut data, &chars_of(" }"));
    let escaped = escape_quotes_exec(string_of(&data).as_str());

    let mut r = chars_of(" ");
    append_chars(&mut r, &chars_of("\"dirs\" : "));
    append_chars(&mut r, &debug_list_exec(dirs));
    append_chars(&mut r, &chars_of(" , "));
    append_chars(&mut r, &chars_of("\"file_name\" : "));
    append_chars(&mut r, &debug_list_exec(files));
    append_chars(&mut r, &chars_of(" , "));
    append_chars(&mut r, &chars_of(escaped.as_str()));
    append_chars(&mut r, &chars_of(" "));
    string_of(&r)
}

/// The `create` message for the package text `package` (see `dirjson`).
pub fn create_message(lang: &str, prototype: &str, package: &str) -> (r: String)
    ensures
        r@ == create_message_text(lang@, prototype@, package@),
{
    let mut m = chars_of("{ \"msg_type\": \"MANAGE\" , \"action\": \"create\",\"lang\": ");
    append_chars(&mut m, &chars_of(debug_quote(lang).as_str()));
    append_chars(&mut m, &chars_of(", \"prototype\": "));
    append_chars(&mut m, &chars_of(debug_quote(prototype).as_str()));
    append_chars(&mut m, &chars_of(", "));
    append_chars(&mut m, &chars_of(package));
    append_chars(&mut m, &chars_of(" }"));
    string_of(&m)
}

/// The members of a management message about the function `id`.
pub open spec fn id_message_json(action: Seq<char>, id: Option<Seq<char>>) -> JsonSpec {
    JsonSpec::Object(
        seq![
            ("action"@, JsonSpec::Str(action)),
            ("id"@, match id {
                Some(i) => JsonSpec::Str(i),
                None => JsonSpec::Null,
            }),
            ("msg_type"@, JsonSpec::Str("MANAGE"@)),
        ],
    )
}

/// The message that asks the server to `delete` or `publish` the function
/// `id`: a JSON object written by serde_json (`null` for a missing id).
pub fn id_message(action: &str, id: Option<&str>) -> (r: String)
    ensures
        r@ == written_json(
            id_message_json(
                action@,
                match id {
                    Some(i) => Some(i@),
                    None => None,
                },
            ),
        ),
{
    let id_value = match id {
        Some(i) => Json::Str(String::from_str(i)),
        None => Json::Null,
    };
    let mut members: Vec<(String, Json)> = Vec::new();
    members.push((String::from_str("action"), Json::Str(String::from_str(action))));
    members.push((String::from_str("id"), id_value));
    members.push((String::from_str("msg_type"), Json::Str(String::from_str("MANAGE"))));
    let message = Json::Object(members);
    proof {
        assert(members@[0].1@ == JsonSpec::Str(action@));
        assert(members@[1].1@ == (match id {
            Some(i) => JsonSpec::Str(i@),
            None => JsonSpec::Null,
        }));
        assert(members@[2].1@ == JsonSpec::Str("MANAGE"@));
        assert(message@ == id_message_json(
            action@,
            match id {
                Some(i) => Some(i@),
                None => None,
            },
        )) by {
            assert(message@->Object_0 =~= id_message_json(
                action@,
                match id {
                    Some(i) => Some(i@),
                    None => None,
                },
            )->Object_0);
        }
    }
    write_json(&message)
}

/// The message of an `update`, a JSON object that names nothing but its
/// kind, written by serde_json.
pub fn update_message() -> (r: String)
    ensures
        r@ == written_json(JsonSpec::Object(seq![("msg_type"@, JsonSpec::Str("MANAGE"@))])),
{
    let mut members: Vec<(String, Json)> = Vec::new();
    members.push((String::from_str("msg_type"), Json::Str(String::from_str("MANAGE"))));
    let message = Json::Object(members);
    proof {
        assert(members@[0].1@ == JsonSpec::Str("MANAGE"@));
        assert(message@->Object_0 =~= seq![("msg_type"@, JsonSpec::Str("MANAGE"@))]);
    }
    write_json(&message)
}

// ---------------------------------------------------------------------------
// Laws
// ---------------------------------------------------------------------------

/// A text that a JSON string holds as it is: no quote, no backslash, no
/// control character.
pub open spec fn plain_text(s: Seq<char>) -> bool {
    forall|i: int| 0 <= i < s.len() ==> {
        &&& #[trigger] s[i] != '"'
        &&& s[i] != '\\'
        &&& (s[i] as int) >= 0x20
    }
}

/// A plain text is written unchanged inside a JSON string.
pub proof fn lemma_json_escape_plain(s: Seq<char>)
    requires
        plain_text(s),
    ensures
        json_escape(s) == s,
    decreases s.len(),
{
    if s.len() > 0 {
        assert(s[0] != '"' && s[0] != '\\' && (s[0] as int) >= 0x20);
        assert(plain_text(s.drop_first())) by {
            assert forall|i: int| 0 <= i < s.drop_first().len() implies {
                &&& #[trigger] s.drop_first()[i] != '"'
                &&& s.drop_first()[i] != '\\'
                &&& (s.drop_first()[i] as int) >= 0x20
            } by {
                assert(s.drop_first()[i] == s[i + 1]);
            }
        }
        lemma_json_escape_plain(s.drop_first());
        assert(seq![s[0]] + s.drop_first() =~= s);
    }
}

/// Law: the identifier that a `create` registers a function under (a random
/// UUID) is the key that `delete`, `publish` and invocations use when a client
/// sends that identifier as a JSON string.
pub proof fn law_sent_id_is_key(id: Seq<char>)
    requires
        uuid_text(id),
    ensures
        key_of(json_string(id)) == id,
{
    assert(plain_text(id)) by {
        assert forall|i: int| 0 <= i < id.len() implies {
            &&& #[trigger] id[i] != '"'
            &&& id[i] != '\\'
            &&& (id[i] as int) >= 0x20
        } by {
            if i == 8 || i == 13 || i == 18 || i == 23 {
                assert(id[i] == '-');
            } else {
                assert(is_hex_lower(id[i]));
            }
        }
    }
    law_plain_id_is_key(id);
}

/// Law: any identifier without quotes, backslashes or control characters,
/// sent as a JSON string, is received as its own database key.
pub proof fn law_plain_id_is_key(id: Seq<char>)
    requires
        plain_text(id),
    ensures
        key_of(json_string(id)) == id,
{
    reveal_strlit("\"");
    let q: Seq<char> = "\""@;
    assert(q =~= seq!['"']);
    lemma_json_escape_plain(id);
    let e: Seq<char> = Seq::empty();
    assert(json_string(id) == q + id + q);
    assert(starts_unique(q));
    lemma_no_char(e, '"');
    lemma_no_char(id, '"');
    lemma_split_cons(e, q, id + q);
    assert(e + q + (id + q) =~= q + id + q);
    lemma_split_cons(id, q, e);
    assert(id + q + e =~= id + q);
    lemma_split_no_occ(e, q);
    let ps = split(q + id + q, q);
    assert(ps =~= seq![e, id, e]);
    reveal_with_fuel(join, 3);
    assert(join(ps, e) =~= id);
}

/// Law: turning quotes into markers (the client's escaping) and markers back
/// into quotes (what a create does to each file text) gives the text back,
/// as long as the text does not itself hold the marker. This is the text
/// level only: a message that carries a marker is not valid JSON (see the
/// module's documentation), so such a text does not reach a create.
pub proof fn law_quote_round_trip(t: Seq<char>)
    requires
        !contains(t, quote_marker()),
    ensures
        unescape_quotes(escape_quotes(t)) == t,
{
    reveal_strlit("'");
    reveal_strlit("\\u{27}");
    let m = quote_marker();
    let q: Seq<char> = "'"@;
    assert(starts_unique(m));
    let ps = split(t, q);
    lemma_split_nonempty(t, q);
    lemma_split_pieces_no_contains(t, q, m);
    lemma_split_join(ps, m);
    lemma_join_split(t, q);
}

/// Law: the text that a client sends for its files holds no single quote:
/// every quote became a marker.
pub proof fn law_escaped_text_has_no_quote(t: Seq<char>)
    ensures
        lacks(escape_quotes(t), '\''),
{
    reveal_strlit("'");
    reveal_strlit("\\u{27}");
    assert("'"@ =~= seq!['\'']);
    lemma_split_pieces_lack(t, '\'');
    let m = quote_marker();
    assert(lacks(m, '\''));
    lemma_join_lacks(split(t, seq!['\'']), m, '\'');
}

/// Law: the package part of a `create` message sends each file path with the
/// text of that same file: the `i`-th member of the `files` object is
/// `files[i]` quoted, then `texts[i]` quoted, with the object's single
/// quotes sent as markers; the directories and the paths come first.
pub proof fn law_dirjson_pairs_each_file_with_its_text(
    dirs: Seq<Seq<char>>,
    files: Seq<Seq<char>>,
    texts: Seq<Seq<char>>,
)
    requires
        files.len() == texts.len(),
    ensures
        ({
            let members = Seq::new(
                files.len(),
                |i: int| " "@ + debug_text(files[i]) + " : "@ + debug_text(texts[i]) + " "@,
            );
            dirjson_text(dirs, files, texts) == " "@ + "\"dirs\" : "@ + debug_list(dirs) + " , "@
                + "\"file_name\" : "@ + debug_list(files) + " , "@ + replace(
                "\"files\" : { "@ + join(members, ","@) + " }"@,
                "'"@,
                "\\u{27}"@,
            ) + " "@
        }),
{
    let members = Seq::new(
        files.len(),
        |i: int| " "@ + debug_text(files[i]) + " : "@ + debug_text(texts[i]) + " "@,
    );
    let entries = Seq::new(files.len(), |i: int| file_entry(files[i], texts[i]));
    assert(entries =~= members);
}

} // verus!

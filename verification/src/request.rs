//! What the server reads from a client's JSON message.

use vstd::prelude::*;
use crate::client::json_string;
use crate::json::{
    as_str, as_str_array, lookup, member, str_members, write_json, written_json, Json,
    JsonSpec,
};

verus! {

/// The members of a JSON message that the server looks at. A member that is
/// missing, or not of the expected JSON type, is `None` (for a list: the list
/// is `None` when the member is not an array, and each element is `None`
/// when it is not a string).
#[derive(Debug)]
pub struct Request {
    /// `msg_type`: `MANAGE` or `INVOKE`.
    pub msg_type: Option<String>,
    /// `action` of a `MANAGE` message: `create`, `delete` or `publish`.
    pub action: Option<String>,
    /// `id`, written back as JSON text (a string keeps its quotes; `null` when missing).
    pub id: String,
    /// `lang` of a `create` action.
    pub lang: Option<String>,
    /// `prototype` of a `create` action, such as `fib(arg1:u128) -> u128`.
    pub prototype: Option<String>,
    /// `file_name`: the paths of the uploaded files.
    pub file_name: Option<Vec<Option<String>>>,
    /// `dirs`: the directories of the uploaded package.
    pub dirs: Option<Vec<Option<String>>>,
    /// `files`: each member's name with its value when that is a string.
    pub files: Vec<(String, Option<String>)>,
    /// `params` of an `INVOKE` message: the arguments of the call.
    pub params: Option<Vec<Option<String>>>,
}

/// A request with its texts seen as character sequences.
pub struct RequestSpec {
    pub msg_type: Option<Seq<char>>,
    pub action: Option<Seq<char>>,
    pub id: Seq<char>,
    pub lang: Option<Seq<char>>,
    pub prototype: Option<Seq<char>>,
    pub file_name: Option<Seq<Option<Seq<char>>>>,
    pub dirs: Option<Seq<Option<Seq<char>>>>,
    pub files: Seq<(Seq<char>, Option<Seq<char>>)>,
    pub params: Option<Seq<Option<Seq<char>>>>,
}

/// The characters of an optional string.
pub open spec fn opt_view(o: Option<String>) -> Option<Seq<char>> {
    match o {
        Some(s) => Some(s@),
        None => None,
    }
}

/// The characters of a list of optional strings.
pub open spec fn opt_views(v: Seq<Option<String>>) -> Seq<Option<Seq<char>>> {
    v.map_values(|e: Option<String>| opt_view(e))
}

/// The characters of an optional list of optional strings.
pub open spec fn list_view(o: Option<Vec<Option<String>>>) -> Option<Seq<Option<Seq<char>>>> {
    match o {
        Some(v) => Some(opt_views(v@)),
        None => None,
    }
}

impl View for Request {
    type V = RequestSpec;

    open spec fn view(&self) -> RequestSpec {
        RequestSpec {
            msg_type: opt_view(self.msg_type),
            action: opt_view(self.action),
            id: self.id@,
            lang: opt_view(self.lang),
            prototype: opt_view(self.prototype),
            file_name: list_view(self.file_name),
            dirs: list_view(self.dirs),
            files: self.files@.map_values(|m: (String, Option<String>)| (m.0@, opt_view(m.1))),
            params: list_view(self.params),
        }
    }
}

/// The list is present and every element is a string.
pub open spec fn all_strings(o: Option<Seq<Option<Seq<char>>>>) -> bool {
    match o {
        Some(v) => forall|i: int| 0 <= i < v.len() ==> (#[trigger] v[i]) is Some,
        None => false,
    }
}

/// The strings of a list whose elements are all strings.
pub open spec fn strings(o: Option<Seq<Option<Seq<char>>>>) -> Seq<Seq<char>> {
    match o {
        Some(v) => v.map_values(|e: Option<Seq<char>>| e->0),
        None => Seq::empty(),
    }
}

/// The text of the member `name` of `files` (the first one of that name),
/// when it is a string.
pub open spec fn file_text(files: Seq<(Seq<char>, Option<Seq<char>>)>, name: Seq<char>) -> Option<Seq<char>>
    decreases files.len(),
{
    if files.len() == 0 {
        None
    } else if files[0].0 == name {
        files[0].1
    } else {
        file_text(files.drop_first(), name)
    }
}

/// Whether every element of the list is a string.
pub fn all_strings_exec(o: &Option<Vec<Option<String>>>) -> (b: bool)
    ensures
        b == all_strings(list_view(*o)),
{
    match o {
        None => false,
        Some(v) => {
            let mut i: usize = 0;
            while i < v.len()
                invariant
                    i <= v@.len(),
                    list_view(*o) == Some(opt_views(v@)),
                    forall|k: int| 0 <= k < i ==> (#[trigger] opt_views(v@)[k]) is Some,
                decreases v@.len() - i,
            {
                if v[i].is_none() {
                    proof {
                        assert(opt_views(v@)[i as int] is None);
                    }
                    return false;
                }
                proof {
                    assert(opt_views(v@)[i as int] is Some);
                }
                i = i + 1;
            }
            true
        },
    }
}

/// The JSON text of an id as serde_json writes it: a string in quotes with
/// its escapes, `null`, or (for another value) its written form.
pub open spec fn id_text(v: JsonSpec) -> Seq<char> {
    match v {
        JsonSpec::Str(s) => json_string(s),
        JsonSpec::Null => "null"@,
        _ => written_json(v),
    }
}

/// What the server reads from a parsed message: each member by name, read as
/// a string, a list of strings or an object of strings; the id written back as
/// JSON text.
pub open spec fn request_from(j: JsonSpec) -> RequestSpec {
    RequestSpec {
        msg_type: as_str(member(j, "msg_type"@)),
        action: as_str(member(j, "action"@)),
        id: id_text(member(j, "id"@)),
        lang: as_str(member(j, "lang"@)),
        prototype: as_str(member(j, "prototype"@)),
        file_name: as_str_array(member(j, "file_name"@)),
        dirs: as_str_array(member(j, "dirs"@)),
        files: str_members(member(j, "files"@)),
        params: as_str_array(member(j, "params"@)),
    }
}

/// The member `key` of a value (`None` stands for `null`: no such member).
fn member_of<'a>(j: &'a Json, key: &str) -> (r: Option<&'a Json>)
    ensures
        match r {
            Some(x) => member(j@, key@) == x@,
            None => member(j@, key@) is Null,
        },
{
    match j {
        Json::Object(m) => {
            let ghost ms = match j@ {
                JsonSpec::Object(ms) => ms,
                _ => Seq::empty(),
            };
            let name = String::from_str(key);
            let mut k: usize = 0;
            proof {
                assert(ms.skip(0) =~= ms);
            }
            while k < m.len()
                invariant
                    k <= m@.len(),
                    ms.len() == m@.len(),
                    member(j@, key@) == lookup(ms, key@),
                    name@ == key@,
                    forall|i: int| 0 <= i < ms.len() ==> #[trigger] ms[i] == (m@[i].0@, m@[i].1@),
                    lookup(ms, key@) == lookup(ms.skip(k as int), key@),
                decreases m@.len() - k,
            {
                proof {
                    assert(ms.skip(k as int)[0] == ms[k as int]);
                    assert(ms.skip(k as int).drop_first() =~= ms.skip(k + 1));
                }
                if m[k].0 == name {
                    return Some(&m[k].1);
                }
                k = k + 1;
            }
            None
        },
        _ => None,
    }
}

/// A value read as a string.
fn str_of(x: Option<&Json>) -> (r: Option<String>)
    ensures
        opt_view(r) == as_str(match x {
            Some(v) => v@,
            None => JsonSpec::Null,
        }),
{
    match x {
        Some(Json::Str(s)) => Some(s.clone()),
        _ => None,
    }
}

/// A value read as a list of strings.
fn str_list_of(x: Option<&Json>) -> (r: Option<Vec<Option<String>>>)
    ensures
        list_view(r) == as_str_array(match x {
            Some(v) => v@,
            None => JsonSpec::Null,
        }),
{
    match x {
        Some(Json::Array(a)) => {
            let ghost target = as_str_array(x.unwrap()@)->0;
            let mut out: Vec<Option<String>> = Vec::new();
            let mut i: usize = 0;
            while i < a.len()
                invariant
                    i <= a@.len(),
                    target.len() == a@.len(),
                    forall|k: int| 0 <= k < a@.len() ==> #[trigger] target[k] == as_str(a@[k]@),
                    opt_views(out@) == target.take(i as int),
                decreases a@.len() - i,
            {
                let e = str_of(Some(&a[i]));
                let ghost before = out@;
                out.push(e);
                proof {
                    assert(opt_views(out@) =~= opt_views(before).push(opt_view(e)));
                    assert(target.take(i + 1) =~= target.take(i as int).push(target[i as int]));
                }
                i = i + 1;
            }
            proof {
                assert(target.take(a@.len() as int) =~= target);
            }
            Some(out)
        },
        _ => None,
    }
}

/// The members of an object, each read as a string.
fn str_members_of(x: Option<&Json>) -> (r: Vec<(String, Option<String>)>)
    ensures
        r@.map_values(|m: (String, Option<String>)| (m.0@, opt_view(m.1))) == str_members(match x {
            Some(v) => v@,
            None => JsonSpec::Null,
        }),
{
    match x {
        Some(Json::Object(m)) => {
            let ghost target = str_members(x.unwrap()@);
            let mut out: Vec<(String, Option<String>)> = Vec::new();
            let mut i: usize = 0;
            while i < m.len()
                invariant
                    i <= m@.len(),
                    target.len() == m@.len(),
                    forall|k: int| 0 <= k < m@.len() ==> #[trigger] target[k] == (m@[k].0@, as_str(m@[k].1@)),
                    out@.map_values(|e: (String, Option<String>)| (e.0@, opt_view(e.1))) == target.take(i as int),
                decreases m@.len() - i,
            {
                let e = (m[i].0.clone(), str_of(Some(&m[i].1)));
                let ghost before = out@;
                out.push(e);
                proof {
                    assert(out@.map_values(|e: (String, Option<String>)| (e.0@, opt_view(e.1))) =~= before.map_values(|e: (String, Option<String>)| (e.0@, opt_view(e.1))).push((e.0@, opt_view(e.1))));
                    assert(target.take(i + 1) =~= target.take(i as int).push(target[i as int]));
                }
                i = i + 1;
            }
            proof {
                assert(target.take(m@.len() as int) =~= target);
            }
            out
        },
        _ => {
            proof {
                assert(Seq::<(String, Option<String>)>::empty().map_values(|e: (String, Option<String>)| (e.0@, opt_view(e.1))) =~= Seq::<(Seq<char>, Option<Seq<char>>)>::empty());
            }
            Vec::new()
        },
    }
}

/// What the server reads from a parsed message.
pub fn request_of(j: &Json) -> (r: Request)
    ensures
        r@ == request_from(j@),
{
    let id = match member_of(j, "id") {
        Some(x) => write_json(x),
        None => write_json(&Json::Null),
    };
    Request {
        msg_type: str_of(member_of(j, "msg_type")),
        action: str_of(member_of(j, "action")),
        id,
        lang: str_of(member_of(j, "lang")),
        prototype: str_of(member_of(j, "prototype")),
        file_name: str_list_of(member_of(j, "file_name")),
        dirs: str_list_of(member_of(j, "dirs")),
        files: str_members_of(member_of(j, "files")),
        params: str_list_of(member_of(j, "params")),
    }
}

} // verus!

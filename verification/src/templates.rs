//! The driver that turns an uploaded Rust function into a runnable program.
//!
//! A function is described by its prototype, such as `fib(arg1:u128) -> u128`.
//! The driver's `main` parses each command-line argument into the declared
//! parameter type, calls the function and prints its result after the marker
//! `FaaSRESULT:`. It is appended to the uploaded `src/main.rs`, then cargo
//! initialises and builds the package.

use vstd::prelude::*;
use crate::effect::{effects_view, strings_view, Effect, EffectSpec};
use crate::text::{
    append_chars, chars_of, lemma_split_nonempty, lacks, lemma_first_piece, lemma_no_char,
    lemma_split_cons, starts_unique, contains, lemma_first_piece_inside, lemma_occurs_contains,
    lemma_split_no_occ, decimal, decimal_exec, join, join_exec, split, split_exec,
    string_of, trim, trim_exec, views,
};

verus! {

/// The text of a prototype before its first `(`, trimmed: the function's name.
pub open spec fn proto_name(p: Seq<char>) -> Seq<char> {
    trim(split(p, "("@)[0])
}

/// The parameter declarations of a prototype: the text between its first `(`
/// and the following `)` (or the next `(`), cut at each `,`.
pub open spec fn proto_args(p: Seq<char>) -> Seq<Seq<char>> {
    split(split(split(p, "("@)[1], ")"@)[0], ","@)
}

/// The type of a parameter declaration `name: type`, trimmed.
pub open spec fn arg_type(a: Seq<char>) -> Seq<char> {
    trim(split(a, ":"@)[1])
}

/// A prototype that the driver generator can read: it has a `(` and every
/// parameter declaration has a `:`.
pub open spec fn prototype_ok(p: Seq<char>) -> bool {
    &&& split(p, "("@).len() >= 2
    &&& forall|i: int| 0 <= i < proto_args(p).len() ==> split(#[trigger] proto_args(p)[i], ":"@).len() >= 2
}

/// The expression that yields the `n`-th command-line argument as a value of
/// type `ty`, for the types that the driver supports.
pub open spec fn param_expr(ty: Seq<char>, n: nat) -> Option<Seq<char>> {
    let k = decimal(n);
    if ty == "&u128"@ {
        Some("&args["@ + k + "].parse::<u128>().unwrap()"@)
    } else if ty == "u128"@ {
        Some("args["@ + k + "].parse::<u128>().unwrap()"@)
    } else if ty == "&u64"@ {
        Some("&args["@ + k + "].parse::<u64>().unwrap()"@)
    } else if ty == "u64"@ {
        Some("args["@ + k + "].parse::<u64>().unwrap()"@)
    } else if ty == "&u32"@ {
        Some("&args["@ + k + "].parse::<u32>().unwrap()"@)
    } else if ty == "u32"@ {
        Some("args["@ + k + "].parse::<u32>().unwrap()"@)
    } else if ty == "String"@ {
        Some("args["@ + k + "]"@)
    } else if ty == "&String"@ {
        Some("&args["@ + k + "]"@)
    } else {
        None
    }
}

/// Every parameter has a supported type.
pub open spec fn all_supported(args: Seq<Seq<char>>) -> bool {
    forall|i: int| 0 <= i < args.len() ==> (#[trigger] param_expr(arg_type(args[i]), (i + 1) as nat)) is Some
}

/// The argument expressions of the call, the `i`-th reading argument `i + 1`.
pub open spec fn param_exprs(args: Seq<Seq<char>>) -> Seq<Seq<char>> {
    Seq::new(args.len(), |i: int| param_expr(arg_type(args[i]), (i + 1) as nat)->0)
}

/// The driver's text before the function's name.
pub open spec fn driver_head() -> Seq<char> {
    "\nfn main() {\n    use std::env;\n    \n    enum faastype{\n        int(u32),\n        string(String)\n    }\n    \n    let args: Vec<String> = env::args().collect();\n    let result = "@
}

/// The driver's text after the call's arguments.
pub open spec fn driver_tail() -> Seq<char> {
    ");\n    println!(\"FaaSRESULT:{:?}\",result);\n}\n"@
}

/// The driver program that calls `name` with `params`.
pub open spec fn driver_source(name: Seq<char>, params: Seq<char>) -> Seq<char> {
    driver_head() + name + "("@ + params + driver_tail()
}

/// What building the function `prototype` in `path` as `binary` takes: append
/// the driver to `path/src/main.rs`, `cargo init --name=binary`, then
/// `cargo build --release`, both in `path`. Nothing when a parameter type is
/// not supported.
pub open spec fn build_effects(binary: Seq<char>, path: Seq<char>, prototype: Seq<char>) -> Seq<EffectSpec> {
    let args = proto_args(prototype);
    if all_supported(args) {
        seq![
            EffectSpec::AppendFile {
                path: path + "/src/main.rs"@,
                contents: driver_source(proto_name(prototype), join(param_exprs(args), ","@)),
            },
            EffectSpec::Cargo { dir: path, args: seq!["init"@, "--name="@ + binary] },
            EffectSpec::Cargo { dir: path, args: seq!["build"@, "--release"@] },
        ]
    } else {
        Seq::empty()
    }
}

/// Whether two character sequences are equal.
pub fn same_chars(a: &Vec<char>, b: &Vec<char>) -> (r: bool)
    ensures
        r == (a@ == b@),
{
    if a.len() != b.len() {
        return false;
    }
    let mut i: usize = 0;
    while i < a.len()
        invariant
            a@.len() == b@.len(),
            i <= a@.len(),
            forall|k: int| 0 <= k < i ==> a@[k] == b@[k],
        decreases a@.len() - i,
    {
        if a[i] != b[i] {
            return false;
        }
        i = i + 1;
    }
    proof {
        assert(a@ =~= b@);
    }
    true
}

/// `head + middle + tail` as characters.
fn around(head: &str, middle: &Vec<char>, tail: &str) -> (r: Vec<char>)
    ensures
        r@ == head@ + middle@ + tail@,
{
    let mut r = chars_of(head);
    append_chars(&mut r, middle);
    append_chars(&mut r, &chars_of(tail));
    r
}

/// The expression for the `n`-th argument as type `ty`, if `ty` is supported.
pub fn param_expr_exec(ty: &Vec<char>, n: u64) -> (r: Option<Vec<char>>)
    ensures
        match r {
            Some(e) => param_expr(ty@, n as nat) == Some(e@),
            None => param_expr(ty@, n as nat) is None,
        },
{
    let k = decimal_exec(n);
    if same_chars(ty, &chars_of("&u128")) {
        Some(around("&args[", &k, "].parse::<u128>().unwrap()"))
    } else if same_chars(ty, &chars_of("u128")) {
        Some(around("args[", &k, "].parse::<u128>().unwrap()"))
    } else if same_chars(ty, &chars_of("&u64")) {
        Some(around("&args[", &k, "].parse::<u64>().unwrap()"))
    } else if same_chars(ty, &chars_of("u64")) {
        Some(around("args[", &k, "].parse::<u64>().unwrap()"))
    } else if same_chars(ty, &chars_of("&u32")) {
        Some(around("&args[", &k, "].parse::<u32>().unwrap()"))
    } else if same_chars(ty, &chars_of("u32")) {
        Some(around("args[", &k, "].parse::<u32>().unwrap()"))
    } else if same_chars(ty, &chars_of("String")) {
        Some(around("args[", &k, "]"))
    } else if same_chars(ty, &chars_of("&String")) {
        Some(around("&args[", &k, "]"))
    } else {
        None
    }
}

/// Whether the prototype can be read by `rust_temp`.
pub fn prototype_ok_exec(prototype: &str) -> (b: bool)
    ensures
        b == prototype_ok(prototype@),
{
    let p = chars_of(prototype);
    proof {
        reveal_strlit("(");
        reveal_strlit(")");
        reveal_strlit(",");
        reveal_strlit(":");
    }
    let open_parts = split_exec(&p, &chars_of("("));
    if open_parts.len() < 2 {
        return false;
    }
    proof {
        lemma_split_nonempty(views(open_parts@)[1], ")"@);
    }
    let inner = split_exec(&open_parts[1], &chars_of(")"));
    let args = split_exec(&inner[0], &chars_of(","));
    let mut i: usize = 0;
    while i < args.len()
        invariant
            i <= args@.len(),
            views(args@) == proto_args(p@),
            p@ == prototype@,
            split(p@, "("@).len() >= 2,
            forall|k: int| 0 <= k < i ==> split(#[trigger] proto_args(p@)[k], ":"@).len() >= 2,
        decreases args@.len() - i,
    {
        proof {
            reveal_strlit(":");
            assert(views(args@)[i as int] == args@[i as int]@);
        }
        let pieces = split_exec(&args[i], &chars_of(":"));
        if pieces.len() < 2 {
            return false;
        }
        i = i + 1;
    }
    true
}

/// What it takes to turn the uploaded function `prototype` in the package at
/// `path` into the program `binaryname`: the driver appended to its
/// `src/main.rs`, then `cargo init` and `cargo build --release` in `path`.
/// Nothing is done when a parameter has a type the driver cannot parse.
pub fn rust_temp(binaryname: String, path: String, prototype: String) -> (effects: Vec<Effect>)
    requires
        prototype_ok(prototype@),
    ensures
        effects_view(effects@) == build_effects(binaryname@, path@, prototype@),
{
    let p = chars_of(prototype.as_str());
    proof {
        reveal_strlit("(");
        reveal_strlit(")");
        reveal_strlit(",");
        reveal_strlit(":");
    }
    let open_parts = split_exec(&p, &chars_of("("));
    proof {
        lemma_split_nonempty(views(open_parts@)[1], ")"@);
    }
    let funcname = trim_exec(&open_parts[0]);
    let inner = split_exec(&open_parts[1], &chars_of(")"));
    let args = split_exec(&inner[0], &chars_of(","));
    let ghost a = proto_args(p@);

    let mut pvec: Vec<Vec<char>> = Vec::new();
    let mut i: usize = 0;
    while i < args.len()
        invariant
            i <= args@.len(),
            views(args@) == a,
            a == proto_args(prototype@),
            prototype_ok(prototype@),
            pvec@.len() == i,
            forall|k: int| 0 <= k < i ==> param_expr(arg_type(a[k]), (k + 1) as nat) == Some(#[trigger] views(pvec@)[k]),
        decreases args@.len() - i,
    {
        proof {
            reveal_strlit(":");
            assert(split(a[i as int], ":"@).len() >= 2);
            assert(views(args@)[i as int] == args@[i as int]@);
        }
        let pieces = split_exec(&args[i], &chars_of(":"));
        let ty = trim_exec(&pieces[1]);
        let n: u64 = i as u64 + 1;
        proof {
            assert(views(pieces@)[1] == pieces@[1]@);
            assert(ty@ == arg_type(a[i as int]));
        }
        match param_expr_exec(&ty, n) {
            Some(e) => {
                let ghost old_pvec = pvec;
                pvec.push(e);
                proof {
                    assert forall|k: int| 0 <= k < i + 1 implies param_expr(arg_type(a[k]), (k + 1) as nat) == Some(#[trigger] views(pvec@)[k]) by {
                        assert(views(pvec@)[k] == pvec@[k]@);
                        if k < i {
                            assert(views(old_pvec@)[k] == old_pvec@[k]@);
                        }
                    }
                }
            },
            None => {
                proof {
                    assert(param_expr(arg_type(a[i as int]), (i + 1) as nat) is None);
                    assert(!all_supported(a));
                }
                return Vec::new();
            },
        }
        i = i + 1;
    }
    proof {
        assert forall|k: int| 0 <= k < a.len() implies (#[trigger] param_expr(arg_type(a[k]), (k + 1) as nat)) is Some by {
            assert(param_expr(arg_type(a[k]), (k + 1) as nat) == Some(views(pvec@)[k]));
        }
        assert(all_supported(a));
        assert forall|k: int| 0 <= k < a.len() implies #[trigger] views(pvec@)[k] == param_exprs(a)[k] by {
            assert(param_expr(arg_type(a[k]), (k + 1) as nat) == Some(views(pvec@)[k]));
        }
        assert(views(pvec@) =~= param_exprs(a));
    }
    let params = join_exec(&pvec, &chars_of(","));
    let mut driver = chars_of("\nfn main() {\n    use std::env;\n    \n    enum faastype{\n        int(u32),\n        string(String)\n    }\n    \n    let args: Vec<String> = env::args().collect();\n    let result = ");
    append_chars(&mut driver, &funcname);
    append_chars(&mut driver, &chars_of("("));
    append_chars(&mut driver, &params);
    append_chars(&mut driver, &chars_of(");\n    println!(\"FaaSRESULT:{:?}\",result);\n}\n"));

    let main_file = path.clone().concat("/src/main.rs");
    let mut init_args: Vec<String> = Vec::new();
    init_args.push(String::from_str("init"));
    init_args.push(String::from_str("--name=").concat(binaryname.as_str()));
    let mut build_args: Vec<String> = Vec::new();
    build_args.push(String::from_str("build"));
    build_args.push(String::from_str("--release"));

    let mut effects: Vec<Effect> = Vec::new();
    effects.push(Effect::AppendFile { path: main_file, contents: string_of(&driver) });
    effects.push(Effect::Cargo { dir: path.clone(), args: init_args });
    effects.push(Effect::Cargo { dir: path, args: build_args });
    proof {
        assert(strings_view(init_args@) =~= seq!["init"@, "--name="@ + binaryname@]);
        assert(strings_view(build_args@) =~= seq!["build"@, "--release"@]);
        assert(effects_view(effects@) =~= build_effects(binaryname@, path@, prototype@));
    }
    effects
}

/// The name and the parameters of a prototype `head(args)tail`, whatever the
/// tail: the parameters are read up to a second `(`, if `args` holds one.
proof fn lemma_prototype_parts(head: Seq<char>, args: Seq<char>, tail: Seq<char>)
    requires
        lacks(head, '('),
        lacks(args, ')'),
    ensures
        ({
            let p = head + "("@ + args + ")"@ + tail;
            &&& split(p, "("@).len() >= 2
            &&& proto_name(p) == trim(head)
            &&& proto_args(p) == split(split(args, "("@)[0], ","@)
        }),
{
    reveal_strlit("(");
    reveal_strlit(")");
    let open = seq!['('];
    let close = seq![')'];
    assert("("@ =~= open);
    assert(")"@ =~= close);
    let p = head + open + args + close + tail;
    assert(starts_unique(open));
    assert(starts_unique(close));
    lemma_no_char(head, '(');
    lemma_split_cons(head, open, args + close + tail);
    assert(head + open + (args + close + tail) =~= p);
    lemma_split_nonempty(args + close + tail, open);
    let piece = split(args + close + tail, open)[0];
    assert(split(p, open)[1] == piece);
    if contains(args, open) {
        lemma_first_piece_inside(args, close + tail, '(');
        assert(args + (close + tail) =~= args + close + tail);
        let a0 = split(args, open)[0];
        assert(piece == a0);
        crate::text::lemma_find_from_bounds(args, open, 0);
        assert(lacks(a0, ')')) by {
            assert forall|k: int| 0 <= k < a0.len() implies #[trigger] a0[k] != ')' by {
                assert(a0[k] == args[k]);
            }
        }
        lemma_no_char(a0, ')');
        lemma_split_no_occ(a0, close);
    } else {
        assert(lacks(args, '(')) by {
            assert forall|k: int| 0 <= k < args.len() implies #[trigger] args[k] != '(' by {
                if args[k] == '(' {
                    assert(args.subrange(k, k + 1) =~= open);
                    lemma_occurs_contains(args, open, k);
                }
            }
        }
        lemma_split_no_occ(args, open);
        lemma_first_piece(args, close + tail, '(');
        assert(args + (close + tail) =~= args + close + tail);
        assert(lacks(close, '('));
        lemma_first_piece(close, tail, '(');
        let t = split(tail, open)[0];
        assert(piece =~= args + close + t);
        lemma_no_char(args, ')');
        lemma_split_cons(args, close, t);
    }
}

/// Law: the driver depends on the prototype only up to the first `)` after
/// its first `(`: two prototypes that differ only after it (in the return
/// type, say) are read alike and build alike.
pub proof fn law_return_type_ignored(
    binary: Seq<char>,
    path: Seq<char>,
    head: Seq<char>,
    args: Seq<char>,
    tail1: Seq<char>,
    tail2: Seq<char>,
)
    requires
        lacks(head, '('),
        lacks(args, ')'),
    ensures
        ({
            let p1 = head + "("@ + args + ")"@ + tail1;
            let p2 = head + "("@ + args + ")"@ + tail2;
            &&& prototype_ok(p1) == prototype_ok(p2)
            &&& build_effects(binary, path, p1) == build_effects(binary, path, p2)
        }),
{
    lemma_prototype_parts(head, args, tail1);
    lemma_prototype_parts(head, args, tail2);
}

/// Law: an integer parameter of type `t` (`u128`, `u64` or `u32`) is read by
/// parsing its command-line argument into `t` itself; a reference parameter
/// `&t` borrows that same value.
pub proof fn law_integer_param_parses_its_type(t: Seq<char>, n: nat)
    requires
        t == "u128"@ || t == "u64"@ || t == "u32"@,
    ensures
        param_expr(t, n) == Some("args["@ + decimal(n) + "].parse::<"@ + t + ">().unwrap()"@),
        param_expr("&"@ + t, n) == Some("&"@ + param_expr(t, n)->0),
{
    reveal_strlit("u128");
    reveal_strlit("u64");
    reveal_strlit("u32");
    reveal_strlit("&u128");
    reveal_strlit("&u64");
    reveal_strlit("&u32");
    reveal_strlit("&");
    reveal_strlit("args[");
    reveal_strlit("&args[");
    reveal_strlit("].parse::<");
    reveal_strlit(">().unwrap()");
    reveal_strlit("].parse::<u128>().unwrap()");
    reveal_strlit("].parse::<u64>().unwrap()");
    reveal_strlit("].parse::<u32>().unwrap()");
    let k = decimal(n);
    assert("&args["@ =~= "&"@ + "args["@);
    if t == "u128"@ {
        assert("&"@ + t =~= "&u128"@);
        assert("].parse::<u128>().unwrap()"@ =~= "].parse::<"@ + t + ">().unwrap()"@);
        assert("&args["@ + k + "].parse::<u128>().unwrap()"@ =~= "&"@ + ("args["@ + k + "].parse::<u128>().unwrap()"@));
    } else if t == "u64"@ {
        assert("&"@ + t =~= "&u64"@);
        assert("u64"@ != "&u128"@);
        assert("u64"@ != "u128"@);
        assert("&u64"@ != "&u128"@);
        assert("&u64"@[0] != "u128"@[0]);
        assert("].parse::<u64>().unwrap()"@ =~= "].parse::<"@ + t + ">().unwrap()"@);
        assert("&args["@ + k + "].parse::<u64>().unwrap()"@ =~= "&"@ + ("args["@ + k + "].parse::<u64>().unwrap()"@));
    } else {
        assert("&"@ + t =~= "&u32"@);
        assert("u32"@ != "&u128"@);
        assert("u32"@ != "u128"@);
        assert("u32"@ != "&u64"@);
        assert("u32"@ != "u64"@);
        assert("&u32"@ != "&u128"@);
        assert("&u32"@[0] != "u128"@[0]);
        assert("&u32"@[2] != "&u64"@[2]);
        assert("&u32"@ != "u64"@);
        assert("&u32"@ != "u32"@);
        assert("].parse::<u32>().unwrap()"@ =~= "].parse::<"@ + t + ">().unwrap()"@);
        assert("&args["@ + k + "].parse::<u32>().unwrap()"@ =~= "&"@ + ("args["@ + k + "].parse::<u32>().unwrap()"@));
    }
}

/// Law: a `String` parameter takes its command-line argument as it is, and a
/// `&String` parameter borrows it.
pub proof fn law_string_param_takes_argument(n: nat)
    ensures
        param_expr("String"@, n) == Some("args["@ + decimal(n) + "]"@),
        param_expr("&String"@, n) == Some("&"@ + param_expr("String"@, n)->0),
{
    reveal_strlit("u128");
    reveal_strlit("u64");
    reveal_strlit("u32");
    reveal_strlit("&u128");
    reveal_strlit("&u64");
    reveal_strlit("&u32");
    reveal_strlit("String");
    reveal_strlit("&String");
    reveal_strlit("&");
    reveal_strlit("args[");
    reveal_strlit("&args[");
    let k = decimal(n);
    assert("String"@[0] != "&u128"@[0]);
    assert("String"@[0] != "u128"@[0]);
    assert("String"@[0] != "&u64"@[0]);
    assert("String"@[0] != "u64"@[0]);
    assert("String"@[0] != "&u32"@[0]);
    assert("String"@[0] != "u32"@[0]);
    assert("&String"@[1] != "&u128"@[1]);
    assert("&String"@[0] != "u128"@[0]);
    assert("&String"@[1] != "&u64"@[1]);
    assert("&String"@[0] != "u64"@[0]);
    assert("&String"@[1] != "&u32"@[1]);
    assert("&String"@[0] != "u32"@[0]);
    assert("&String"@[0] != "String"@[0]);
    assert("&args["@ + k + "]"@ =~= "&"@ + ("args["@ + k + "]"@));
}

} // verus!

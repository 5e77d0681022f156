use rsless::text::{
    chars_of, decimal_exec, join_exec, replace_exec, split_exec, string_of, trim_end_matches_exec,
    trim_exec,
};

fn cs(s: &str) -> Vec<char> {
    chars_of(s)
}

fn st(v: &[char]) -> String {
    string_of(v)
}

#[test]
fn chars_round_trip() {
    assert_eq!(st(&cs("héllo, wörld")), "héllo, wörld");
    assert_eq!(st(&cs("")), "");
}

#[test]
fn split_matches_std() {
    for (s, sep) in [("a,b,,c", ","), ("", ","), ("abc", ","), ("x--y--", "--"), ("---", "--")] {
        let got: Vec<String> = split_exec(&cs(s), &cs(sep)).iter().map(|p| st(p)).collect();
        let want: Vec<String> = s.split(sep).map(|p| p.to_string()).collect();
        assert_eq!(got, want, "split {:?} by {:?}", s, sep);
    }
}

#[test]
fn join_matches_std() {
    let parts = vec![cs("a"), cs(""), cs("bc")];
    assert_eq!(st(&join_exec(&parts, &cs(", "))), "a, , bc");
    assert_eq!(st(&join_exec(&Vec::new(), &cs(","))), "");
}

#[test]
fn replace_matches_std() {
    for (s, from, to) in [
        ("it's Bob's", "'", "\\u{27}"),
        ("a\\u{27}b\\u{27}", "\\u{27}", "'"),
        ("aaa", "aa", "b"),
        ("\"id\"", "\"", ""),
        ("none here", "'", "x"),
    ] {
        assert_eq!(st(&replace_exec(&cs(s), &cs(from), &cs(to))), s.replace(from, to));
    }
}

#[test]
fn trim_matches_std() {
    for s in ["  fib ", "\t\n x y \r\n", "", "   ", "\u{3000}a\u{85}", "u128"] {
        assert_eq!(st(&trim_exec(&cs(s))), s.trim());
    }
}

#[test]
fn trim_end_matches_removes_every_copy() {
    for (s, pat) in [
        ("pkg/src/main.rs", "/src/main.rs"),
        ("pkg/src/main.rs/src/main.rs", "/src/main.rs"),
        ("src/main.rs", "/src/main.rs"),
        ("abab", "ab"),
    ] {
        assert_eq!(st(&trim_end_matches_exec(&cs(s), &cs(pat))), s.trim_end_matches(pat));
    }
}

#[test]
fn decimal_matches_display() {
    for n in [0u64, 7, 10, 42, 1234567890, u64::MAX] {
        assert_eq!(st(&decimal_exec(n)), n.to_string());
    }
}

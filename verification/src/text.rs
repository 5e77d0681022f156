//! Character-level text operations with their mathematical meaning.
//!
//! Every operation works on the characters of a string (`Seq<char>` in
//! contracts, `Vec<char>` in code) and is specified by an open spec function.

use vstd::prelude::*;

verus! {

// ---------------------------------------------------------------------------
// Specifications
// ---------------------------------------------------------------------------

/// `pat` occurs in `s` starting at index `i`.
pub open spec fn occurs_at(s: Seq<char>, pat: Seq<char>, i: int) -> bool {
    &&& 0 <= i
    &&& i + pat.len() <= s.len()
    &&& s.subrange(i, i + pat.len()) == pat
}

/// Index of the first occurrence of the non-empty pattern `pat` in `s` at or
/// after index `i`, if any.
pub open spec fn find_from(s: Seq<char>, pat: Seq<char>, i: int) -> Option<int>
    decreases s.len() - i,
{
    if i < 0 || pat.len() == 0 || i + pat.len() > s.len() {
        None
    } else if occurs_at(s, pat, i) {
        Some(i)
    } else {
        find_from(s, pat, i + 1)
    }
}

/// `s` holds `pat` somewhere.
pub open spec fn contains(s: Seq<char>, pat: Seq<char>) -> bool {
    find_from(s, pat, 0) is Some
}

/// The pieces of `s` between the occurrences of the non-empty separator `sep`,
/// found from left to right without overlap (the meaning of `str::split`).
pub open spec fn split(s: Seq<char>, sep: Seq<char>) -> Seq<Seq<char>>
    decreases s.len(),
{
    match find_from(s, sep, 0) {
        Some(i) => {
            proof {
                lemma_find_from_bounds(s, sep, 0);
            }
            seq![s.take(i)] + split(s.skip(i + sep.len()), sep)
        },
        None => seq![s],
    }
}

/// The pieces joined with `sep` between neighbours.
pub open spec fn join(ps: Seq<Seq<char>>, sep: Seq<char>) -> Seq<char>
    decreases ps.len(),
{
    if ps.len() == 0 {
        Seq::empty()
    } else if ps.len() == 1 {
        ps[0]
    } else {
        ps[0] + sep + join(ps.drop_first(), sep)
    }
}

/// Every non-overlapping occurrence of `from` (leftmost first) replaced by `to`
/// (the meaning of `str::replace`).
pub open spec fn replace(s: Seq<char>, from: Seq<char>, to: Seq<char>) -> Seq<char> {
    join(split(s, from), to)
}

/// `s` ends with `suffix`.
pub open spec fn ends_with(s: Seq<char>, suffix: Seq<char>) -> bool {
    suffix.len() <= s.len() && s.skip(s.len() - suffix.len()) == suffix
}

/// `s` with every trailing copy of the non-empty `pat` removed, repeatedly
/// (the meaning of `str::trim_end_matches`).
pub open spec fn trim_end_matches(s: Seq<char>, pat: Seq<char>) -> Seq<char>
    decreases s.len(),
{
    if pat.len() > 0 && ends_with(s, pat) {
        trim_end_matches(s.take(s.len() - pat.len()), pat)
    } else {
        s
    }
}

/// Characters with the Unicode `White_Space` property (`char::is_whitespace`).
pub open spec fn is_space(c: char) -> bool {
    ||| '\t' <= c <= '\r'
    ||| c == ' '
    ||| c == '\u{85}'
    ||| c == '\u{a0}'
    ||| c == '\u{1680}'
    ||| '\u{2000}' <= c <= '\u{200a}'
    ||| c == '\u{2028}'
    ||| c == '\u{2029}'
    ||| c == '\u{202f}'
    ||| c == '\u{205f}'
    ||| c == '\u{3000}'
}

/// `s` without its leading white space.
pub open spec fn trim_start(s: Seq<char>) -> Seq<char>
    decreases s.len(),
{
    if s.len() > 0 && is_space(s[0]) {
        trim_start(s.drop_first())
    } else {
        s
    }
}

/// `s` without its trailing white space.
pub open spec fn trim_end(s: Seq<char>) -> Seq<char>
    decreases s.len(),
{
    if s.len() > 0 && is_space(s.last()) {
        trim_end(s.drop_last())
    } else {
        s
    }
}

/// `s` without leading and trailing white space (the meaning of `str::trim`).
pub open spec fn trim(s: Seq<char>) -> Seq<char> {
    trim_end(trim_start(s))
}

/// The decimal digit for `d < 10`.
pub open spec fn digit(d: nat) -> char {
    if d == 0 { '0' }
    else if d == 1 { '1' }
    else if d == 2 { '2' }
    else if d == 3 { '3' }
    else if d == 4 { '4' }
    else if d == 5 { '5' }
    else if d == 6 { '6' }
    else if d == 7 { '7' }
    else if d == 8 { '8' }
    else { '9' }
}

/// The decimal numeral of `n`, without leading zeros (what `{}` prints).
pub open spec fn decimal(n: nat) -> Seq<char>
    decreases n,
{
    if n < 10 {
        seq![digit(n)]
    } else {
        decimal(n / 10).push(digit(n % 10))
    }
}

// ---------------------------------------------------------------------------
// Lemmas
// ---------------------------------------------------------------------------

/// A found occurrence lies inside `s`, at or after the start of the search.
pub proof fn lemma_find_from_bounds(s: Seq<char>, pat: Seq<char>, i: int)
    ensures
        find_from(s, pat, i) matches Some(j) ==> {
            &&& i <= j
            &&& pat.len() > 0
            &&& occurs_at(s, pat, j)
            &&& forall|k: int| i <= k < j ==> !occurs_at(s, pat, k)
        },
        find_from(s, pat, i) is None && 0 <= i && pat.len() > 0 ==> forall|k: int|
            i <= k ==> !occurs_at(s, pat, k),
    decreases s.len() - i,
{
    if i < 0 || pat.len() == 0 || i + pat.len() > s.len() {
    } else if occurs_at(s, pat, i) {
    } else {
        lemma_find_from_bounds(s, pat, i + 1);
    }
}

/// Searching in a suffix of `s` is searching in `s` with shifted indices.
pub proof fn lemma_find_from_skip(s: Seq<char>, pat: Seq<char>, r: int, k: int)
    requires
        0 <= r <= s.len(),
        0 <= k,
    ensures
        find_from(s.skip(r), pat, k) == (match find_from(s, pat, r + k) {
            Some(j) => Some(j - r),
            None => None::<int>,
        }),
    decreases s.len() - r - k,
{
    let t = s.skip(r);
    if k < 0 || pat.len() == 0 || k + pat.len() > t.len() {
    } else {
        assert(t.subrange(k, k + pat.len()) =~= s.subrange(r + k, r + k + pat.len()));
        if occurs_at(t, pat, k) {
        } else {
            lemma_find_from_skip(s, pat, r, k + 1);
        }
    }
}

/// `str::split` always yields at least one piece.
pub proof fn lemma_split_nonempty(s: Seq<char>, sep: Seq<char>)
    ensures
        split(s, sep).len() >= 1,
{
    reveal_with_fuel(split, 2);
    match find_from(s, sep, 0) {
        Some(i) => {},
        None => {},
    }
}

/// An occurrence of a non-empty pattern means the text contains it.
pub proof fn lemma_occurs_contains(s: Seq<char>, pat: Seq<char>, k: int)
    requires
        pat.len() > 0,
        occurs_at(s, pat, k),
    ensures
        contains(s, pat),
{
    lemma_find_from_bounds(s, pat, 0);
}

/// The search from `i` finds `j` when `j` is the first occurrence from `i` on.
pub proof fn lemma_find_first(s: Seq<char>, pat: Seq<char>, i: int, j: int)
    requires
        0 <= i <= j,
        pat.len() > 0,
        occurs_at(s, pat, j),
        forall|k: int| i <= k < j ==> !occurs_at(s, pat, k),
    ensures
        find_from(s, pat, i) == Some(j),
    decreases j - i,
{
    if i < j {
        lemma_find_first(s, pat, i + 1, j);
    }
}

/// A text without the separator is a single piece.
pub proof fn lemma_split_no_occ(s: Seq<char>, sep: Seq<char>)
    requires
        !contains(s, sep),
    ensures
        split(s, sep) == seq![s],
{
}

/// A separator whose first character does not come back later in it: an
/// occurrence cannot start inside text that ends just before another one.
pub open spec fn starts_unique(sep: Seq<char>) -> bool {
    &&& sep.len() > 0
    &&& forall|m: int| 1 <= m < sep.len() ==> #[trigger] sep[m] != sep[0]
}

/// A part of a text without `pat` is without `pat`.
pub proof fn lemma_subrange_no_contains(s: Seq<char>, pat: Seq<char>, x: int, y: int)
    requires
        0 <= x <= y <= s.len(),
        pat.len() > 0,
        !contains(s, pat),
    ensures
        !contains(s.subrange(x, y), pat),
{
    let t = s.subrange(x, y);
    lemma_find_from_bounds(t, pat, 0);
    if contains(t, pat) {
        let k = find_from(t, pat, 0)->0;
        assert(s.subrange(x + k, x + k + pat.len()) =~= t.subrange(k, k + pat.len()));
        lemma_occurs_contains(s, pat, x + k);
    }
}

/// Splitting a piece, its separator and the rest gives the piece, then the
/// pieces of the rest.
pub proof fn lemma_split_cons(p: Seq<char>, sep: Seq<char>, rest: Seq<char>)
    requires
        starts_unique(sep),
        !contains(p, sep),
    ensures
        split(p + sep + rest, sep) == seq![p] + split(rest, sep),
{
    let s = p + sep + rest;
    let n = p.len() as int;
    assert(s.subrange(n, n + sep.len()) =~= sep);
    assert forall|k: int| 0 <= k < n implies !occurs_at(s, sep, k) by {
        if occurs_at(s, sep, k) {
            if k + sep.len() <= n {
                assert(p.subrange(k, k + sep.len()) =~= s.subrange(k, k + sep.len()));
                lemma_occurs_contains(p, sep, k);
            } else {
                let m = n - k;
                assert(s.subrange(k, k + sep.len())[m] == s[n]);
                assert(s[n] == sep[0]);
            }
        }
    }
    lemma_find_first(s, sep, 0, n);
    assert(s.take(n) =~= p);
    assert(s.skip(n + sep.len()) =~= rest);
}

/// Splitting pieces joined by a separator that none of them holds gives the
/// pieces back.
pub proof fn lemma_split_join(ps: Seq<Seq<char>>, sep: Seq<char>)
    requires
        ps.len() >= 1,
        starts_unique(sep),
        forall|i: int| 0 <= i < ps.len() ==> !contains(#[trigger] ps[i], sep),
    ensures
        split(join(ps, sep), sep) == ps,
    decreases ps.len(),
{
    if ps.len() == 1 {
        assert(!contains(ps[0], sep));
        assert(seq![ps[0]] =~= ps);
    } else {
        let rest = ps.drop_first();
        assert(!contains(ps[0], sep));
        lemma_split_join(rest, sep);
        lemma_split_cons(ps[0], sep, join(rest, sep));
        assert(seq![ps[0]] + rest =~= ps);
    }
}

/// Joining the pieces of a split with its separator gives the text back.
pub proof fn lemma_join_split(s: Seq<char>, sep: Seq<char>)
    requires
        sep.len() > 0,
    ensures
        join(split(s, sep), sep) == s,
    decreases s.len(),
{
    lemma_find_from_bounds(s, sep, 0);
    match find_from(s, sep, 0) {
        None => {},
        Some(i) => {
            let rest = s.skip(i + sep.len());
            lemma_join_split(rest, sep);
            lemma_split_nonempty(rest, sep);
            let ps = split(s, sep);
            assert(ps == seq![s.take(i)] + split(rest, sep));
            assert(ps.drop_first() =~= split(rest, sep));
            assert(ps.len() >= 2);
            assert(s.take(i) + sep + rest =~= s);
        },
    }
}

/// The pieces of a split of a text without `b` are without `b`.
pub proof fn lemma_split_pieces_no_contains(s: Seq<char>, sep: Seq<char>, b: Seq<char>)
    requires
        sep.len() > 0,
        b.len() > 0,
        !contains(s, b),
    ensures
        forall|i: int| 0 <= i < split(s, sep).len() ==> !contains(#[trigger] split(s, sep)[i], b),
    decreases s.len(),
{
    lemma_find_from_bounds(s, sep, 0);
    match find_from(s, sep, 0) {
        None => {},
        Some(i) => {
            let rest = s.skip(i + sep.len());
            lemma_subrange_no_contains(s, b, 0, i);
            lemma_subrange_no_contains(s, b, i + sep.len(), s.len() as int);
            assert(s.subrange(0, i) =~= s.take(i));
            assert(s.subrange(i + sep.len(), s.len() as int) =~= rest);
            lemma_split_pieces_no_contains(rest, sep, b);
            let ps = split(s, sep);
            assert forall|k: int| 0 <= k < ps.len() implies !contains(#[trigger] ps[k], b) by {
                if k > 0 {
                    assert(ps[k] == split(rest, sep)[k - 1]);
                }
            }
        },
    }
}

/// `s` has no character `c`.
pub open spec fn lacks(s: Seq<char>, c: char) -> bool {
    forall|i: int| 0 <= i < s.len() ==> #[trigger] s[i] != c
}

/// Pieces without `c`, joined by a separator without `c`, have no `c`.
pub proof fn lemma_join_lacks(ps: Seq<Seq<char>>, sep: Seq<char>, c: char)
    requires
        lacks(sep, c),
        forall|i: int| 0 <= i < ps.len() ==> lacks(#[trigger] ps[i], c),
    ensures
        lacks(join(ps, sep), c),
    decreases ps.len(),
{
    if ps.len() >= 2 {
        let rest = ps.drop_first();
        assert forall|i: int| 0 <= i < rest.len() implies lacks(#[trigger] rest[i], c) by {
            assert(rest[i] == ps[i + 1]);
        }
        lemma_join_lacks(rest, sep, c);
        assert(lacks(ps[0], c));
        let j = ps[0] + sep + join(rest, sep);
        assert forall|i: int| 0 <= i < j.len() implies #[trigger] j[i] != c by {
            if i < ps[0].len() {
                assert(j[i] == ps[0][i]);
            } else if i < ps[0].len() + sep.len() {
                assert(j[i] == sep[i - ps[0].len()]);
            } else {
                assert(j[i] == join(rest, sep)[i - ps[0].len() - sep.len()]);
            }
        }
    } else if ps.len() == 1 {
        assert(lacks(ps[0], c));
    }
}

/// The pieces of a split at the character `c` have no `c`.
pub proof fn lemma_split_pieces_lack(s: Seq<char>, c: char)
    ensures
        forall|i: int| 0 <= i < split(s, seq![c]).len() ==> lacks(#[trigger] split(s, seq![c])[i], c),
    decreases s.len(),
{
    let sep = seq![c];
    lemma_find_from_bounds(s, sep, 0);
    assert forall|k: int| 0 <= k < s.len() && s[k] == c implies occurs_at(s, sep, k) by {
        assert(s.subrange(k, k + 1) =~= sep);
    }
    match find_from(s, sep, 0) {
        None => {
            assert(split(s, sep)[0] == s);
        },
        Some(i) => {
            let rest = s.skip(i + 1);
            lemma_split_pieces_lack(rest, c);
            let ps = split(s, sep);
            assert forall|k: int| 0 <= k < ps.len() implies lacks(#[trigger] ps[k], c) by {
                if k == 0 {
                    assert(ps[0] == s.take(i));
                } else {
                    assert(ps[k] == split(rest, sep)[k - 1]);
                }
            }
        },
    }
}

/// A text without a given character does not contain that character.
pub proof fn lemma_no_char(s: Seq<char>, c: char)
    requires
        forall|i: int| 0 <= i < s.len() ==> #[trigger] s[i] != c,
    ensures
        !contains(s, seq![c]),
{
    lemma_find_from_bounds(s, seq![c], 0);
    if contains(s, seq![c]) {
        let k = find_from(s, seq![c], 0)->0;
        assert(s.subrange(k, k + 1)[0] == s[k]);
    }
}

/// With no occurrence from `i` up to `j`, searching from `i` is searching from `j`.
pub proof fn lemma_find_skip(s: Seq<char>, pat: Seq<char>, i: int, j: int)
    requires
        0 <= i <= j,
        pat.len() > 0,
        forall|k: int| i <= k < j ==> !occurs_at(s, pat, k),
    ensures
        find_from(s, pat, i) == find_from(s, pat, j),
    decreases j - i,
{
    if i < j {
        lemma_find_skip(s, pat, i + 1, j);
    }
}

/// Before a text without `c`, the first piece of a split at `c` grows by that text.
pub proof fn lemma_first_piece(x: Seq<char>, y: Seq<char>, c: char)
    requires
        lacks(x, c),
    ensures
        split(x + y, seq![c])[0] == x + split(y, seq![c])[0],
{
    let sep = seq![c];
    let s = x + y;
    let n = x.len() as int;
    assert forall|k: int| 0 <= k < n implies !occurs_at(s, sep, k) by {
        if occurs_at(s, sep, k) {
            assert(s.subrange(k, k + 1)[0] == s[k]);
            assert(s[k] == x[k]);
        }
    }
    lemma_find_skip(s, sep, 0, n);
    assert(s.skip(n) =~= y);
    lemma_find_from_skip(s, sep, n, 0);
    lemma_find_from_bounds(y, sep, 0);
    match find_from(y, sep, 0) {
        None => {},
        Some(j) => {
            assert(s.take(n + j) =~= x + y.take(j));
        },
    }
}

/// When a text holds `c`, the first piece of a split at `c` lies inside it,
/// whatever follows.
pub proof fn lemma_first_piece_inside(x: Seq<char>, y: Seq<char>, c: char)
    requires
        contains(x, seq![c]),
    ensures
        split(x + y, seq![c])[0] == split(x, seq![c])[0],
        split(x, seq![c])[0] == x.take(find_from(x, seq![c], 0)->0),
{
    let sep = seq![c];
    let s = x + y;
    lemma_find_from_bounds(x, sep, 0);
    let j = find_from(x, sep, 0)->0;
    assert(s.subrange(j, j + 1) =~= x.subrange(j, j + 1));
    assert forall|k: int| 0 <= k < j implies !occurs_at(s, sep, k) by {
        assert(s.subrange(k, k + 1) =~= x.subrange(k, k + 1));
        if occurs_at(s, sep, k) {
            assert(occurs_at(x, sep, k));
        }
    }
    lemma_find_first(s, sep, 0, j);
    assert(s.take(j) =~= x.take(j));
}

/// The predicate "is not `c`".
pub open spec fn not_char(c: char) -> spec_fn(char) -> bool {
    |x: char| x != c
}

/// Keeping the characters other than `c` of a text without `c` keeps it whole.
pub proof fn lemma_filter_lacking(s: Seq<char>, c: char)
    requires
        lacks(s, c),
    ensures
        s.filter(not_char(c)) == s,
    decreases s.len(),
{
    reveal(Seq::filter);
    if s.len() > 0 {
        assert(lacks(s.drop_last(), c));
        lemma_filter_lacking(s.drop_last(), c);
        assert(s.drop_last().push(s.last()) =~= s);
    }
}

/// Replacing a character by nothing keeps exactly the other characters.
pub proof fn lemma_remove_char(s: Seq<char>, c: char)
    ensures
        replace(s, seq![c], Seq::empty()) == s.filter(not_char(c)),
    decreases s.len(),
{
    let sep = seq![c];
    let e = Seq::<char>::empty();
    lemma_find_from_bounds(s, sep, 0);
    match find_from(s, sep, 0) {
        None => {
            assert forall|k: int| 0 <= k < s.len() implies #[trigger] s[k] != c by {
                if s[k] == c {
                    assert(s.subrange(k, k + 1) =~= sep);
                    assert(occurs_at(s, sep, k));
                }
            }
            lemma_filter_lacking(s, c);
        },
        Some(i) => {
            let rest = s.skip(i + 1);
            lemma_remove_char(rest, c);
            lemma_split_nonempty(rest, sep);
            let ps = split(s, sep);
            assert(ps.drop_first() =~= split(rest, sep));
            assert(join(ps, e) == s.take(i) + e + join(split(rest, sep), e));
            assert forall|k: int| 0 <= k < s.take(i).len() implies #[trigger] s.take(i)[k] != c by {
                assert(s.take(i)[k] == s[k]);
                if s[k] == c {
                    assert(s.subrange(k, k + 1) =~= sep);
                    assert(occurs_at(s, sep, k));
                }
            }
            lemma_filter_lacking(s.take(i), c);
            assert(s =~= s.take(i) + sep + rest);
            Seq::filter_distributes_over_add(s.take(i) + sep, rest, not_char(c));
            Seq::filter_distributes_over_add(s.take(i), sep, not_char(c));
            reveal_with_fuel(Seq::filter, 2);
            assert(sep.drop_last() =~= Seq::<char>::empty());
            assert(sep.filter(not_char(c)) =~= Seq::<char>::empty());
            assert(s.take(i) + e =~= s.take(i));
        },
    }
}

// ---------------------------------------------------------------------------
// Code
// ---------------------------------------------------------------------------

/// Appends one character to a `String` (std's `String::push`).
#[verifier::external_body]
fn push_char(s: &mut String, c: char)
    ensures
        final(s)@ == old(s)@.push(c),
{
    s.push(c);
}

/// The characters of `s`, in order.
pub fn chars_of(s: &str) -> (v: Vec<char>)
    ensures
        v@ == s@,
{
    let mut v: Vec<char> = Vec::new();
    for c in it: s.chars()
        invariant
            v@ == it.seq().take(it.index()),
    {
        v.push(c);
        proof {
            assert(it.seq().take(it.index() + 1) =~= it.seq().take(it.index()).push(c));
        }
    }
    v
}

/// A `String` holding exactly the characters of `v`.
pub fn string_of(v: &[char]) -> (s: String)
    ensures
        s@ == v@,
{
    let mut s = String::new();
    let mut i: usize = 0;
    while i < v.len()
        invariant
            i <= v@.len(),
            s@ == v@.take(i as int),
        decreases v@.len() - i,
    {
        push_char(&mut s, v[i]);
        proof {
            assert(v@.take(i + 1) =~= v@.take(i as int).push(v@[i as int]));
        }
        i = i + 1;
    }
    proof {
        assert(v@.take(v@.len() as int) =~= v@);
    }
    s
}

/// The characters `s[from..to]`.
pub fn slice_of(s: &Vec<char>, from: usize, to: usize) -> (r: Vec<char>)
    requires
        from <= to <= s@.len(),
    ensures
        r@ == s@.subrange(from as int, to as int),
{
    let mut r: Vec<char> = Vec::new();
    let mut i: usize = from;
    while i < to
        invariant
            from <= i <= to <= s@.len(),
            r@ == s@.subrange(from as int, i as int),
        decreases to - i,
    {
        r.push(s[i]);
        proof {
            assert(s@.subrange(from as int, i + 1) =~= s@.subrange(from as int, i as int).push(
                s@[i as int],
            ));
        }
        i = i + 1;
    }
    r
}

/// Appends the characters of `t` to `v`.
pub fn append_chars(v: &mut Vec<char>, t: &Vec<char>)
    ensures
        final(v)@ == old(v)@ + t@,
{
    let mut i: usize = 0;
    while i < t.len()
        invariant
            i <= t@.len(),
            v@ == old(v)@ + t@.take(i as int),
        decreases t@.len() - i,
    {
        v.push(t[i]);
        proof {
            assert(t@.take(i + 1) =~= t@.take(i as int).push(t@[i as int]));
        }
        i = i + 1;
    }
    proof {
        assert(t@.take(t@.len() as int) =~= t@);
    }
}

/// Whether `pat` occurs in `s` at index `i`.
pub fn occurs_at_exec(s: &Vec<char>, pat: &Vec<char>, i: usize) -> (b: bool)
    ensures
        b == occurs_at(s@, pat@, i as int),
{
    if pat.len() > s.len() || i > s.len() - pat.len() {
        return false;
    }
    let mut k: usize = 0;
    while k < pat.len()
        invariant
            i + pat@.len() <= s@.len(),
            s@.len() <= usize::MAX,
            k <= pat@.len(),
            forall|m: int| 0 <= m < k ==> s@[i + m] == pat@[m],
        decreases pat@.len() - k,
    {
        if s[i + k] != pat[k] {
            proof {
                assert(s@.subrange(i as int, i + pat@.len())[k as int] != pat@[k as int]);
            }
            return false;
        }
        k = k + 1;
    }
    proof {
        assert(s@.subrange(i as int, i + pat@.len()) =~= pat@);
    }
    true
}

/// The first occurrence of `pat` in `s` at or after `start`.
pub fn find_from_exec(s: &Vec<char>, pat: &Vec<char>, start: usize) -> (r: Option<usize>)
    ensures
        match r {
            Some(j) => find_from(s@, pat@, start as int) == Some(j as int),
            None => find_from(s@, pat@, start as int) is None,
        },
{
    if pat.len() == 0 || pat.len() > s.len() {
        return None;
    }
    let mut i: usize = start;
    while i <= s.len() - pat.len()
        invariant
            start <= i,
            0 < pat@.len() <= s@.len(),
            find_from(s@, pat@, start as int) == find_from(s@, pat@, i as int),
        decreases s@.len() - i,
    {
        if occurs_at_exec(s, pat, i) {
            return Some(i);
        }
        i = i + 1;
    }
    None
}

/// Whether `pat` occurs in `s`.
pub fn contains_exec(s: &Vec<char>, pat: &Vec<char>) -> (b: bool)
    ensures
        b == contains(s@, pat@),
{
    find_from_exec(s, pat, 0).is_some()
}


/// The character sequences held by a list of character vectors.
pub open spec fn views(ps: Seq<Vec<char>>) -> Seq<Seq<char>> {
    ps.map_values(|p: Vec<char>| p@)
}

/// The pieces of `s` between the occurrences of `sep` (`str::split`).
pub fn split_exec(s: &Vec<char>, sep: &Vec<char>) -> (ps: Vec<Vec<char>>)
    requires
        sep@.len() > 0,
    ensures
        views(ps@) == split(s@, sep@),
{
    let mut ps: Vec<Vec<char>> = Vec::new();
    let mut r: usize = 0;
    let _n = s.len();
    proof {
        assert(s@.skip(0) =~= s@);
        assert(views(ps@) =~= Seq::<Seq<char>>::empty());
        assert(Seq::<Seq<char>>::empty() + split(s@, sep@) =~= split(s@, sep@));
    }
    loop
        invariant
            r <= s@.len(),
            s@.len() <= usize::MAX,
            sep@.len() > 0,
            split(s@, sep@) == views(ps@) + split(s@.skip(r as int), sep@),
        decreases s@.len() - r,
    {
        let ghost t = s@.skip(r as int);
        proof {
            lemma_find_from_skip(s@, sep@, r as int, 0);
            lemma_find_from_bounds(s@, sep@, r as int);
        }
        match find_from_exec(s, sep, r) {
            None => {
                let last = slice_of(s, r, s.len());
                let ghost before = views(ps@);
                ps.push(last);
                proof {
                    assert(last@ =~= t);
                    assert(split(t, sep@) =~= seq![t]);
                    assert(views(ps@) =~= before.push(t));
                    assert(views(ps@) =~= before.push(last@));
                    assert(before + seq![t] =~= before.push(t));
                }
                return ps;
            },
            Some(i) => {
                let piece = slice_of(s, r, i);
                let ghost before = views(ps@);
                ps.push(piece);
                let next = i + sep.len();
                proof {
                    let k = i - r;
                    assert(piece@ =~= t.take(k));
                    assert(t.skip(k + sep@.len()) =~= s@.skip(next as int));
                    assert(split(t, sep@) == seq![t.take(k)] + split(t.skip(k + sep@.len()), sep@));
                    assert(views(ps@) =~= before.push(piece@));
                    assert(before + (seq![t.take(k)] + split(s@.skip(next as int), sep@)) =~= before.push(piece@) + split(s@.skip(next as int), sep@));
                }
                r = next;
            },
        }
    }
}

/// The pieces joined with `sep` between neighbours (`join` on a slice of strings).
pub fn join_exec(ps: &Vec<Vec<char>>, sep: &Vec<char>) -> (out: Vec<char>)
    ensures
        out@ == join(views(ps@), sep@),
{
    let n = ps.len();
    if n == 0 {
        return Vec::new();
    }
    let mut out: Vec<char> = Vec::new();
    // Built from the back: `out` holds the join of `ps[i..]`.
    let mut i: usize = n - 1;
    append_chars(&mut out, &ps[i]);
    proof {
        assert(views(ps@).skip(i as int) =~= seq![ps@[i as int]@]);
        assert(out@ =~= ps@[i as int]@);
    }
    while i > 0
        invariant
            0 <= i < n,
            n == ps@.len(),
            out@ == join(views(ps@).skip(i as int), sep@),
        decreases i,
    {
        let mut front = Vec::new();
        append_chars(&mut front, &ps[i - 1]);
        append_chars(&mut front, sep);
        append_chars(&mut front, &out);
        proof {
            let tail = views(ps@).skip(i - 1);
            assert(tail.len() >= 2);
            assert(tail.drop_first() =~= views(ps@).skip(i as int));
            assert(tail[0] == ps@[i - 1]@);
            assert(front@ =~= tail[0] + sep@ + out@);
        }
        out = front;
        i = i - 1;
    }
    proof {
        assert(views(ps@).skip(0) =~= views(ps@));
    }
    out
}

/// Every occurrence of `from` replaced by `to` (`str::replace`).
pub fn replace_exec(s: &Vec<char>, from: &Vec<char>, to: &Vec<char>) -> (out: Vec<char>)
    requires
        from@.len() > 0,
    ensures
        out@ == replace(s@, from@, to@),
{
    let ps = split_exec(s, from);
    join_exec(&ps, to)
}

/// Whether `s` ends with `suffix`.
pub fn ends_with_exec(s: &Vec<char>, suffix: &Vec<char>) -> (b: bool)
    ensures
        b == ends_with(s@, suffix@),
{
    if suffix.len() > s.len() {
        return false;
    }
    let start = s.len() - suffix.len();
    let b = occurs_at_exec(s, suffix, start);
    proof {
        assert(s@.subrange(start as int, start + suffix@.len()) =~= s@.skip(start as int));
    }
    b
}

/// `s` with every trailing copy of `pat` removed (`str::trim_end_matches`).
pub fn trim_end_matches_exec(s: &Vec<char>, pat: &Vec<char>) -> (out: Vec<char>)
    requires
        pat@.len() > 0,
    ensures
        out@ == trim_end_matches(s@, pat@),
{
    let mut end: usize = s.len();
    let mut cur = slice_of(s, 0, end);
    proof {
        assert(cur@ =~= s@);
    }
    while ends_with_exec(&cur, pat)
        invariant
            end == cur@.len(),
            end <= s@.len(),
            pat@.len() > 0,
            cur@ == s@.take(end as int),
            trim_end_matches(s@, pat@) == trim_end_matches(cur@, pat@),
        decreases end,
    {
        let ghost prev = cur@;
        end = end - pat.len();
        cur = slice_of(s, 0, end);
        proof {
            assert(cur@ =~= s@.take(end as int));
            assert(prev.take(prev.len() - pat@.len()) =~= cur@);
        }
    }
    cur
}

/// Whether `c` is white space (`char::is_whitespace`).
pub fn is_space_exec(c: char) -> (b: bool)
    ensures
        b == is_space(c),
{
    ('\t' <= c && c <= '\r') || c == ' ' || c == '\u{85}' || c == '\u{a0}' || c == '\u{1680}'
        || ('\u{2000}' <= c && c <= '\u{200a}') || c == '\u{2028}' || c == '\u{2029}'
        || c == '\u{202f}' || c == '\u{205f}' || c == '\u{3000}'
}

/// `s` without leading and trailing white space (`str::trim`).
pub fn trim_exec(s: &Vec<char>) -> (out: Vec<char>)
    ensures
        out@ == trim(s@),
{
    let mut a: usize = 0;
    proof {
        assert(s@.skip(0) =~= s@);
    }
    while a < s.len() && is_space_exec(s[a])
        invariant
            a <= s@.len(),
            trim_start(s@) == trim_start(s@.skip(a as int)),
        decreases s@.len() - a,
    {
        proof {
            assert(s@.skip(a as int).drop_first() =~= s@.skip(a + 1));
        }
        a = a + 1;
    }
    proof {
        assert(trim_start(s@) == s@.skip(a as int));
    }
    let mut b: usize = s.len();
    while b > a && is_space_exec(s[b - 1])
        invariant
            a <= b <= s@.len(),
            trim(s@) == trim_end(s@.subrange(a as int, b as int)),
        decreases b,
    {
        proof {
            assert(s@.subrange(a as int, b as int).drop_last() =~= s@.subrange(a as int, b - 1));
        }
        b = b - 1;
    }
    proof {
        assert(s@.skip(a as int) =~= s@.subrange(a as int, s@.len() as int));
    }
    slice_of(s, a, b)
}

/// The decimal digit character for `d < 10`.
pub fn digit_exec(d: u64) -> (c: char)
    requires
        d < 10,
    ensures
        c == digit(d as nat),
{
    if d == 0 { '0' }
    else if d == 1 { '1' }
    else if d == 2 { '2' }
    else if d == 3 { '3' }
    else if d == 4 { '4' }
    else if d == 5 { '5' }
    else if d == 6 { '6' }
    else if d == 7 { '7' }
    else if d == 8 { '8' }
    else { '9' }
}

/// The decimal numeral of `n` (what `{}` prints for an unsigned integer).
pub fn decimal_exec(n: u64) -> (out: Vec<char>)
    ensures
        out@ == decimal(n as nat),
    decreases n,
{
    if n < 10 {
        let mut out = Vec::new();
        out.push(digit_exec(n));
        proof {
            assert(out@ =~= seq![digit(n as nat)]);
        }
        out
    } else {
        let mut out = decimal_exec(n / 10);
        out.push(digit_exec(n % 10));
        out
    }
}

} // verus!

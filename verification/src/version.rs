//! Release versions: parsing `vX.Y.Z` tags into comparable triples, and
//! deciding whether a release is newer than the running version.

use vstd::prelude::*;
use crate::text::{
    chars_of, trim_chars, trim_start_char_chars, trim_ws, trim_start_char, trim_start_ws, trim_end_ws,
    is_white_space, lemma_trim_ws_len,
};

verus! {

/// The characters that separate version parts.
pub open spec fn is_ver_sep(c: char) -> bool {
    c == '.' || c == '-' || c == '+'
}

/// `cur + s` split at every separator (`str::split` with a char set): the
/// first part starts with `cur`.
pub open spec fn split_acc(cur: Seq<char>, s: Seq<char>) -> Seq<Seq<char>>
    decreases s.len(),
{
    if s.len() == 0 {
        seq![cur]
    } else if is_ver_sep(s[0]) {
        seq![cur] + split_acc(seq![], s.drop_first())
    } else {
        split_acc(cur.push(s[0]), s.drop_first())
    }
}

/// The parts of a version text, split at `.`, `-` and `+` (empty parts kept).
pub open spec fn split_ver(s: Seq<char>) -> Seq<Seq<char>> {
    split_acc(seq![], s)
}

pub open spec fn is_digit(c: char) -> bool {
    '0' <= c <= '9'
}

pub open spec fn all_digits(p: Seq<char>) -> bool {
    forall|i: int| 0 <= i < p.len() ==> is_digit(#[trigger] p[i])
}

/// The number that a run of decimal digits writes.
pub open spec fn digits_value(p: Seq<char>) -> nat
    decreases p.len(),
{
    if p.len() == 0 {
        0
    } else {
        digits_value(p.drop_last()) * 10 + ((p.last() as nat) - 48) as nat
    }
}

/// A part as `u64::from_str(..).unwrap_or(0)` reads it: its value when it is
/// a non-empty run of digits that fits in 64 bits, else 0. (A part never
/// holds `+`, which is a separator.)
pub open spec fn part_value(p: Seq<char>) -> u64 {
    if p.len() > 0 && all_digits(p) && digits_value(p) <= u64::MAX {
        digits_value(p) as u64
    } else {
        0
    }
}

pub open spec fn nth_part(ps: Seq<Seq<char>>, i: int) -> u64 {
    if i < ps.len() {
        part_value(ps[i])
    } else {
        0
    }
}

/// The text of a version: trimmed, without leading `v`s.
pub open spec fn ver_text(s: Seq<char>) -> Seq<char> {
    trim_start_char(trim_ws(s), 'v')
}

/// A version tag as a triple: the first three parts, missing parts 0, extra
/// parts ignored.
pub open spec fn parse_ver_of(s: Seq<char>) -> (u64, u64, u64) {
    let ps = split_ver(ver_text(s));
    (nth_part(ps, 0), nth_part(ps, 1), nth_part(ps, 2))
}

/// Lexicographic order of version triples.
pub open spec fn ver_lt(a: (u64, u64, u64), b: (u64, u64, u64)) -> bool {
    a.0 < b.0 || (a.0 == b.0 && (a.1 < b.1 || (a.1 == b.1 && a.2 < b.2)))
}

/// Whether `tag` names a later version than `current`.
pub open spec fn newer_than(tag: Seq<char>, current: Seq<char>) -> bool {
    ver_lt(parse_ver_of(current), parse_ver_of(tag))
}

proof fn lemma_digits_prefix(p: Seq<char>, k: int)
    requires
        all_digits(p),
        0 <= k <= p.len(),
    ensures
        digits_value(p.take(k)) <= digits_value(p),
    decreases p.len(),
{
    if k < p.len() {
        assert(p.drop_last().take(k) =~= p.take(k));
        lemma_digits_prefix(p.drop_last(), k);
    } else {
        assert(p.take(k) =~= p);
    }
}

/// A version part as `u64`: `part_value`.
fn parse_part(p: &Vec<char>) -> (r: u64)
    ensures
        r == part_value(p@),
{
    if p.len() == 0 {
        return 0;
    }
    let mut acc: u64 = 0;
    let mut i: usize = 0;
    assert(p@.take(0) =~= Seq::<char>::empty());
    while i < p.len()
        invariant
            i <= p@.len(),
            all_digits(p@.take(i as int)),
            acc == digits_value(p@.take(i as int)),
        decreases p.len() - i,
    {
        let c = p[i];
        if !('0' <= c && c <= '9') {
            assert(!is_digit(p@[i as int]));
            return 0;
        }
        let d: u64 = (c as u32 - 48) as u64;
        assert(p@.take(i + 1).drop_last() =~= p@.take(i as int));
        assert(p@.take(i + 1).last() == c);
        if acc > (18446744073709551615u64 - d) / 10 {
            proof {
                assert(acc * 10 + d > u64::MAX) by (nonlinear_arith)
                    requires
                        acc > (18446744073709551615u64 - d) / 10,
                        d <= 9,
                ;
                assert(digits_value(p@.take(i + 1)) == acc * 10 + d);
                if all_digits(p@) {
                    lemma_digits_prefix(p@, i + 1);
                }
            }
            return 0;
        }
        proof {
            assert(acc * 10 + d <= u64::MAX) by (nonlinear_arith)
                requires
                    acc <= (18446744073709551615u64 - d) / 10,
                    d <= 9,
            ;
            assert forall|j: int| 0 <= j < i + 1 implies is_digit(#[trigger] p@.take(i + 1)[j]) by {
                if j < i {
                    assert(p@.take(i + 1)[j] == p@.take(i as int)[j]);
                }
            }
        }
        acc = acc * 10 + d;
        i = i + 1;
    }
    assert(p@.take(p@.len() as int) =~= p@);
    acc
}

pub open spec fn vecs_view(v: Seq<Vec<char>>) -> Seq<Seq<char>> {
    v.map_values(|x: Vec<char>| x@)
}

/// `(major, minor, patch)` of a `vX.Y.Z` (or `X.Y.Z`) tag; missing parts are 0
/// and extra parts are ignored.
pub fn parse_ver(s: &str) -> (r: (u64, u64, u64))
    ensures
        r == parse_ver_of(s@),
{
    let v = chars_of(s);
    let t = trim_chars(&v);
    let t = trim_start_char_chars(&t, 'v');
    let mut parts: Vec<Vec<char>> = Vec::new();
    let mut cur: Vec<char> = Vec::new();
    let mut i: usize = 0;
    proof {
        assert(t@.skip(0) =~= t@);
        assert(vecs_view(parts@) =~= Seq::<Seq<char>>::empty());
        assert(cur@ =~= Seq::<char>::empty());
        assert(split_ver(t@) =~= vecs_view(parts@) + split_acc(cur@, t@.skip(0)));
    }
    while i < t.len()
        invariant
            i <= t@.len(),
            split_ver(t@) == vecs_view(parts@) + split_acc(cur@, t@.skip(i as int)),
        decreases t.len() - i,
    {
        let c = t[i];
        let ghost rest = t@.skip(i as int);
        assert(rest[0] == c);
        assert(rest.drop_first() =~= t@.skip(i + 1));
        if c == '.' || c == '-' || c == '+' {
            let ghost before = parts@;
            let ghost old_cur = cur@;
            let done = cur;
            parts.push(done);
            cur = Vec::new();
            proof {
                assert(vecs_view(parts@) =~= vecs_view(before).push(old_cur));
                assert(cur@ =~= Seq::<char>::empty());
                assert(vecs_view(before) + (seq![old_cur] + split_acc(seq![], t@.skip(i + 1)))
                    =~= vecs_view(parts@) + split_acc(cur@, t@.skip(i + 1)));
            }
        } else {
            cur.push(c);
        }
        i = i + 1;
    }
    let ghost before = parts@;
    let ghost last = cur@;
    parts.push(cur);
    proof {
        assert(t@.skip(t@.len() as int) =~= Seq::<char>::empty());
        assert(vecs_view(parts@) =~= vecs_view(before).push(last));
        assert(vecs_view(parts@) =~= split_ver(t@));
    }
    let a = if parts.len() > 0 { parse_part(&parts[0]) } else { 0 };
    let b = if parts.len() > 1 { parse_part(&parts[1]) } else { 0 };
    let c = if parts.len() > 2 { parse_part(&parts[2]) } else { 0 };
    (a, b, c)
}

/// Whether the release `tag` is newer than the running `current` version.
pub fn is_newer(tag: &str, current: &str) -> (r: bool)
    ensures
        r == newer_than(tag@, current@),
{
    let t = parse_ver(tag);
    let c = parse_ver(current);
    c.0 < t.0 || (c.0 == t.0 && (c.1 < t.1 || (c.1 == t.1 && c.2 < t.2)))
}

/// No version is newer than itself.
pub proof fn law_not_newer_than_itself(v: Seq<char>)
    ensures
        !newer_than(v, v),
{
}

/// Newer-than is transitive.
pub proof fn law_newer_transitive(a: Seq<char>, b: Seq<char>, c: Seq<char>)
    requires
        newer_than(a, b),
        newer_than(b, c),
    ensures
        newer_than(a, c),
{
}

/// A tag names the same version with or without a leading `v`, and with
/// or without whitespace around it.
pub proof fn law_v_prefix_and_whitespace(s: Seq<char>)
    requires
        trim_ws(s) == s,
    ensures
        parse_ver_of(seq!['v'] + s) == parse_ver_of(s),
        parse_ver_of(seq![' '] + s + seq!['\n']) == parse_ver_of(s),
{
    // `s` has no whitespace at either end
    let x = trim_start_ws(s);
    lemma_trim_ws_len(s);
    lemma_trim_ws_len(x);
    assert(x.len() == s.len());
    assert(trim_end_ws(s) == s);
    // a leading `v`
    let t = seq!['v'] + s;
    assert(t[0] == 'v');
    assert(trim_start_ws(t) == t);
    if s.len() > 0 {
        assert(t.last() == s.last());
    }
    assert(trim_end_ws(t) == t);
    assert(t.drop_first() =~= s);
    assert(trim_start_char(t, 'v') == trim_start_char(s, 'v'));
    // surrounding whitespace
    let u = seq![' '] + s + seq!['\n'];
    let w = s + seq!['\n'];
    assert(u.drop_first() =~= w);
    assert(trim_start_ws(u) == trim_start_ws(w));
    assert(w.drop_last() =~= s);
    if s.len() > 0 {
        assert(w[0] == s[0]);
        assert(trim_start_ws(w) == w);
    } else {
        assert(w.drop_first() =~= Seq::<char>::empty());
        assert(trim_start_ws(w) == trim_start_ws(Seq::<char>::empty()));
        assert(w =~= seq!['\n']);
    }
    assert(trim_ws(u) == s);
}

} // verus!

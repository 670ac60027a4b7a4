//! Character-level text utilities: decimal and hex rendering, whitespace
//! trimming, substring search, case-insensitive matching.

use vstd::prelude::*;

verus! {

// ---------------------------------------------------------------------------
// Building strings
// ---------------------------------------------------------------------------

/// std `String::push`: appends one character.
#[verifier::external_body]
pub(crate) fn push_char(s: &mut String, c: char)
    ensures
        final(s)@ == old(s)@.push(c),
{
    s.push(c);
}

/// What std `str::to_lowercase` gives for a text: the Unicode lowercase
/// mapping of the whole string. It is a function of the input alone; it is
/// named, not described, because the mapping (including context-dependent
/// rules such as final sigma) is the Unicode case tables.
pub uninterp spec fn lowercase(s: Seq<char>) -> Seq<char>;

/// Whether every character of a text is ASCII.
pub open spec fn all_ascii(s: Seq<char>) -> bool {
    forall|i: int| 0 <= i < s.len() ==> (#[trigger] s[i] as u32) < 128
}

/// The lowercase of an ASCII character: `A`–`Z` become `a`–`z`, every other
/// character stays.
pub open spec fn ascii_lower(c: char) -> char {
    if 'A' <= c <= 'Z' {
        ((c as int) + 32) as char
    } else {
        c
    }
}

/// A text lowered character by character (`ascii_lower`).
pub open spec fn ascii_lower_seq(s: Seq<char>) -> Seq<char> {
    s.map_values(|c: char| ascii_lower(c))
}

/// std `str::to_lowercase`: the text mapped to lowercase; the result is the
/// name `lowercase` applied to the text. On ASCII text it is the ASCII
/// lowercase, character by character: in the Unicode character database
/// each of `A`–`Z` has the one-to-one lowercase mapping to `a`–`z` and no
/// other ASCII character has a lowercase mapping, so `char::to_lowercase`
/// yields the same character (as its documentation says of a character
/// without one).
#[verifier::external_body]
pub(crate) fn to_lowercase(s: &str) -> (r: String)
    ensures
        r@ == lowercase(s@),
        all_ascii(s@) ==> r@ == ascii_lower_seq(s@),
{
    s.to_lowercase()
}

/// The characters of a string, in order.
pub fn chars_of(s: &str) -> (out: Vec<char>)
    ensures
        out@ == s@,
{
    let mut out: Vec<char> = Vec::new();
    for c in it: s.chars()
        invariant
            out@ == it.seq().take(it.index() as int),
    {
        out.push(c);
    }
    out
}

/// A string holding exactly the given characters.
pub fn string_of(cs: &Vec<char>) -> (s: String)
    ensures
        s@ == cs@,
{
    let mut s = String::new();
    let mut i: usize = 0;
    while i < cs.len()
        invariant
            i <= cs.len(),
            s@ == cs@.take(i as int),
        decreases cs.len() - i,
    {
        push_char(&mut s, cs[i]);
        i = i + 1;
        assert(s@ =~= cs@.take(i as int));
    }
    assert(cs@.take(cs.len() as int) =~= cs@);
    s
}

/// A fresh copy of a string slice.
pub fn owned(s: &str) -> (r: String)
    ensures
        r@ == s@,
{
    String::from_str(s)
}

/// Appends `b` to `a`.
pub fn concat2(a: &str, b: &str) -> (r: String)
    ensures
        r@ == a@ + b@,
{
    let mut r = String::from_str(a);
    r.append(b);
    r
}

/// Character-wise equality of two strings.
pub fn same_text(a: &str, b: &str) -> (r: bool)
    ensures
        r == (a@ == b@),
{
    let x = chars_of(a);
    let y = chars_of(b);
    if x.len() != y.len() {
        return false;
    }
    let mut i: usize = 0;
    while i < x.len()
        invariant
            x.len() == y.len(),
            i <= x.len(),
            x@ == a@,
            y@ == b@,
            forall|k: int| 0 <= k < i ==> x@[k] == y@[k],
        decreases x.len() - i,
    {
        if x[i] != y[i] {
            return false;
        }
        i = i + 1;
    }
    assert(x@ =~= y@);
    true
}

// ---------------------------------------------------------------------------
// Decimal and hexadecimal rendering
// ---------------------------------------------------------------------------

pub open spec fn digit_char(d: nat) -> char {
    (48 + d) as char
}

/// Decimal digits of a natural number, most significant first, no padding.
pub open spec fn dec_nat(n: nat) -> Seq<char>
    decreases n,
{
    if n < 10 {
        seq![digit_char(n)]
    } else {
        dec_nat(n / 10).push(digit_char(n % 10))
    }
}

/// Decimal rendering of an integer with a leading `-` when negative.
pub open spec fn dec_int(i: int) -> Seq<char> {
    if i < 0 {
        seq!['-'] + dec_nat((-i) as nat)
    } else {
        dec_nat(i as nat)
    }
}

fn digit(d: u64) -> (c: char)
    requires
        d < 10,
    ensures
        c == digit_char(d as nat),
{
    let b: u8 = 48u8 + d as u8;
    b as char
}

/// Decimal rendering of an unsigned integer (as `{}` formats it).
pub fn fmt_u64(n: u64) -> (s: String)
    ensures
        s@ == dec_nat(n as nat),
    decreases n,
{
    if n < 10 {
        let mut s = String::new();
        push_char(&mut s, digit(n));
        assert(s@ =~= seq![digit_char(n as nat)]);
        s
    } else {
        let mut s = fmt_u64(n / 10);
        push_char(&mut s, digit(n % 10));
        s
    }
}

/// Decimal rendering of a signed integer (as `{}` formats it).
pub fn fmt_i64(n: i64) -> (s: String)
    ensures
        s@ == dec_int(n as int),
{
    if n < 0 {
        let m: i64 = n + 1;
        let mag: u64 = ((0 - m) as u64) + 1;
        assert(mag == -(n as int));
        let digits = fmt_u64(mag);
        let mut s = String::new();
        push_char(&mut s, '-');
        s.append(digits.as_str());
        s
    } else {
        fmt_u64(n as u64)
    }
}

/// Decimal rendering of a length.
pub fn fmt_usize(n: usize) -> (s: String)
    ensures
        s@ == dec_nat(n as nat),
{
    fmt_u64(n as u64)
}

pub open spec fn hex_digit(d: nat) -> char {
    if d < 10 {
        (48 + d) as char
    } else {
        (87 + d) as char
    }
}

/// Two lowercase hex digits per byte (as `{:02x}` formats each byte).
pub open spec fn hex_lower(bytes: Seq<u8>) -> Seq<char>
    decreases bytes.len(),
{
    if bytes.len() == 0 {
        seq![]
    } else {
        hex_lower(bytes.drop_last()) + seq![
            hex_digit((bytes.last() / 16) as nat),
            hex_digit((bytes.last() % 16) as nat),
        ]
    }
}

/// Two characters per byte.
pub proof fn lemma_hex_lower_len(bytes: Seq<u8>)
    ensures
        hex_lower(bytes).len() == 2 * bytes.len(),
    decreases bytes.len(),
{
    if bytes.len() > 0 {
        lemma_hex_lower_len(bytes.drop_last());
    }
}

fn hex_char(d: u8) -> (c: char)
    requires
        d < 16,
    ensures
        c == hex_digit(d as nat),
{
    if d < 10 {
        (48u8 + d) as char
    } else {
        (87u8 + d) as char
    }
}

/// Lowercase hex rendering of the first `n` bytes.
pub fn hex_prefix(bytes: &[u8], n: usize) -> (s: String)
    requires
        n <= bytes@.len(),
    ensures
        s@ == hex_lower(bytes@.take(n as int)),
        s@.len() == 2 * n,
{
    let mut s = String::new();
    let mut i: usize = 0;
    while i < n
        invariant
            i <= n,
            n <= bytes@.len(),
            s@ == hex_lower(bytes@.take(i as int)),
        decreases n - i,
    {
        let b = bytes[i];
        push_char(&mut s, hex_char(b / 16));
        push_char(&mut s, hex_char(b % 16));
        assert(bytes@.take(i + 1).drop_last() =~= bytes@.take(i as int));
        i = i + 1;
        assert(s@ =~= hex_lower(bytes@.take(i as int)));
    }
    proof {
        lemma_hex_lower_len(bytes@.take(n as int));
    }
    s
}


// ---------------------------------------------------------------------------
// Whitespace and trimming
// ---------------------------------------------------------------------------

/// The Unicode `White_Space` property, which `char::is_whitespace` and
/// `str::trim` go by.
pub open spec fn is_white_space(c: char) -> bool {
    let u = c as u32;
    ||| 9 <= u <= 13
    ||| u == 32
    ||| u == 0x85
    ||| u == 0xa0
    ||| u == 0x1680
    ||| 0x2000 <= u <= 0x200a
    ||| u == 0x2028
    ||| u == 0x2029
    ||| u == 0x202f
    ||| u == 0x205f
    ||| u == 0x3000
}

pub fn is_whitespace(c: char) -> (r: bool)
    ensures
        r == is_white_space(c),
{
    let u = c as u32;
    (9 <= u && u <= 13) || u == 32 || u == 0x85 || u == 0xa0 || u == 0x1680 || (0x2000 <= u
        && u <= 0x200a) || u == 0x2028 || u == 0x2029 || u == 0x202f || u == 0x205f || u == 0x3000
}

/// Drops leading whitespace.
pub open spec fn trim_start_ws(s: Seq<char>) -> Seq<char>
    decreases s.len(),
{
    if s.len() > 0 && is_white_space(s[0]) {
        trim_start_ws(s.drop_first())
    } else {
        s
    }
}

/// Drops trailing whitespace.
pub open spec fn trim_end_ws(s: Seq<char>) -> Seq<char>
    decreases s.len(),
{
    if s.len() > 0 && is_white_space(s.last()) {
        trim_end_ws(s.drop_last())
    } else {
        s
    }
}

/// Drops leading and trailing whitespace (`str::trim`).
pub open spec fn trim_ws(s: Seq<char>) -> Seq<char> {
    trim_end_ws(trim_start_ws(s))
}

/// Trimming never lengthens a text, and a text that keeps its length under
/// trimming has no whitespace at that end.
pub proof fn lemma_trim_ws_len(s: Seq<char>)
    ensures
        trim_start_ws(s).len() <= s.len(),
        trim_end_ws(s).len() <= s.len(),
        trim_start_ws(s).len() == s.len() ==> trim_start_ws(s) == s && (s.len() == 0
            || !is_white_space(s[0])),
        trim_end_ws(s).len() == s.len() ==> trim_end_ws(s) == s && (s.len() == 0 || !is_white_space(
            s.last(),
        )),
    decreases s.len(),
{
    if s.len() > 0 {
        lemma_trim_ws_len(s.drop_first());
        lemma_trim_ws_len(s.drop_last());
    }
}

/// Drops every leading occurrence of `c` (`trim_start_matches(c)`).
pub open spec fn trim_start_char(s: Seq<char>, c: char) -> Seq<char>
    decreases s.len(),
{
    if s.len() > 0 && s[0] == c {
        trim_start_char(s.drop_first(), c)
    } else {
        s
    }
}

/// Drops every trailing occurrence of `c` (`trim_end_matches(c)`).
pub open spec fn trim_end_char(s: Seq<char>, c: char) -> Seq<char>
    decreases s.len(),
{
    if s.len() > 0 && s.last() == c {
        trim_end_char(s.drop_last(), c)
    } else {
        s
    }
}

/// Drops every leading and trailing occurrence of `c` (`trim_matches(c)`).
pub open spec fn trim_char(s: Seq<char>, c: char) -> Seq<char> {
    trim_end_char(trim_start_char(s, c), c)
}

/// Length of the leading run of whitespace.
fn lead_ws(v: &Vec<char>) -> (i: usize)
    ensures
        i <= v@.len(),
        trim_start_ws(v@) == v@.skip(i as int),
{
    let mut i: usize = 0;
    assert(v@.skip(0) =~= v@);
    while i < v.len() && is_whitespace(v[i])
        invariant
            i <= v@.len(),
            trim_start_ws(v@) == trim_start_ws(v@.skip(i as int)),
        decreases v.len() - i,
    {
        assert(v@.skip(i as int).drop_first() =~= v@.skip(i + 1));
        i = i + 1;
    }
    i
}

/// Length of `v` without its trailing run of whitespace, from `start` on.
fn end_ws(v: &Vec<char>, start: usize) -> (j: usize)
    requires
        start <= v@.len(),
    ensures
        start <= j <= v@.len(),
        trim_end_ws(v@.subrange(start as int, v@.len() as int)) == v@.subrange(
            start as int,
            j as int,
        ),
{
    let mut j: usize = v.len();
    while j > start && is_whitespace(v[j - 1])
        invariant
            start <= j <= v@.len(),
            trim_end_ws(v@.subrange(start as int, v@.len() as int)) == trim_end_ws(
                v@.subrange(start as int, j as int),
            ),
        decreases j,
    {
        assert(v@.subrange(start as int, j as int).drop_last() =~= v@.subrange(
            start as int,
            j - 1,
        ));
        j = j - 1;
    }
    j
}

/// A copy of `v[from..to]`.
pub fn slice_chars(v: &Vec<char>, from: usize, to: usize) -> (r: Vec<char>)
    requires
        from <= to <= v@.len(),
    ensures
        r@ == v@.subrange(from as int, to as int),
{
    let mut r: Vec<char> = Vec::new();
    let mut i = from;
    while i < to
        invariant
            from <= i <= to,
            to <= v@.len(),
            r@ == v@.subrange(from as int, i as int),
        decreases to - i,
    {
        r.push(v[i]);
        i = i + 1;
        assert(r@ =~= v@.subrange(from as int, i as int));
    }
    r
}

/// `str::trim` on characters.
pub fn trim_chars(v: &Vec<char>) -> (r: Vec<char>)
    ensures
        r@ == trim_ws(v@),
{
    let i = lead_ws(v);
    assert(v@.skip(i as int) =~= v@.subrange(i as int, v@.len() as int));
    let j = end_ws(v, i);
    slice_chars(v, i, j)
}

/// `str::trim`.
pub fn trim(s: &str) -> (r: String)
    ensures
        r@ == trim_ws(s@),
{
    let v = chars_of(s);
    let t = trim_chars(&v);
    string_of(&t)
}

/// `str::trim_end`.
pub fn trim_end(s: &str) -> (r: String)
    ensures
        r@ == trim_end_ws(s@),
{
    let v = chars_of(s);
    assert(v@.subrange(0, v@.len() as int) =~= v@);
    let j = end_ws(&v, 0);
    let t = slice_chars(&v, 0, j);
    string_of(&t)
}

/// `trim_start_matches(c)` on characters.
pub fn trim_start_char_chars(v: &Vec<char>, c: char) -> (r: Vec<char>)
    ensures
        r@ == trim_start_char(v@, c),
{
    let mut i: usize = 0;
    assert(v@.skip(0) =~= v@);
    while i < v.len() && v[i] == c
        invariant
            i <= v@.len(),
            trim_start_char(v@, c) == trim_start_char(v@.skip(i as int), c),
        decreases v.len() - i,
    {
        assert(v@.skip(i as int).drop_first() =~= v@.skip(i + 1));
        i = i + 1;
    }
    assert(v@.skip(i as int) =~= v@.subrange(i as int, v@.len() as int));
    slice_chars(v, i, v.len())
}

/// `trim_matches(c)`: strips every leading and trailing `c`.
pub fn trim_matches_char(s: &str, c: char) -> (r: String)
    ensures
        r@ == trim_char(s@, c),
{
    let v = chars_of(s);
    let t = trim_start_char_chars(&v, c);
    let mut j: usize = t.len();
    assert(t@.take(j as int) =~= t@);
    while j > 0 && t[j - 1] == c
        invariant
            j <= t@.len(),
            trim_end_char(t@, c) == trim_end_char(t@.take(j as int), c),
        decreases j,
    {
        assert(t@.take(j as int).drop_last() =~= t@.take(j - 1));
        j = j - 1;
    }
    assert(t@.take(j as int) =~= t@.subrange(0, j as int));
    let u = slice_chars(&t, 0, j);
    string_of(&u)
}

// ---------------------------------------------------------------------------
// Character replacement, prefixes, substrings
// ---------------------------------------------------------------------------

/// Every occurrence of `from` replaced by `to` (`str::replace` with chars).
pub open spec fn replace_char(s: Seq<char>, from: char, to: char) -> Seq<char> {
    s.map_values(|c: char| if c == from { to } else { c })
}

/// `s.replace('\n', " ")`, the way message text is flattened to one line.
pub fn flatten_newlines(s: &str) -> (r: String)
    ensures
        r@ == replace_char(s@, '\n', ' '),
{
    let v = chars_of(s);
    let mut r = String::new();
    let mut i: usize = 0;
    while i < v.len()
        invariant
            i <= v@.len(),
            v@ == s@,
            r@ == replace_char(v@.take(i as int), '\n', ' '),
        decreases v.len() - i,
    {
        let c = v[i];
        push_char(&mut r, if c == '\n' { ' ' } else { c });
        i = i + 1;
        assert(r@ =~= replace_char(v@.take(i as int), '\n', ' '));
    }
    assert(v@.take(v@.len() as int) =~= v@);
    r
}

/// Whether `needle` occurs in `hay` as a contiguous run.
pub open spec fn is_substring(hay: Seq<char>, needle: Seq<char>) -> bool {
    exists|i: int|
        0 <= i && i + needle.len() <= hay.len() && #[trigger] hay.subrange(i, i + needle.len())
            == needle
}

fn matches_at(hay: &Vec<char>, needle: &Vec<char>, i: usize) -> (r: bool)
    requires
        i + needle@.len() <= hay@.len(),
    ensures
        r == (hay@.subrange(i as int, i + needle@.len()) == needle@),
{
    let mut k: usize = 0;
    while k < needle.len()
        invariant
            k <= needle@.len(),
            i + needle@.len() <= hay@.len(),
            hay@.len() == hay.len(),
            forall|m: int| 0 <= m < k ==> hay@[i + m] == needle@[m],
        decreases needle.len() - k,
    {
        if hay[i + k] != needle[k] {
            assert(hay@.subrange(i as int, i + needle@.len())[k as int] != needle@[k as int]);
            return false;
        }
        k = k + 1;
    }
    assert(hay@.subrange(i as int, i + needle@.len()) =~= needle@);
    true
}

/// Substring search on characters (`str::contains` with a string pattern).
pub fn contains_chars(hay: &Vec<char>, needle: &Vec<char>) -> (r: bool)
    ensures
        r == is_substring(hay@, needle@),
{
    if needle.len() > hay.len() {
        return false;
    }
    let last = hay.len() - needle.len();
    let mut i: usize = 0;
    while i <= last
        invariant
            last == hay@.len() - needle@.len(),
            forall|j: int|
                0 <= j < i ==> #[trigger] hay@.subrange(j, j + needle@.len()) != needle@,
        decreases last + 1 - i,
    {
        if matches_at(hay, needle, i) {
            return true;
        }
        if i == last {
            return false;
        }
        i = i + 1;
    }
    false
}

/// Case-insensitive substring test: the lowercase needle occurs in the
/// lowercase haystack.
pub fn contains_ci(haystack: &str, needle: &str) -> (r: bool)
    ensures
        r == is_substring(lowercase(haystack@), lowercase(needle@)),
        all_ascii(haystack@) && all_ascii(needle@) ==> r == is_substring(
            ascii_lower_seq(haystack@),
            ascii_lower_seq(needle@),
        ),
        all_ascii(haystack@) && all_ascii(needle@) && is_substring(haystack@, needle@) ==> r,
{
    let h = to_lowercase(haystack);
    let n = to_lowercase(needle);
    let hv = chars_of(h.as_str());
    let nv = chars_of(n.as_str());
    proof {
        if all_ascii(haystack@) && all_ascii(needle@) && is_substring(haystack@, needle@) {
            lemma_lower_keeps_substring(haystack@, needle@);
        }
    }
    contains_chars(&hv, &nv)
}

/// A literal occurrence is also an occurrence after lowering both texts.
pub proof fn lemma_lower_keeps_substring(hay: Seq<char>, needle: Seq<char>)
    requires
        is_substring(hay, needle),
    ensures
        is_substring(ascii_lower_seq(hay), ascii_lower_seq(needle)),
{
    let i = choose|i: int|
        0 <= i && i + needle.len() <= hay.len() && #[trigger] hay.subrange(i, i + needle.len())
            == needle;
    let lh = ascii_lower_seq(hay);
    let ln = ascii_lower_seq(needle);
    assert forall|k: int| 0 <= k < ln.len() implies lh.subrange(i, i + needle.len())[k] == ln[k] by {
        assert(hay.subrange(i, i + needle.len())[k] == needle[k]);
        assert(hay[i + k] == needle[k]);
    }
    assert(lh.subrange(i, i + ln.len()) =~= ln);
}

/// Whether `s` begins with `p`.
pub open spec fn has_prefix(s: Seq<char>, p: Seq<char>) -> bool {
    p.len() <= s.len() && s.take(p.len() as int) == p
}

/// `str::starts_with` with a string pattern.
pub fn starts_with(s: &str, p: &str) -> (r: bool)
    ensures
        r == has_prefix(s@, p@),
{
    let v = chars_of(s);
    let w = chars_of(p);
    if w.len() > v.len() {
        return false;
    }
    let r = matches_at(&v, &w, 0);
    assert(v@.subrange(0, w@.len() as int) =~= v@.take(w@.len() as int));
    r
}

/// `s` without its first character when that character is `c`
/// (`strip_prefix(c)`), else `None`.
pub open spec fn strip_char(s: Seq<char>, c: char) -> Option<Seq<char>> {
    if s.len() > 0 && s[0] == c {
        Some(s.drop_first())
    } else {
        None
    }
}

pub fn strip_prefix_char(s: &str, c: char) -> (r: Option<String>)
    ensures
        r matches Some(t) ==> strip_char(s@, c) == Some(t@),
        r is None ==> strip_char(s@, c) is None,
{
    let v = chars_of(s);
    if v.len() > 0 && v[0] == c {
        let t = slice_chars(&v, 1, v.len());
        assert(t@ =~= s@.drop_first());
        Some(string_of(&t))
    } else {
        None
    }
}

/// ASCII letters and digits (`char::is_ascii_alphanumeric`).
pub open spec fn is_ascii_alnum(c: char) -> bool {
    ('0' <= c <= '9') || ('A' <= c <= 'Z') || ('a' <= c <= 'z')
}

/// A raw conversation id: starts with `C`, `G` or `D`, and is made of ASCII
/// letters and digits only.
pub open spec fn channel_id_like(s: Seq<char>) -> bool {
    &&& s.len() > 0
    &&& (s[0] == 'C' || s[0] == 'G' || s[0] == 'D')
    &&& forall|i: int| 0 <= i < s.len() ==> is_ascii_alnum(#[trigger] s[i])
}

pub fn is_channel_id(s: &str) -> (r: bool)
    ensures
        r == channel_id_like(s@),
{
    let v = chars_of(s);
    if v.len() == 0 {
        return false;
    }
    let c0 = v[0];
    if !(c0 == 'C' || c0 == 'G' || c0 == 'D') {
        return false;
    }
    let mut i: usize = 0;
    while i < v.len()
        invariant
            i <= v@.len(),
            v@ == s@,
            forall|k: int| 0 <= k < i ==> is_ascii_alnum(#[trigger] v@[k]),
        decreases v.len() - i,
    {
        let c = v[i];
        if !(('0' <= c && c <= '9') || ('A' <= c && c <= 'Z') || ('a' <= c && c <= 'z')) {
            return false;
        }
        i = i + 1;
    }
    true
}

} // verus!

//! Self-update: which release asset fits the host, where a release's assets
//! are, the checksum that `SHA256SUMS` gives for an asset, whether a download
//! matches it, and the daily "newer version available" notice.

use vstd::prelude::*;
use vstd::utf8::{valid_utf8, decode_utf8};
use crate::api::{str_or, str_or_else};
use crate::digest::{sha256_hex, sha256_hex_of, utf8_text, utf8_error};
use crate::error::ScliError;
use crate::json::{Json, JsonNumber, JsonV, at, as_str, as_u64, as_array, elems_view, lemma_elems_view, obj_set, json_str};
use crate::listing::array_or_empty;
use crate::text::{
    owned, concat2, same_text, chars_of, slice_chars, string_of, trim_chars, trim_ws, lowercase,
    to_lowercase,
};
use crate::version::{is_newer, newer_than};

verus! {

// ---------------------------------------------------------------------------
// The asset for this host
// ---------------------------------------------------------------------------

/// Which release asset fits a host.
pub enum AssetChoice {
    Name(Seq<char>),
    BadOs,
    BadArch,
    MacIntel,
}

pub open spec fn os_part(os: Seq<char>) -> Option<Seq<char>> {
    if os == "linux"@ {
        Some("linux"@)
    } else if os == "macos"@ {
        Some("darwin"@)
    } else {
        None
    }
}

pub open spec fn arch_part(arch: Seq<char>) -> Option<Seq<char>> {
    if arch == "x86_64"@ {
        Some("amd64"@)
    } else if arch == "aarch64"@ {
        Some("arm64"@)
    } else {
        None
    }
}

/// `scli-{os}-{arch}` for the platforms that releases are built for: Linux
/// on x86_64 or aarch64, macOS on aarch64 only.
pub open spec fn asset_choice(os: Seq<char>, arch: Seq<char>) -> AssetChoice {
    match os_part(os) {
        None => AssetChoice::BadOs,
        Some(o) => match arch_part(arch) {
            None => AssetChoice::BadArch,
            Some(a) => if o == "darwin"@ && a == "amd64"@ {
                AssetChoice::MacIntel
            } else {
                AssetChoice::Name("scli-"@ + o + "-"@ + a)
            },
        },
    }
}

pub fn asset_name(os: &str, arch: &str) -> (r: Result<String, ScliError>)
    ensures
        match asset_choice(os@, arch@) {
            AssetChoice::Name(n) => r matches Ok(x) && x@ == n,
            AssetChoice::BadOs => r matches Err(ScliError::UnsupportedOs(o)) && o@ == os@,
            AssetChoice::BadArch => r matches Err(ScliError::UnsupportedArch(a)) && a@ == arch@,
            AssetChoice::MacIntel => r == Err::<String, ScliError>(ScliError::NoMacIntel),
        },
{
    let o = if same_text(os, "linux") {
        "linux"
    } else if same_text(os, "macos") {
        "darwin"
    } else {
        return Err(ScliError::UnsupportedOs(owned(os)));
    };
    let a = if same_text(arch, "x86_64") {
        "amd64"
    } else if same_text(arch, "aarch64") {
        "arm64"
    } else {
        return Err(ScliError::UnsupportedArch(owned(arch)));
    };
    if same_text(o, "darwin") && same_text(a, "amd64") {
        return Err(ScliError::NoMacIntel);
    }
    proof {
        reveal_strlit("linux");
        reveal_strlit("darwin");
        reveal_strlit("amd64");
        reveal_strlit("arm64");
        assert("linux"@ != "darwin"@) by {
            assert("linux"@.len() != "darwin"@.len());
        }
        assert("arm64"@ != "amd64"@) by {
            assert("arm64"@[1] != "amd64"@[1]);
        }
    }
    let mut n = owned("scli-");
    n.append(o);
    n.append("-");
    n.append(a);
    Ok(n)
}

// ---------------------------------------------------------------------------
// The release
// ---------------------------------------------------------------------------

/// The release's `tag_name`.
pub fn release_tag(rel: &Json) -> (r: Result<String, ScliError>)
    ensures
        match rel@.at("tag_name"@).as_str() {
            Some(t) => r matches Ok(x) && x@ == t,
            None => r == Err::<String, ScliError>(ScliError::NoTagName),
        },
{
    match as_str(at(Some(rel), "tag_name")) {
        Some(t) => Ok(t.clone()),
        None => Err(ScliError::NoTagName),
    }
}

/// The download URL of the first asset named `name`, when that asset has one.
pub open spec fn asset_url_in(assets: Seq<JsonV>, name: Seq<char>) -> Option<Seq<char>>
    decreases assets.len(),
{
    if assets.len() == 0 {
        None
    } else if assets[0].at("name"@).as_str() == Some(name) {
        assets[0].at("browser_download_url"@).as_str()
    } else {
        asset_url_in(assets.drop_first(), name)
    }
}

pub open spec fn asset_url_of(rel: JsonV, name: Seq<char>) -> Option<Seq<char>> {
    asset_url_in(array_or_empty(rel.at("assets"@)), name)
}

#[verifier::loop_isolation(false)]
pub fn asset_url(rel: &Json, name: &str) -> (r: Option<String>)
    ensures
        match r {
            Some(u) => asset_url_of(rel@, name@) == Some(u@),
            None => asset_url_of(rel@, name@) is None,
        },
{
    match as_array(at(Some(rel), "assets")) {
        Some(a) => {
            let ghost es = elems_view(a@);
            proof {
                lemma_elems_view(a@);
                assert(es.skip(0) =~= es);
            }
            let mut i: usize = 0;
            while i < a.len()
                invariant
                    i <= a@.len(),
                    es == elems_view(a@),
                    es.len() == a@.len(),
                    forall|j: int| 0 <= j < a@.len() ==> #[trigger] es[j] == a@[j]@,
                    asset_url_in(es, name@) == asset_url_in(es.skip(i as int), name@),
                decreases a.len() - i,
            {
                let x = &a[i];
                assert(es.skip(i as int)[0] == x@);
                let matches = match as_str(at(Some(x), "name")) {
                    Some(n) => same_text(n.as_str(), name),
                    None => false,
                };
                if matches {
                    assert(es.skip(i as int)[0].at("name"@).as_str() == Some(name@));
                    return match as_str(at(Some(x), "browser_download_url")) {
                        Some(u) => Some(u.clone()),
                        None => None,
                    };
                }
                assert(es.skip(i as int).drop_first() =~= es.skip(i + 1));
                i = i + 1;
            }
            None
        },
        None => None,
    }
}

/// The URLs of the asset and of the `SHA256SUMS` file of a release.
pub fn update_urls(rel: &Json, tag: &str, want: &str) -> (r: Result<(String, String), ScliError>)
    ensures
        match (asset_url_of(rel@, want@), asset_url_of(rel@, "SHA256SUMS"@)) {
            (Some(b), Some(s)) => r matches Ok((x, y)) && x@ == b && y@ == s,
            (None, _) => r matches Err(ScliError::NoAsset { tag: t, want: w }) && t@ == tag@ && w@
                == want@,
            (Some(_), None) => r matches Err(ScliError::NoChecksums(t)) && t@ == tag@,
        },
{
    let bin = match asset_url(rel, want) {
        Some(u) => u,
        None => {
            return Err(ScliError::NoAsset { tag: owned(tag), want: owned(want) });
        },
    };
    let sums = match asset_url(rel, "SHA256SUMS") {
        Some(u) => u,
        None => {
            return Err(ScliError::NoChecksums(owned(tag)));
        },
    };
    Ok((bin, sums))
}

// ---------------------------------------------------------------------------
// SHA256SUMS
// ---------------------------------------------------------------------------

/// A line without the `\r` of a `\r\n` ending.
pub open spec fn strip_cr(l: Seq<char>) -> Seq<char> {
    if l.len() > 0 && l.last() == '\r' {
        l.drop_last()
    } else {
        l
    }
}

/// `cur + s` cut into lines (`str::lines`): at each `\n`, dropping a `\r`
/// before it; the last line needs no `\n`, and an empty last line is none.
pub open spec fn lines_acc(cur: Seq<char>, s: Seq<char>) -> Seq<Seq<char>>
    decreases s.len(),
{
    if s.len() == 0 {
        if cur.len() == 0 {
            seq![]
        } else {
            seq![cur]
        }
    } else if s[0] == '\n' {
        seq![strip_cr(cur)] + lines_acc(seq![], s.drop_first())
    } else {
        lines_acc(cur.push(s[0]), s.drop_first())
    }
}

pub open spec fn lines_of(s: Seq<char>) -> Seq<Seq<char>> {
    lines_acc(seq![], s)
}

/// Index of the first two consecutive spaces, or -1.
pub open spec fn pair_space_at(l: Seq<char>) -> int
    decreases l.len(),
{
    if l.len() < 2 {
        -1
    } else if l[0] == ' ' && l[1] == ' ' {
        0
    } else {
        let r = pair_space_at(l.drop_first());
        if r < 0 {
            -1
        } else {
            r + 1
        }
    }
}

/// Index of the first space, or -1.
pub open spec fn space_at(l: Seq<char>) -> int
    decreases l.len(),
{
    if l.len() < 1 {
        -1
    } else if l[0] == ' ' {
        0
    } else {
        let r = space_at(l.drop_first());
        if r < 0 {
            -1
        } else {
            r + 1
        }
    }
}

/// A line of `SHA256SUMS` split into checksum and file name: at the first
/// two spaces, else at the first space.
pub open spec fn sums_split(l: Seq<char>) -> Option<(Seq<char>, Seq<char>)> {
    let i = pair_space_at(l);
    if i >= 0 {
        Some((l.take(i), l.skip(i + 2)))
    } else {
        let j = space_at(l);
        if j >= 0 {
            Some((l.take(j), l.skip(j + 1)))
        } else {
            None
        }
    }
}

/// The checksum a line gives for `want`: its trimmed, lowercased sum when
/// its trimmed file name is `want`.
pub open spec fn line_checksum(l: Seq<char>, want: Seq<char>) -> Option<Seq<char>> {
    match sums_split(l) {
        Some((sum, file)) => if trim_ws(file) == want {
            Some(lowercase(trim_ws(sum)))
        } else {
            None
        },
        None => None,
    }
}

/// The checksum of the first line that names `want`.
pub open spec fn checksum_in(ls: Seq<Seq<char>>, want: Seq<char>) -> Option<Seq<char>>
    decreases ls.len(),
{
    if ls.len() == 0 {
        None
    } else {
        match line_checksum(ls[0], want) {
            Some(c) => Some(c),
            None => checksum_in(ls.drop_first(), want),
        }
    }
}

proof fn lemma_pair_space(l: Seq<char>)
    ensures
        -1 <= pair_space_at(l),
        pair_space_at(l) >= 0 ==> pair_space_at(l) + 2 <= l.len(),
        pair_space_at(l) >= 0 ==> l[pair_space_at(l)] == ' ' && l[pair_space_at(l) + 1] == ' ',
        forall|j: int|
            0 <= j < l.len() - 1 && (pair_space_at(l) < 0 || j < pair_space_at(l)) ==> !(
            #[trigger] l[j] == ' ' && l[j + 1] == ' '),
    decreases l.len(),
{
    if l.len() >= 2 && !(l[0] == ' ' && l[1] == ' ') {
        lemma_pair_space(l.drop_first());
        assert forall|j: int|
            0 <= j < l.len() - 1 && (pair_space_at(l) < 0 || j < pair_space_at(l)) implies !(
            #[trigger] l[j] == ' ' && l[j + 1] == ' ') by {
            if j > 0 {
                assert(l[j] == l.drop_first()[j - 1]);
                assert(l[j + 1] == l.drop_first()[j]);
            }
        }
    }
}

proof fn lemma_space(l: Seq<char>)
    ensures
        -1 <= space_at(l) < l.len(),
        space_at(l) >= 0 ==> l[space_at(l)] == ' ',
        forall|j: int| 0 <= j < l.len() && (space_at(l) < 0 || j < space_at(l)) ==> #[trigger] l[j] != ' ',
    decreases l.len(),
{
    if l.len() >= 1 && l[0] != ' ' {
        lemma_space(l.drop_first());
        assert forall|j: int| 0 <= j < l.len() && (space_at(l) < 0 || j < space_at(l)) implies #[trigger] l[j]
            != ' ' by {
            if j > 0 {
                assert(l[j] == l.drop_first()[j - 1]);
            }
        }
    }
}

proof fn lemma_first_unique_pair(l: Seq<char>, i: int)
    requires
        0 <= i < l.len() - 1,
        l[i] == ' ' && l[i + 1] == ' ',
        forall|j: int| 0 <= j < i ==> !(#[trigger] l[j] == ' ' && l[j + 1] == ' '),
    ensures
        pair_space_at(l) == i,
{
    lemma_pair_space(l);
    if pair_space_at(l) < 0 || pair_space_at(l) > i {
        assert(!(l[i] == ' ' && l[i + 1] == ' '));
    }
    if 0 <= pair_space_at(l) < i {
        let p = pair_space_at(l);
        assert(!(l[p] == ' ' && l[p + 1] == ' '));
    }
}

#[verifier::loop_isolation(false)]
fn find_pair_space(l: &Vec<char>) -> (r: Option<usize>)
    ensures
        match r {
            Some(i) => i == pair_space_at(l@) && i >= 0 && i + 2 <= l@.len(),
            None => pair_space_at(l@) < 0,
        },
{
    proof {
        lemma_pair_space(l@);
    }
    let mut i: usize = 0;
    while l.len() >= 2 && i < l.len() - 1
        invariant
            i <= l@.len(),
            forall|j: int| 0 <= j < i && j < l@.len() - 1 ==> !(#[trigger] l@[j] == ' ' && l@[j + 1] == ' '),
            l.len() == l@.len(),
        decreases l.len() - i,
    {
        if l[i] == ' ' && l[i + 1] == ' ' {
            proof {
                lemma_first_unique_pair(l@, i as int);
            }
            return Some(i);
        }
        i = i + 1;
    }
    proof {
        if pair_space_at(l@) >= 0 {
            let p = pair_space_at(l@);
            assert(!(l@[p] == ' ' && l@[p + 1] == ' '));
        }
    }
    None
}

#[verifier::loop_isolation(false)]
fn find_space(l: &Vec<char>) -> (r: Option<usize>)
    ensures
        match r {
            Some(i) => i == space_at(l@) && i >= 0 && i < l@.len(),
            None => space_at(l@) < 0,
        },
{
    proof {
        lemma_space(l@);
    }
    let mut i: usize = 0;
    while i < l.len()
        invariant
            i <= l@.len(),
            forall|j: int| 0 <= j < i ==> #[trigger] l@[j] != ' ',
        decreases l.len() - i,
    {
        if l[i] == ' ' {
            proof {
                if space_at(l@) < 0 || space_at(l@) > i {
                    assert(l@[i as int] != ' ');
                }
                if 0 <= space_at(l@) < i {
                    assert(l@[space_at(l@)] != ' ');
                }
            }
            return Some(i);
        }
        i = i + 1;
    }
    proof {
        if space_at(l@) >= 0 {
            assert(l@[space_at(l@)] != ' ');
        }
    }
    None
}

/// The checksum a line gives for `want` (`line_checksum`).
fn line_checksum_exec(l: &Vec<char>, want: &str) -> (r: Option<String>)
    ensures
        match r {
            Some(c) => line_checksum(l@, want@) == Some(c@),
            None => line_checksum(l@, want@) is None,
        },
{
    let n = l.len();
    let (sum, file) = match find_pair_space(l) {
        Some(i) => (slice_chars(l, 0, i), slice_chars(l, i + 2, n)),
        None => match find_space(l) {
            Some(j) => (slice_chars(l, 0, j), slice_chars(l, j + 1, n)),
            None => {
                return None;
            },
        },
    };
    proof {
        assert(sums_split(l@) == Some((sum@, file@)));
    }
    let f = string_of(&trim_chars(&file));
    if same_text(f.as_str(), want) {
        let t = string_of(&trim_chars(&sum));
        Some(to_lowercase(t.as_str()))
    } else {
        None
    }
}

/// The checksum that a `SHA256SUMS` text gives for `want`.
pub open spec fn checksum_of(text: Seq<char>, want: Seq<char>) -> Option<Seq<char>> {
    checksum_in(lines_of(text), want)
}

fn strip_cr_exec(l: Vec<char>) -> (r: Vec<char>)
    ensures
        r@ == strip_cr(l@),
{
    if l.len() > 0 && l[l.len() - 1] == '\r' {
        slice_chars(&l, 0, l.len() - 1)
    } else {
        l
    }
}

/// The expected checksum of an asset from the `SHA256SUMS` download.
pub fn expected_checksum(sums: Vec<u8>, want: &str) -> (r: Result<String, ScliError>)
    ensures
        !valid_utf8(sums@) ==> (r matches Err(ScliError::ChecksumsNotUtf8(d)) && d@ == utf8_error(
            sums@,
        )),
        valid_utf8(sums@) ==> match checksum_of(decode_utf8(sums@), want@) {
            Some(c) => r matches Ok(x) && x@ == c,
            None => r matches Err(ScliError::NoChecksum(w)) && w@ == want@,
        },
{
    let text = match utf8_text(sums) {
        Ok(t) => t,
        Err(d) => {
            return Err(ScliError::ChecksumsNotUtf8(d));
        },
    };
    let t = chars_of(text.as_str());
    let mut cur: Vec<char> = Vec::new();
    let mut i: usize = 0;
    proof {
        assert(t@.skip(0) =~= t@);
        assert(cur@ =~= Seq::<char>::empty());
    }
    while i < t.len()
        invariant
            i <= t@.len(),
            valid_utf8(sums@),
            t@ == decode_utf8(sums@),
            checksum_of(t@, want@) == checksum_in(lines_acc(cur@, t@.skip(i as int)), want@),
        decreases t.len() - i,
    {
        let c = t[i];
        let ghost rest = t@.skip(i as int);
        assert(rest[0] == c);
        assert(rest.drop_first() =~= t@.skip(i + 1));
        if c == '\n' {
            let line = strip_cr_exec(cur);
            let ghost lv = line@;
            match line_checksum_exec(&line, want) {
                Some(s) => {
                    proof {
                        let ls = seq![lv] + lines_acc(seq![], t@.skip(i + 1));
                        assert(ls[0] == lv);
                    }
                    return Ok(s);
                },
                None => {
                    proof {
                        let ls = seq![lv] + lines_acc(seq![], t@.skip(i + 1));
                        assert(ls.drop_first() =~= lines_acc(seq![], t@.skip(i + 1)));
                    }
                },
            }
            cur = Vec::new();
            proof {
                assert(cur@ =~= Seq::<char>::empty());
            }
        } else {
            cur.push(c);
        }
        i = i + 1;
    }
    proof {
        assert(t@.skip(t@.len() as int) =~= Seq::<char>::empty());
        if cur@.len() == 0 {
            assert(lines_acc(cur@, Seq::<char>::empty()) =~= Seq::<Seq<char>>::empty());
        } else {
            assert(lines_acc(cur@, Seq::<char>::empty()) =~= seq![cur@]);
        }
    }
    if cur.len() > 0 {
        match line_checksum_exec(&cur, want) {
            Some(s) => {
                return Ok(s);
            },
            None => {
                proof {
                    assert(seq![cur@].drop_first() =~= Seq::<Seq<char>>::empty());
                    assert(seq![cur@][0] == cur@);
                    assert(checksum_in(Seq::<Seq<char>>::empty(), want@) is None);
                    assert(checksum_in(seq![cur@], want@) is None);
                }
            },
        }
    }
    assert(checksum_of(t@, want@) is None);
    assert(t@ == decode_utf8(sums@));
    Err(ScliError::NoChecksum(owned(want)))
}

/// The verdict on a download whose SHA-256 is `got` (lowercase hex): it must
/// be the expected checksum.
pub fn checksum_verdict(got: String, want: &str, expected: &str) -> (r: Result<(), ScliError>)
    ensures
        got@ == expected@ <==> r is Ok,
        r matches Err(e) ==> e matches ScliError::ChecksumMismatch { want: w, expected: x, got: g }
            && w@ == want@ && x@ == expected@ && g@ == got@,
{
    if same_text(got.as_str(), expected) {
        Ok(())
    } else {
        Err(ScliError::ChecksumMismatch { want: owned(want), expected: owned(expected), got })
    }
}

/// Checks a downloaded asset against its expected checksum.
pub fn verify_checksum(bytes: &[u8], want: &str, expected: &str) -> (r: Result<(), ScliError>)
    ensures
        sha256_hex(bytes@) == expected@ <==> r is Ok,
        r matches Err(e) ==> e matches ScliError::ChecksumMismatch { want: w, expected: x, got: g }
            && w@ == want@ && x@ == expected@ && g@ == sha256_hex(bytes@),
{
    checksum_verdict(sha256_hex_of(bytes), want, expected)
}

// ---------------------------------------------------------------------------
// Deciding to update
// ---------------------------------------------------------------------------

/// What `write update` does once it knows the latest tag.
#[derive(Debug, Clone, PartialEq)]
pub enum UpdateStep {
    /// Nothing newer: print this line.
    UpToDate(String),
    /// `--check` and something newer: print this line.
    Available(String),
    /// Install: report this line on stderr, then download and check.
    Install(String),
}

pub enum UpdateStepV {
    UpToDate(Seq<char>),
    Available(Seq<char>),
    Install(Seq<char>),
}

impl View for UpdateStep {
    type V = UpdateStepV;

    open spec fn view(&self) -> UpdateStepV {
        match self {
            UpdateStep::UpToDate(s) => UpdateStepV::UpToDate(s@),
            UpdateStep::Available(s) => UpdateStepV::Available(s@),
            UpdateStep::Install(s) => UpdateStepV::Install(s@),
        }
    }
}

/// The decision: up to date unless the tag is newer; with `--check`, only
/// report; else install the asset `want`.
pub open spec fn update_step_of(tag: Seq<char>, current: Seq<char>, check_only: bool, want: Seq<char>) -> UpdateStepV {
    if !newer_than(tag, current) {
        UpdateStepV::UpToDate("scli is up to date (v"@ + current + ")"@)
    } else if check_only {
        UpdateStepV::Available(
            tag + " available (you have v"@ + current + ") — run 'scli write update'"@,
        )
    } else {
        UpdateStepV::Install("updating scli v"@ + current + " -> "@ + tag + " ("@ + want + ")"@)
    }
}

pub fn update_step(tag: &str, current: &str, check_only: bool, want: &str) -> (r: UpdateStep)
    ensures
        r@ == update_step_of(tag@, current@, check_only, want@),
{
    if !is_newer(tag, current) {
        let mut l = owned("scli is up to date (v");
        l.append(current);
        l.append(")");
        UpdateStep::UpToDate(l)
    } else if check_only {
        let mut l = owned(tag);
        l.append(" available (you have v");
        l.append(current);
        l.append(") — run 'scli write update'");
        UpdateStep::Available(l)
    } else {
        let mut l = owned("updating scli v");
        l.append(current);
        l.append(" -> ");
        l.append(tag);
        l.append(" (");
        l.append(want);
        l.append(")");
        UpdateStep::Install(l)
    }
}

// ---------------------------------------------------------------------------
// The daily notice
// ---------------------------------------------------------------------------

/// How often the latest release is looked up for the notice, in seconds.
pub const NOTICE_INTERVAL_SECS: u64 = 86400;

/// Where the notice gets the latest tag from.
#[derive(Debug, Clone, PartialEq)]
pub enum NoticePlan {
    /// The notice is switched off.
    Off,
    /// Checked less than a day ago: use the recorded tag (if any).
    Cached(Option<String>),
    /// Look the latest release up (and record it).
    Fetch,
}

pub enum NoticePlanV {
    Off,
    Cached(Option<Seq<char>>),
    Fetch,
}

impl View for NoticePlan {
    type V = NoticePlanV;

    open spec fn view(&self) -> NoticePlanV {
        match self {
            NoticePlan::Off => NoticePlanV::Off,
            NoticePlan::Cached(Some(s)) => NoticePlanV::Cached(Some(s@)),
            NoticePlan::Cached(None) => NoticePlanV::Cached(None),
            NoticePlan::Fetch => NoticePlanV::Fetch,
        }
    }
}

/// Whether the notice is on: `SCLI_NO_UPDATE_CHECK` is not `1`.
pub open spec fn notice_on(switch: Option<Seq<char>>) -> bool {
    switch != Some("1"@)
}

/// The first step of the notice, before anything is read: whether it is on
/// at all.
pub fn notice_enabled(switch: Option<&str>) -> (r: bool)
    ensures
        r == notice_on(crate::config::opt_s(switch)),
{
    match switch {
        Some(v) => !same_text(v, "1"),
        None => true,
    }
}

/// Off when `SCLI_NO_UPDATE_CHECK` is `1`; else the recorded tag when the
/// record's `checked` time is less than a day before `now`; else fetch.
pub open spec fn notice_plan_of(switch: Option<Seq<char>>, now: u64, record: JsonV) -> NoticePlanV {
    if switch == Some("1"@) {
        NoticePlanV::Off
    } else {
        let last: u64 = match record.at("checked"@).as_u64() {
            Some(n) => n,
            None => 0,
        };
        if (if now >= last {
            now - last
        } else {
            0
        }) < NOTICE_INTERVAL_SECS {
            NoticePlanV::Cached(record.at("latest"@).as_str())
        } else {
            NoticePlanV::Fetch
        }
    }
}

pub fn notice_plan(switch: Option<&str>, now: u64, record: &Json) -> (r: NoticePlan)
    ensures
        r@ == notice_plan_of(crate::config::opt_s(switch), now, record@),
{
    match switch {
        Some(v) => if same_text(v, "1") {
            return NoticePlan::Off;
        },
        None => {},
    }
    let last = match as_u64(at(Some(record), "checked")) {
        Some(n) => n,
        None => 0,
    };
    let age: u64 = if now >= last {
        now - last
    } else {
        0
    };
    if age < NOTICE_INTERVAL_SECS {
        match as_str(at(Some(record), "latest")) {
            Some(t) => NoticePlan::Cached(Some(t.clone())),
            None => NoticePlan::Cached(None),
        }
    } else {
        NoticePlan::Fetch
    }
}

/// The record written after a lookup: `{"checked": now, "latest": tag}`.
pub open spec fn notice_record_of(now: u64, tag: Seq<char>) -> JsonV {
    JsonV::Object(seq![("checked"@, JsonV::PosInt(now)), ("latest"@, JsonV::Str(tag))])
}

pub fn notice_record(now: u64, tag: &str) -> (r: Json)
    ensures
        r@ == notice_record_of(now, tag@),
{
    let mut m: Vec<(String, Json)> = Vec::new();
    m.push((owned("checked"), Json::Number(JsonNumber::PosInt(now))));
    m.push((owned("latest"), json_str(tag)));
    proof {
        crate::json::lemma_members_view(m@);
        assert(crate::json::members_view(m@) =~= seq![
            ("checked"@, JsonV::PosInt(now)),
            ("latest"@, JsonV::Str(tag@)),
        ]);
    }
    Json::Object(m)
}

/// The latest tag from a release lookup, if it names one.
pub fn latest_tag(rel: &Json) -> (r: Option<String>)
    ensures
        match r {
            Some(t) => rel@.at("tag_name"@).as_str() == Some(t@),
            None => rel@.at("tag_name"@).as_str() is None,
        },
{
    match as_str(at(Some(rel), "tag_name")) {
        Some(t) => Some(t.clone()),
        None => None,
    }
}

/// The notice for a latest tag, when it is newer than the running version.
pub open spec fn notice_line_of(latest: Option<Seq<char>>, current: Seq<char>) -> Option<Seq<char>> {
    match latest {
        Some(t) => if newer_than(t, current) {
            Some("scli: "@ + t + " available (you have v"@ + current + ") — run 'scli write update'"@)
        } else {
            None
        },
        None => None,
    }
}

pub fn notice_line(latest: Option<&str>, current: &str) -> (r: Option<String>)
    ensures
        crate::cache::opt_str(r) == notice_line_of(crate::config::opt_s(latest), current@),
{
    match latest {
        Some(t) => if is_newer(t, current) {
            let mut l = owned("scli: ");
            l.append(t);
            l.append(" available (you have v");
            l.append(current);
            l.append(") — run 'scli write update'");
            Some(l)
        } else {
            None
        },
        None => None,
    }
}

/// Once a lookup is recorded, every notice in the following day uses the
/// recorded tag and makes no lookup.
pub proof fn law_notice_at_most_daily(now: u64, later: u64, tag: Seq<char>)
    requires
        now <= later,
        later - now < NOTICE_INTERVAL_SECS,
    ensures
        notice_plan_of(None, later, notice_record_of(now, tag)) == NoticePlanV::Cached(Some(tag)),
{
    reveal_strlit("checked");
    reveal_strlit("latest");
    assert("checked"@ != "latest"@) by {
        assert("checked"@.len() != "latest"@.len());
    }
    let m = seq![("checked"@, JsonV::PosInt(now)), ("latest"@, JsonV::Str(tag))];
    assert(m.drop_first() =~= seq![("latest"@, JsonV::Str(tag))]);
    assert(crate::json::member(m.drop_first(), "latest"@) == Some(JsonV::Str(tag)));
}

/// `SCLI_NO_UPDATE_CHECK=1` switches the notice off whatever was recorded:
/// the first step says so before any record is read, and the plan agrees
/// with it for every record.
pub proof fn law_notice_switch(switch: Option<Seq<char>>, now: u64, record: JsonV)
    ensures
        !notice_on(Some("1"@)),
        (notice_plan_of(switch, now, record) == NoticePlanV::Off) <==> !notice_on(switch),
{
}

} // verus!

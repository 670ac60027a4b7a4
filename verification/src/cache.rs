//! The local id<->name cache of one workspace: its content, how it is written
//! to and read back from JSON, when it is fresh, and the lookups and searches
//! made on it.

use vstd::prelude::*;
use crate::json::{
    Json, JsonNumber, JsonV, view_opt, at, as_str, as_u64, as_array, elems_view, members_view,
    lemma_elems_view, lemma_members_view,
};
use crate::api::{str_or, str_or_else, ApiCall, Client, conversations_list, users_list};
use crate::listing::next_cursor_of;
use crate::listing::next_cursor;
use crate::json::as_bool;
use crate::listing::{array_or_empty, strings_view};
use crate::text::{owned, same_text, contains_ci, is_substring, lowercase, fmt_usize, dec_nat};

verus! {

/// How long a cache stays fresh, in seconds.
pub const CACHE_TTL_SECS: u64 = 300;

/// A channel: id and name.
#[derive(Debug, Clone, PartialEq)]
pub struct Chan {
    pub id: String,
    pub name: String,
}

/// A user: id, user name, real name, display name.
#[derive(Debug, Clone, PartialEq)]
pub struct Usr {
    pub id: String,
    pub name: String,
    pub real_name: String,
    pub display: String,
}

/// The cache: when it was fetched (seconds since the epoch), the channels
/// and the users.
#[derive(Debug, Clone, PartialEq)]
pub struct Maps {
    pub fetched: u64,
    pub channels: Vec<Chan>,
    pub users: Vec<Usr>,
}

pub struct ChanV {
    pub id: Seq<char>,
    pub name: Seq<char>,
}

pub struct UsrV {
    pub id: Seq<char>,
    pub name: Seq<char>,
    pub real_name: Seq<char>,
    pub display: Seq<char>,
}

pub struct MapsV {
    pub fetched: u64,
    pub channels: Seq<ChanV>,
    pub users: Seq<UsrV>,
}

impl View for Chan {
    type V = ChanV;

    open spec fn view(&self) -> ChanV {
        ChanV { id: self.id@, name: self.name@ }
    }
}

impl View for Usr {
    type V = UsrV;

    open spec fn view(&self) -> UsrV {
        UsrV { id: self.id@, name: self.name@, real_name: self.real_name@, display: self.display@ }
    }
}

pub open spec fn chans_view(v: Seq<Chan>) -> Seq<ChanV> {
    v.map_values(|c: Chan| c@)
}

pub open spec fn usrs_view(v: Seq<Usr>) -> Seq<UsrV> {
    v.map_values(|u: Usr| u@)
}

impl View for Maps {
    type V = MapsV;

    open spec fn view(&self) -> MapsV {
        MapsV {
            fetched: self.fetched,
            channels: chans_view(self.channels@),
            users: usrs_view(self.users@),
        }
    }
}

// ---------------------------------------------------------------------------
// JSON form
// ---------------------------------------------------------------------------

pub open spec fn chan_json(c: ChanV) -> JsonV {
    JsonV::Object(seq![("id"@, JsonV::Str(c.id)), ("name"@, JsonV::Str(c.name))])
}

pub open spec fn usr_json(u: UsrV) -> JsonV {
    JsonV::Object(
        seq![
            ("id"@, JsonV::Str(u.id)),
            ("name"@, JsonV::Str(u.name)),
            ("real"@, JsonV::Str(u.real_name)),
            ("display"@, JsonV::Str(u.display)),
        ],
    )
}

/// The cache file's JSON: `{"fetched", "channels": [{"id","name"}],
/// "users": [{"id","name","real","display"}]}`.
pub open spec fn maps_json(m: MapsV) -> JsonV {
    JsonV::Object(
        seq![
            ("fetched"@, JsonV::PosInt(m.fetched)),
            ("channels"@, JsonV::Array(m.channels.map_values(|c: ChanV| chan_json(c)))),
            ("users"@, JsonV::Array(m.users.map_values(|u: UsrV| usr_json(u)))),
        ],
    )
}

pub open spec fn chan_from(j: JsonV) -> ChanV {
    ChanV { id: str_or(j.at("id"@), ""@), name: str_or(j.at("name"@), ""@) }
}

pub open spec fn usr_from(j: JsonV) -> UsrV {
    UsrV {
        id: str_or(j.at("id"@), ""@),
        name: str_or(j.at("name"@), ""@),
        real_name: str_or(j.at("real"@), ""@),
        display: str_or(j.at("display"@), ""@),
    }
}

/// The cache read back from JSON; absent or mistyped fields read as 0 or
/// empty.
pub open spec fn maps_from(v: JsonV) -> MapsV {
    MapsV {
        fetched: match v.at("fetched"@).as_u64() {
            Some(n) => n,
            None => 0,
        },
        channels: array_or_empty(v.at("channels"@)).map_values(|c: JsonV| chan_from(c)),
        users: array_or_empty(v.at("users"@)).map_values(|u: JsonV| usr_from(u)),
    }
}

fn str_json(s: &String) -> (r: Json)
    ensures
        r@ == JsonV::Str(s@),
{
    Json::Str(s.clone())
}

fn object2(k1: &str, v1: Json, k2: &str, v2: Json) -> (r: Json)
    ensures
        r@ == JsonV::Object(seq![(k1@, v1@), (k2@, v2@)]),
{
    let mut m: Vec<(String, Json)> = Vec::new();
    m.push((owned(k1), v1));
    m.push((owned(k2), v2));
    proof {
        lemma_members_view(m@);
        assert(members_view(m@) =~= seq![(k1@, v1@), (k2@, v2@)]);
    }
    Json::Object(m)
}

fn chan_to_json(c: &Chan) -> (r: Json)
    ensures
        r@ == chan_json(c@),
{
    object2("id", str_json(&c.id), "name", str_json(&c.name))
}

fn usr_to_json(u: &Usr) -> (r: Json)
    ensures
        r@ == usr_json(u@),
{
    let mut m: Vec<(String, Json)> = Vec::new();
    m.push((owned("id"), str_json(&u.id)));
    m.push((owned("name"), str_json(&u.name)));
    m.push((owned("real"), str_json(&u.real_name)));
    m.push((owned("display"), str_json(&u.display)));
    proof {
        lemma_members_view(m@);
        assert(members_view(m@) =~= seq![
            ("id"@, JsonV::Str(u.id@)),
            ("name"@, JsonV::Str(u.name@)),
            ("real"@, JsonV::Str(u.real_name@)),
            ("display"@, JsonV::Str(u.display@)),
        ]);
    }
    Json::Object(m)
}

fn chan_from_json(j: &Json) -> (r: Chan)
    ensures
        r@ == chan_from(j@),
{
    Chan {
        id: owned(str_or_else(at(Some(j), "id"), "")),
        name: owned(str_or_else(at(Some(j), "name"), "")),
    }
}

fn usr_from_json(j: &Json) -> (r: Usr)
    ensures
        r@ == usr_from(j@),
{
    Usr {
        id: owned(str_or_else(at(Some(j), "id"), "")),
        name: owned(str_or_else(at(Some(j), "name"), "")),
        real_name: owned(str_or_else(at(Some(j), "real"), "")),
        display: owned(str_or_else(at(Some(j), "display"), "")),
    }
}

impl Maps {
    /// The cache as JSON (`maps_json`).
    pub fn to_json(&self) -> (r: Json)
        ensures
            r@ == maps_json(self@),
    {
        let mut cs: Vec<Json> = Vec::new();
        let mut i: usize = 0;
        while i < self.channels.len()
            invariant
                i <= self.channels@.len(),
                elems_view(cs@) == chans_view(self.channels@).take(i as int).map_values(
                    |c: ChanV| chan_json(c),
                ),
            decreases self.channels.len() - i,
        {
            let ghost before = cs@;
            cs.push(chan_to_json(&self.channels[i]));
            proof {
                assert(cs@.drop_last() =~= before);
                assert(chans_view(self.channels@).take(i + 1) =~= chans_view(
                    self.channels@,
                ).take(i as int).push(self.channels@[i as int]@));
                assert(elems_view(cs@) =~= chans_view(self.channels@).take(i + 1).map_values(
                    |c: ChanV| chan_json(c),
                ));
            }
            i = i + 1;
        }
        let mut us: Vec<Json> = Vec::new();
        let mut i: usize = 0;
        while i < self.users.len()
            invariant
                i <= self.users@.len(),
                elems_view(us@) == usrs_view(self.users@).take(i as int).map_values(
                    |u: UsrV| usr_json(u),
                ),
            decreases self.users.len() - i,
        {
            let ghost before = us@;
            us.push(usr_to_json(&self.users[i]));
            proof {
                assert(us@.drop_last() =~= before);
                assert(usrs_view(self.users@).take(i + 1) =~= usrs_view(self.users@).take(
                    i as int,
                ).push(self.users@[i as int]@));
                assert(elems_view(us@) =~= usrs_view(self.users@).take(i + 1).map_values(
                    |u: UsrV| usr_json(u),
                ));
            }
            i = i + 1;
        }
        proof {
            assert(chans_view(self.channels@).take(self.channels@.len() as int) =~= chans_view(
                self.channels@,
            ));
            assert(usrs_view(self.users@).take(self.users@.len() as int) =~= usrs_view(
                self.users@,
            ));
        }
        let mut m: Vec<(String, Json)> = Vec::new();
        m.push((owned("fetched"), Json::Number(JsonNumber::PosInt(self.fetched))));
        m.push((owned("channels"), Json::Array(cs)));
        m.push((owned("users"), Json::Array(us)));
        proof {
            lemma_members_view(m@);
            assert(members_view(m@) =~= seq![
                ("fetched"@, JsonV::PosInt(self.fetched)),
                ("channels"@, JsonV::Array(chans_view(self.channels@).map_values(|c: ChanV| chan_json(c)))),
                ("users"@, JsonV::Array(usrs_view(self.users@).map_values(|u: UsrV| usr_json(u)))),
            ]);
        }
        Json::Object(m)
    }

    /// The cache read back from JSON (`maps_from`).
    pub fn from_json(v: &Json) -> (r: Maps)
        ensures
            r@ == maps_from(v@),
    {
        let fetched = match as_u64(at(Some(v), "fetched")) {
            Some(n) => n,
            None => 0,
        };
        let mut channels: Vec<Chan> = Vec::new();
        match as_array(at(Some(v), "channels")) {
            Some(a) => {
                proof {
                    lemma_elems_view(a@);
                }
                let mut i: usize = 0;
                while i < a.len()
                    invariant
                        i <= a@.len(),
                        elems_view(a@).len() == a@.len(),
                        forall|j: int| 0 <= j < a@.len() ==> #[trigger] elems_view(a@)[j] == a@[j]@,
                        chans_view(channels@) == elems_view(a@).take(i as int).map_values(
                            |c: JsonV| chan_from(c),
                        ),
                    decreases a.len() - i,
                {
                    let ghost before = channels@;
                    channels.push(chan_from_json(&a[i]));
                    proof {
                        assert(chans_view(channels@) =~= chans_view(before).push(chan_from(a@[i as int]@)));
                        assert(elems_view(a@).take(i + 1) =~= elems_view(a@).take(i as int).push(
                            elems_view(a@)[i as int],
                        ));
                    }
                    i = i + 1;
                }
                proof {
                    assert(elems_view(a@).take(a@.len() as int) =~= elems_view(a@));
                }
            },
            None => {
                proof {
                    assert(chans_view(channels@) =~= seq![]);
                }
            },
        }
        let mut users: Vec<Usr> = Vec::new();
        match as_array(at(Some(v), "users")) {
            Some(a) => {
                proof {
                    lemma_elems_view(a@);
                }
                let mut i: usize = 0;
                while i < a.len()
                    invariant
                        i <= a@.len(),
                        elems_view(a@).len() == a@.len(),
                        forall|j: int| 0 <= j < a@.len() ==> #[trigger] elems_view(a@)[j] == a@[j]@,
                        usrs_view(users@) == elems_view(a@).take(i as int).map_values(
                            |u: JsonV| usr_from(u),
                        ),
                    decreases a.len() - i,
                {
                    let ghost before = users@;
                    users.push(usr_from_json(&a[i]));
                    proof {
                        assert(usrs_view(users@) =~= usrs_view(before).push(usr_from(a@[i as int]@)));
                        assert(elems_view(a@).take(i + 1) =~= elems_view(a@).take(i as int).push(
                            elems_view(a@)[i as int],
                        ));
                    }
                    i = i + 1;
                }
                proof {
                    assert(elems_view(a@).take(a@.len() as int) =~= elems_view(a@));
                }
            },
            None => {
                proof {
                    assert(usrs_view(users@) =~= seq![]);
                }
            },
        }
        let r = Maps { fetched, channels, users };
        proof {
            assert(r@.channels =~= maps_from(v@).channels);
            assert(r@.users =~= maps_from(v@).users);
        }
        r
    }
}

/// A channel written as JSON reads back as itself.
proof fn lemma_chan_roundtrip(c: ChanV)
    ensures
        chan_from(chan_json(c)) == c,
{
    reveal_strlit("id");
    reveal_strlit("name");
    reveal_with_fuel(crate::json::member, 3);
    assert("id"@ != "name"@) by {
        assert("id"@.len() != "name"@.len());
    }
    let o = seq![("id"@, JsonV::Str(c.id)), ("name"@, JsonV::Str(c.name))];
    assert(o.drop_first() =~= seq![("name"@, JsonV::Str(c.name))]);
}

/// A user written as JSON reads back as itself.
proof fn lemma_usr_roundtrip(u: UsrV)
    ensures
        usr_from(usr_json(u)) == u,
{
    reveal_strlit("id");
    reveal_strlit("name");
    reveal_strlit("real");
    reveal_strlit("display");
    reveal_with_fuel(crate::json::member, 5);
    assert("id"@ != "name"@) by {
        assert("id"@.len() != "name"@.len());
    }
    assert("id"@ != "real"@) by {
        assert("id"@.len() != "real"@.len());
    }
    assert("id"@ != "display"@) by {
        assert("id"@.len() != "display"@.len());
    }
    assert("name"@ != "real"@) by {
        assert("name"@[0] != "real"@[0]);
    }
    assert("name"@ != "display"@) by {
        assert("name"@.len() != "display"@.len());
    }
    assert("real"@ != "display"@) by {
        assert("real"@.len() != "display"@.len());
    }
    let o = seq![
        ("id"@, JsonV::Str(u.id)),
        ("name"@, JsonV::Str(u.name)),
        ("real"@, JsonV::Str(u.real_name)),
        ("display"@, JsonV::Str(u.display)),
    ];
    assert(o.drop_first() =~= seq![
        ("name"@, JsonV::Str(u.name)),
        ("real"@, JsonV::Str(u.real_name)),
        ("display"@, JsonV::Str(u.display)),
    ]);
    assert(o.drop_first().drop_first() =~= seq![
        ("real"@, JsonV::Str(u.real_name)),
        ("display"@, JsonV::Str(u.display)),
    ]);
    assert(o.drop_first().drop_first().drop_first() =~= seq![("display"@, JsonV::Str(u.display))]);
}

/// Writing the cache as JSON and reading that JSON back gives the same cache.
pub proof fn law_cache_round_trip(m: MapsV)
    ensures
        maps_from(maps_json(m)) == m,
{
    reveal_strlit("fetched");
    reveal_strlit("channels");
    reveal_strlit("users");
    reveal_with_fuel(crate::json::member, 4);
    assert("fetched"@ != "channels"@) by {
        assert("fetched"@.len() != "channels"@.len());
    }
    assert("fetched"@ != "users"@) by {
        assert("fetched"@.len() != "users"@.len());
    }
    assert("channels"@ != "users"@) by {
        assert("channels"@.len() != "users"@.len());
    }
    let cj = m.channels.map_values(|c: ChanV| chan_json(c));
    let uj = m.users.map_values(|u: UsrV| usr_json(u));
    let o = seq![
        ("fetched"@, JsonV::PosInt(m.fetched)),
        ("channels"@, JsonV::Array(cj)),
        ("users"@, JsonV::Array(uj)),
    ];
    assert(o.drop_first() =~= seq![("channels"@, JsonV::Array(cj)), ("users"@, JsonV::Array(uj))]);
    assert(o.drop_first().drop_first() =~= seq![("users"@, JsonV::Array(uj))]);
    let r = maps_from(maps_json(m));
    assert forall|i: int| 0 <= i < m.channels.len() implies #[trigger] r.channels[i] == m.channels[i] by {
        lemma_chan_roundtrip(m.channels[i]);
    }
    assert forall|i: int| 0 <= i < m.users.len() implies #[trigger] r.users[i] == m.users[i] by {
        lemma_usr_roundtrip(m.users[i]);
    }
    assert(r.channels =~= m.channels);
    assert(r.users =~= m.users);
}

// ---------------------------------------------------------------------------
// Freshness
// ---------------------------------------------------------------------------

/// Whether a cache fetched at `fetched` is fresh at `now`: less than
/// `CACHE_TTL_SECS` old (a fetch time in the future counts as age 0).
pub open spec fn fresh_at(fetched: u64, now: u64) -> bool {
    (if now >= fetched {
        now - fetched
    } else {
        0
    }) < CACHE_TTL_SECS
}

/// std `SystemTime::now().duration_since(UNIX_EPOCH)` in whole seconds
/// (`Duration::as_secs`), or `None` when the clock is set before the epoch.
/// It reads the clock, so nothing is promised of the value.
#[verifier::external_body]
fn epoch_secs() -> Option<u64> {
    match std::time::SystemTime::now().duration_since(std::time::UNIX_EPOCH) {
        Ok(d) => Some(d.as_secs()),
        Err(_) => None,
    }
}

/// The seconds of a clock reading, or 0 when there are none (a clock set
/// before the epoch).
pub fn secs_or_zero(o: Option<u64>) -> (r: u64)
    ensures
        r == match o {
            Some(s) => s,
            None => 0,
        },
{
    match o {
        Some(s) => s,
        None => 0,
    }
}

/// Seconds since the Unix epoch by the system clock, or 0 when the clock is
/// set before the epoch (`secs_or_zero` of the reading). It is the time: no
/// value is promised.
pub fn now_secs() -> u64 {
    secs_or_zero(epoch_secs())
}

impl Maps {
    /// Freshness at a given time (`fresh_at`).
    pub fn is_fresh_at(&self, now: u64) -> (r: bool)
        ensures
            r == fresh_at(self.fetched, now),
    {
        let age: u64 = if now >= self.fetched {
            now - self.fetched
        } else {
            0
        };
        age < CACHE_TTL_SECS
    }

    /// Freshness now, by the system clock: `fresh_at(fetched, t)` for the
    /// time `t` that the clock gives; a cache is never fresh when it is
    /// `CACHE_TTL_SECS` or more older than that time.
    pub fn is_fresh(&self) -> (r: bool)
        ensures
            exists|t: u64| r == fresh_at(self.fetched, t),
    {
        let now = now_secs();
        self.is_fresh_at(now)
    }
}

impl Client {
    /// The cache to use for a lookup: the cached maps when not forced and
    /// fresh at `now`; `None` means fetch them anew.
    pub fn maps(&self, force: bool, cached: Option<Maps>, now: u64) -> (r: Option<Maps>)
        ensures
            match cached {
                Some(m) => if !force && fresh_at(m.fetched, now) {
                    r matches Some(x) && x@ == m@
                } else {
                    r is None
                },
                None => r is None,
            },
    {
        if force {
            return None;
        }
        match cached {
            Some(m) => if m.is_fresh_at(now) {
                Some(m)
            } else {
                None
            },
            None => None,
        }
    }
}

// ---------------------------------------------------------------------------
// Lookups
// ---------------------------------------------------------------------------

/// The id of the first channel with this exact name.
pub open spec fn find_chan(cs: Seq<ChanV>, name: Seq<char>) -> Option<Seq<char>>
    decreases cs.len(),
{
    if cs.len() == 0 {
        None
    } else if cs[0].name == name {
        Some(cs[0].id)
    } else {
        find_chan(cs.drop_first(), name)
    }
}

/// The id of the first user whose user name or display name is exactly `name`.
pub open spec fn find_usr(us: Seq<UsrV>, name: Seq<char>) -> Option<Seq<char>>
    decreases us.len(),
{
    if us.len() == 0 {
        None
    } else if us[0].name == name || us[0].display == name {
        Some(us[0].id)
    } else {
        find_usr(us.drop_first(), name)
    }
}

impl Maps {
    pub fn find_channel(&self, name: &str) -> (r: Option<String>)
        ensures
            opt_str(r) == find_chan(self@.channels, name@),
    {
        let ghost cs = self@.channels;
        proof {
            assert(cs.skip(0) =~= cs);
        }
        let mut i: usize = 0;
        while i < self.channels.len()
            invariant
                i <= self.channels@.len(),
                cs == chans_view(self.channels@),
                find_chan(cs, name@) == find_chan(cs.skip(i as int), name@),
            decreases self.channels.len() - i,
        {
            let c = &self.channels[i];
            assert(cs.skip(i as int)[0] == c@);
            if same_text(c.name.as_str(), name) {
                return Some(c.id.clone());
            }
            assert(cs.skip(i as int).drop_first() =~= cs.skip(i + 1));
            i = i + 1;
        }
        None
    }

    pub fn find_user(&self, name: &str) -> (r: Option<String>)
        ensures
            opt_str(r) == find_usr(self@.users, name@),
    {
        let ghost us = self@.users;
        proof {
            assert(us.skip(0) =~= us);
        }
        let mut i: usize = 0;
        while i < self.users.len()
            invariant
                i <= self.users@.len(),
                us == usrs_view(self.users@),
                find_usr(us, name@) == find_usr(us.skip(i as int), name@),
            decreases self.users.len() - i,
        {
            let u = &self.users[i];
            assert(us.skip(i as int)[0] == u@);
            if same_text(u.name.as_str(), name) || same_text(u.display.as_str(), name) {
                return Some(u.id.clone());
            }
            assert(us.skip(i as int).drop_first() =~= us.skip(i + 1));
            i = i + 1;
        }
        None
    }
}

pub open spec fn opt_str(o: Option<String>) -> Option<Seq<char>> {
    match o {
        Some(s) => Some(s@),
        None => None,
    }
}

// ---------------------------------------------------------------------------
// `read ls` and `write sync`
// ---------------------------------------------------------------------------

pub open spec fn hit(text: Seq<char>, q: Seq<char>) -> bool {
    is_substring(lowercase(text), lowercase(q))
}

/// `chan<TAB>ID<TAB>NAME` for each channel whose name contains the query.
pub open spec fn chan_hits(cs: Seq<ChanV>, q: Seq<char>) -> Seq<Seq<char>>
    decreases cs.len(),
{
    if cs.len() == 0 {
        seq![]
    } else {
        let rest = chan_hits(cs.drop_last(), q);
        let c = cs.last();
        if hit(c.name, q) {
            rest.push("chan"@ + "\t"@ + c.id + "\t"@ + c.name)
        } else {
            rest
        }
    }
}

/// `user<TAB>ID<TAB>NAME` for each user whose user, real or display name
/// contains the query.
pub open spec fn usr_hits(us: Seq<UsrV>, q: Seq<char>) -> Seq<Seq<char>>
    decreases us.len(),
{
    if us.len() == 0 {
        seq![]
    } else {
        let rest = usr_hits(us.drop_last(), q);
        let u = us.last();
        if hit(u.name, q) || hit(u.real_name, q) || hit(u.display, q) {
            rest.push("user"@ + "\t"@ + u.id + "\t"@ + u.name)
        } else {
            rest
        }
    }
}

/// The output of `read ls QUERY`: matching channels, then matching users,
/// or `no match for 'QUERY'`.
pub open spec fn ls_lines_of(m: MapsV, q: Seq<char>) -> Seq<Seq<char>> {
    let hits = chan_hits(m.channels, q) + usr_hits(m.users, q);
    if hits.len() == 0 {
        seq!["no match for '"@ + q + "'"@]
    } else {
        hits
    }
}

fn tab_line(tag: &str, id: &str, name: &str) -> (r: String)
    ensures
        r@ == tag@ + "\t"@ + id@ + "\t"@ + name@,
{
    let mut r = owned(tag);
    r.append("\t");
    r.append(id);
    r.append("\t");
    r.append(name);
    r
}

impl Client {
    /// `read ls QUERY` over the cache.
    pub fn ls(&self, m: &Maps, query: &str) -> (r: Vec<String>)
        ensures
            strings_view(r@) == ls_lines_of(m@, query@),
    {
        let mut out: Vec<String> = Vec::new();
        let ghost cs = m@.channels;
        let ghost us = m@.users;
        proof {
            assert(cs.take(0) =~= seq![]);
            assert(strings_view(out@) =~= seq![]);
        }
        let mut i: usize = 0;
        while i < m.channels.len()
            invariant
                i <= m.channels@.len(),
                cs == chans_view(m.channels@),
                strings_view(out@) == chan_hits(cs.take(i as int), query@),
            decreases m.channels.len() - i,
        {
            let c = &m.channels[i];
            let ghost before = out@;
            proof {
                assert(cs.take(i + 1).drop_last() =~= cs.take(i as int));
                assert(cs.take(i + 1).last() == c@);
            }
            if contains_ci(c.name.as_str(), query) {
                let line = tab_line("chan", c.id.as_str(), c.name.as_str());
                out.push(line);
                proof {
                    assert(strings_view(out@) =~= strings_view(before).push(line@));
                }
            }
            i = i + 1;
        }
        proof {
            assert(cs.take(m.channels@.len() as int) =~= cs);
            assert(us.take(0) =~= seq![]);
            assert(strings_view(out@) =~= chan_hits(cs, query@) + usr_hits(us.take(0), query@));
        }
        let mut j: usize = 0;
        while j < m.users.len()
            invariant
                j <= m.users@.len(),
                cs == chans_view(m.channels@),
                us == usrs_view(m.users@),
                strings_view(out@) == chan_hits(cs, query@) + usr_hits(us.take(j as int), query@),
            decreases m.users.len() - j,
        {
            let u = &m.users[j];
            let ghost before = out@;
            proof {
                assert(us.take(j + 1).drop_last() =~= us.take(j as int));
                assert(us.take(j + 1).last() == u@);
            }
            if contains_ci(u.name.as_str(), query) || contains_ci(u.real_name.as_str(), query)
                || contains_ci(u.display.as_str(), query) {
                let line = tab_line("user", u.id.as_str(), u.name.as_str());
                out.push(line);
                proof {
                    assert(strings_view(out@) =~= strings_view(before).push(line@));
                }
            }
            j = j + 1;
        }
        proof {
            assert(us.take(m.users@.len() as int) =~= us);
        }
        if out.len() == 0 {
            let mut line = owned("no match for '");
            line.append(query);
            line.append("'");
            out.push(line);
            proof {
                assert(strings_view(out@) =~= seq![line@]);
            }
        }
        out
    }

    /// `synced WS: N channels, M users`.
    pub fn sync_line(&self, m: &Maps) -> (r: String)
        ensures
            r@ == "synced "@ + self.workspace_view() + ": "@ + dec_nat(m@.channels.len())
                + " channels, "@ + dec_nat(m@.users.len()) + " users"@,
    {
        let mut r = owned("synced ");
        r.append(self.workspace());
        r.append(": ");
        let a = fmt_usize(m.channels.len());
        r.append(a.as_str());
        r.append(" channels, ");
        let b = fmt_usize(m.users.len());
        r.append(b.as_str());
        r.append(" users");
        r
    }
}

// ---------------------------------------------------------------------------
// Fetching the maps anew
// ---------------------------------------------------------------------------

/// The channels of one `conversations.list` page that have both a string id
/// and a string name.
pub open spec fn page_chans_from(a: Seq<JsonV>) -> Seq<ChanV>
    decreases a.len(),
{
    if a.len() == 0 {
        seq![]
    } else {
        let rest = page_chans_from(a.drop_last());
        let c = a.last();
        match (c.at("id"@).as_str(), c.at("name"@).as_str()) {
            (Some(id), Some(n)) => rest.push(ChanV { id: id, name: n }),
            _ => rest,
        }
    }
}

/// The users of one `users.list` page that are not deleted and have a
/// string id; missing names read as empty.
pub open spec fn page_usrs_from(a: Seq<JsonV>) -> Seq<UsrV>
    decreases a.len(),
{
    if a.len() == 0 {
        seq![]
    } else {
        let rest = page_usrs_from(a.drop_last());
        let u = a.last();
        if u.at("deleted"@).as_bool() == Some(true) {
            rest
        } else {
            match u.at("id"@).as_str() {
                Some(id) => rest.push(
                    UsrV {
                        id: id,
                        name: str_or(u.at("name"@), ""@),
                        real_name: str_or(u.at("profile"@).at("real_name"@), ""@),
                        display: str_or(u.at("profile"@).at("display_name"@), ""@),
                    },
                ),
                None => rest,
            }
        }
    }
}

/// Which listing a fetch is paging through.
pub enum FetchPhase {
    Channels,
    Users,
    Finished,
}

/// A fetch of the maps: pages of public and private channels, then pages
/// of users.
pub struct MapsFetch {
    phase: FetchPhase,
    cursor: String,
    channels: Vec<Chan>,
    users: Vec<Usr>,
}

pub struct MapsFetchV {
    pub phase: FetchPhase,
    pub cursor: Seq<char>,
    pub channels: Seq<ChanV>,
    pub users: Seq<UsrV>,
}

impl View for MapsFetch {
    type V = MapsFetchV;

    closed spec fn view(&self) -> MapsFetchV {
        MapsFetchV {
            phase: self.phase,
            cursor: self.cursor@,
            channels: chans_view(self.channels@),
            users: usrs_view(self.users@),
        }
    }
}

fn push_page_chans(out: &mut Vec<Chan>, v: &Json)
    ensures
        chans_view(final(out)@) == chans_view(old(out)@) + page_chans_from(
            array_or_empty(v@.at("channels"@)),
        ),
{
    match as_array(at(Some(v), "channels")) {
        Some(a) => {
            let ghost start = chans_view(out@);
            let ghost es = elems_view(a@);
            proof {
                lemma_elems_view(a@);
                assert(es.take(0) =~= seq![]);
                assert(start + page_chans_from(es.take(0)) =~= start);
            }
            let mut i: usize = 0;
            while i < a.len()
                invariant
                    i <= a@.len(),
                    es == elems_view(a@),
                    es.len() == a@.len(),
                    forall|j: int| 0 <= j < a@.len() ==> #[trigger] es[j] == a@[j]@,
                    chans_view(out@) == start + page_chans_from(es.take(i as int)),
                decreases a.len() - i,
            {
                let c = &a[i];
                let ghost before = out@;
                proof {
                    assert(es.take(i + 1).drop_last() =~= es.take(i as int));
                    assert(es.take(i + 1).last() == c@);
                }
                match (as_str(at(Some(c), "id")), as_str(at(Some(c), "name"))) {
                    (Some(id), Some(n)) => {
                        out.push(Chan { id: id.clone(), name: n.clone() });
                        proof {
                            assert(chans_view(out@) =~= chans_view(before).push(
                                ChanV { id: id@, name: n@ },
                            ));
                        }
                    },
                    _ => {},
                }
                i = i + 1;
            }
            proof {
                assert(es.take(a@.len() as int) =~= es);
            }
        },
        None => {
            proof {
                assert(chans_view(out@) + page_chans_from(seq![]) =~= chans_view(out@));
            }
        },
    }
}

fn push_page_usrs(out: &mut Vec<Usr>, v: &Json)
    ensures
        usrs_view(final(out)@) == usrs_view(old(out)@) + page_usrs_from(
            array_or_empty(v@.at("members"@)),
        ),
{
    match as_array(at(Some(v), "members")) {
        Some(a) => {
            let ghost start = usrs_view(out@);
            let ghost es = elems_view(a@);
            proof {
                lemma_elems_view(a@);
                assert(es.take(0) =~= seq![]);
                assert(start + page_usrs_from(es.take(0)) =~= start);
            }
            let mut i: usize = 0;
            while i < a.len()
                invariant
                    i <= a@.len(),
                    es == elems_view(a@),
                    es.len() == a@.len(),
                    forall|j: int| 0 <= j < a@.len() ==> #[trigger] es[j] == a@[j]@,
                    usrs_view(out@) == start + page_usrs_from(es.take(i as int)),
                decreases a.len() - i,
            {
                let u = &a[i];
                let ghost before = out@;
                proof {
                    assert(es.take(i + 1).drop_last() =~= es.take(i as int));
                    assert(es.take(i + 1).last() == u@);
                }
                if as_bool(at(Some(u), "deleted")) != Some(true) {
                    match as_str(at(Some(u), "id")) {
                        Some(id) => {
                            let usr = Usr {
                                id: id.clone(),
                                name: owned(str_or_else(at(Some(u), "name"), "")),
                                real_name: owned(
                                    str_or_else(at(at(Some(u), "profile"), "real_name"), ""),
                                ),
                                display: owned(
                                    str_or_else(at(at(Some(u), "profile"), "display_name"), ""),
                                ),
                            };
                            let ghost uv = usr@;
                            out.push(usr);
                            proof {
                                assert(usrs_view(out@) =~= usrs_view(before).push(uv));
                            }
                        },
                        None => {},
                    }
                }
                i = i + 1;
            }
            proof {
                assert(es.take(a@.len() as int) =~= es);
            }
        },
        None => {
            proof {
                assert(usrs_view(out@) + page_usrs_from(seq![]) =~= usrs_view(out@));
            }
        },
    }
}

/// The channels of one `conversations.list` page (`page_chans_from`).
pub open spec fn page_chans(v: JsonV) -> Seq<ChanV> {
    page_chans_from(array_or_empty(v.at("channels"@)))
}

/// The users of one `users.list` page (`page_usrs_from`).
pub open spec fn page_usrs(v: JsonV) -> Seq<UsrV> {
    page_usrs_from(array_or_empty(v.at("members"@)))
}

/// A fetch after one more page of the listing it is in: the page's entries
/// are added and the cursor moves on; a page that names no next cursor ends
/// the channels (on to users) or the users (finished). A finished fetch
/// takes no more pages.
pub open spec fn fetch_next(f: MapsFetchV, v: JsonV) -> MapsFetchV {
    let last = next_cursor_of(v).len() == 0;
    match f.phase {
        FetchPhase::Channels => MapsFetchV {
            phase: if last {
                FetchPhase::Users
            } else {
                FetchPhase::Channels
            },
            cursor: next_cursor_of(v),
            channels: f.channels + page_chans(v),
            users: f.users,
        },
        FetchPhase::Users => MapsFetchV {
            phase: if last {
                FetchPhase::Finished
            } else {
                FetchPhase::Users
            },
            cursor: next_cursor_of(v),
            channels: f.channels,
            users: f.users + page_usrs(v),
        },
        FetchPhase::Finished => f,
    }
}

/// A fetch after a run of pages, in order.
pub open spec fn fetch_after(f: MapsFetchV, pages: Seq<JsonV>) -> MapsFetchV
    decreases pages.len(),
{
    if pages.len() == 0 {
        f
    } else {
        fetch_after(fetch_next(f, pages[0]), pages.drop_first())
    }
}

/// The pages of one whole listing: every page but the last names a next
/// cursor, and the last names none.
pub open spec fn whole_listing(pages: Seq<JsonV>) -> bool {
    &&& pages.len() > 0
    &&& forall|i: int| 0 <= i < pages.len() - 1 ==> #[trigger] next_cursor_of(pages[i]).len() > 0
    &&& next_cursor_of(pages.last()).len() == 0
}

/// The channels of a run of pages, page after page.
pub open spec fn all_page_chans(pages: Seq<JsonV>) -> Seq<ChanV>
    decreases pages.len(),
{
    if pages.len() == 0 {
        seq![]
    } else {
        page_chans(pages[0]) + all_page_chans(pages.drop_first())
    }
}

/// The users of a run of pages, page after page.
pub open spec fn all_page_usrs(pages: Seq<JsonV>) -> Seq<UsrV>
    decreases pages.len(),
{
    if pages.len() == 0 {
        seq![]
    } else {
        page_usrs(pages[0]) + all_page_usrs(pages.drop_first())
    }
}

impl Client {
    /// Starts fetching the maps: no channels or users yet, at the first page
    /// of channels.
    pub fn fetch_maps(&self) -> (r: MapsFetch)
        ensures
            r@ == (MapsFetchV {
                phase: FetchPhase::Channels,
                cursor: seq![],
                channels: seq![],
                users: seq![],
            }),
    {
        let r = MapsFetch {
            phase: FetchPhase::Channels,
            cursor: String::new(),
            channels: Vec::new(),
            users: Vec::new(),
        };
        proof {
            assert(r@.channels =~= seq![]);
            assert(r@.users =~= seq![]);
        }
        r
    }
}

impl MapsFetch {
    /// The request for the next page, or `None` once both listings are done.
    pub fn request(&self) -> (r: Option<ApiCall>)
        ensures
            match self@.phase {
                FetchPhase::Channels => r matches Some(c) && c@ == ("conversations.list"@, seq![
                    ("types"@, "public_channel,private_channel"@),
                    ("limit"@, "200"@),
                    ("exclude_archived"@, "true"@),
                    ("cursor"@, self@.cursor),
                ]),
                FetchPhase::Users => r matches Some(c) && c@ == ("users.list"@, seq![
                    ("limit"@, "200"@),
                    ("cursor"@, self@.cursor),
                ]),
                FetchPhase::Finished => r is None,
            },
    {
        match self.phase {
            FetchPhase::Channels => Some(
                conversations_list("public_channel,private_channel", self.cursor.as_str()),
            ),
            FetchPhase::Users => Some(users_list(self.cursor.as_str())),
            FetchPhase::Finished => None,
        }
    }

    /// Takes in a page of the current listing: its entries are added, the
    /// cursor moves on, and when the page names no next cursor the fetch
    /// moves from channels to users, or from users to finished.
    pub fn on_page(&mut self, v: &Json)
        ensures
            final(self)@ == fetch_next(old(self)@, v@),
    {
        match self.phase {
            FetchPhase::Channels => {
                push_page_chans(&mut self.channels, v);
                self.cursor = next_cursor(v);
                if self.cursor.as_str().is_empty() {
                    self.phase = FetchPhase::Users;
                }
            },
            FetchPhase::Users => {
                push_page_usrs(&mut self.users, v);
                self.cursor = next_cursor(v);
                if self.cursor.as_str().is_empty() {
                    self.phase = FetchPhase::Finished;
                }
            },
            FetchPhase::Finished => {},
        }
    }

    /// Whether both listings are done.
    pub fn is_finished(&self) -> (r: bool)
        ensures
            r == (self@.phase is Finished),
    {
        match self.phase {
            FetchPhase::Finished => true,
            _ => false,
        }
    }

    /// The fetched maps, stamped with the time `now`.
    pub fn finish(self, now: u64) -> (r: Maps)
        ensures
            r@ == (MapsV { fetched: now, channels: self@.channels, users: self@.users }),
    {
        Maps { fetched: now, channels: self.channels, users: self.users }
    }
}

proof fn lemma_whole_listing_rest(pages: Seq<JsonV>)
    requires
        whole_listing(pages),
        pages.len() > 1,
    ensures
        whole_listing(pages.drop_first()),
        next_cursor_of(pages[0]).len() > 0,
{
    let r = pages.drop_first();
    assert forall|i: int| 0 <= i < r.len() - 1 implies #[trigger] next_cursor_of(r[i]).len() > 0 by {
        assert(r[i] == pages[i + 1]);
    }
    assert(r.last() == pages.last());
}

/// The channel pages of a fetch: a whole listing of channels takes the
/// fetch on to the users, with every channel of every page added in order.
proof fn lemma_fetch_channels(f: MapsFetchV, cs: Seq<JsonV>, rest: Seq<JsonV>)
    requires
        f.phase is Channels,
        whole_listing(cs),
    ensures
        fetch_after(f, cs + rest) == fetch_after(
            MapsFetchV {
                phase: FetchPhase::Users,
                cursor: seq![],
                channels: f.channels + all_page_chans(cs),
                users: f.users,
            },
            rest,
        ),
    decreases cs.len(),
{
    let n = fetch_next(f, cs[0]);
    assert((cs + rest)[0] == cs[0]);
    assert((cs + rest).drop_first() =~= cs.drop_first() + rest);
    assert(all_page_chans(cs) == page_chans(cs[0]) + all_page_chans(cs.drop_first()));
    if cs.len() == 1 {
        assert(cs.last() == cs[0]);
        assert(cs.drop_first() =~= Seq::<JsonV>::empty());
        assert(cs.drop_first() + rest =~= rest);
        assert(all_page_chans(cs.drop_first()) =~= Seq::<ChanV>::empty());
        assert(n.cursor =~= Seq::<char>::empty());
        assert(n.channels =~= f.channels + all_page_chans(cs));
    } else {
        lemma_whole_listing_rest(cs);
        lemma_fetch_channels(n, cs.drop_first(), rest);
        assert(n.channels + all_page_chans(cs.drop_first()) =~= f.channels + all_page_chans(cs));
    }
}

/// The user pages of a fetch: a whole listing of users finishes it, with
/// every listed user of every page added in order.
proof fn lemma_fetch_users(f: MapsFetchV, us: Seq<JsonV>)
    requires
        f.phase is Users,
        whole_listing(us),
    ensures
        fetch_after(f, us) == (MapsFetchV {
            phase: FetchPhase::Finished,
            cursor: seq![],
            channels: f.channels,
            users: f.users + all_page_usrs(us),
        }),
    decreases us.len(),
{
    let n = fetch_next(f, us[0]);
    assert(all_page_usrs(us) == page_usrs(us[0]) + all_page_usrs(us.drop_first()));
    if us.len() == 1 {
        assert(us.last() == us[0]);
        assert(us.drop_first() =~= Seq::<JsonV>::empty());
        assert(fetch_after(n, us.drop_first()) == n);
        assert(all_page_usrs(us.drop_first()) =~= Seq::<UsrV>::empty());
        assert(n.cursor =~= Seq::<char>::empty());
        assert(n.users =~= f.users + all_page_usrs(us));
    } else {
        lemma_whole_listing_rest(us);
        lemma_fetch_users(n, us.drop_first());
        assert(n.users + all_page_usrs(us.drop_first()) =~= f.users + all_page_usrs(us));
    }
}

/// Fed a whole listing of channels and then a whole listing of users, a
/// fresh fetch is finished and holds every channel and every listed user of
/// those pages, in the order the pages gave them.
pub proof fn law_fetch_collects_every_page(cs: Seq<JsonV>, us: Seq<JsonV>)
    requires
        whole_listing(cs),
        whole_listing(us),
    ensures
        fetch_after(
            MapsFetchV { phase: FetchPhase::Channels, cursor: seq![], channels: seq![], users: seq![] },
            cs + us,
        ) == (MapsFetchV {
            phase: FetchPhase::Finished,
            cursor: seq![],
            channels: all_page_chans(cs),
            users: all_page_usrs(us),
        }),
{
    let f = MapsFetchV { phase: FetchPhase::Channels, cursor: seq![], channels: seq![], users: seq![] };
    lemma_fetch_channels(f, cs, us);
    let g = MapsFetchV {
        phase: FetchPhase::Users,
        cursor: seq![],
        channels: f.channels + all_page_chans(cs),
        users: f.users,
    };
    lemma_fetch_users(g, us);
    assert(f.channels + all_page_chans(cs) =~= all_page_chans(cs));
    assert(f.users + all_page_usrs(us) =~= all_page_usrs(us));
}

/// A finished fetch is left as it is by any further page.
pub proof fn law_finished_fetch_is_stable(f: MapsFetchV, pages: Seq<JsonV>)
    requires
        f.phase is Finished,
    ensures
        fetch_after(f, pages) == f,
    decreases pages.len(),
{
    if pages.len() > 0 {
        law_finished_fetch_is_stable(fetch_next(f, pages[0]), pages.drop_first());
    }
}

/// A channel name resolves only to a channel of exactly that name, and to
/// the first such channel; a name that no channel has exactly resolves to
/// nothing.
pub proof fn law_channel_name_is_exact(cs: Seq<ChanV>, name: Seq<char>)
    ensures
        match find_chan(cs, name) {
            Some(id) => exists|i: int|
                0 <= i < cs.len() && #[trigger] cs[i].name == name && cs[i].id == id && forall|j: int|
                    0 <= j < i ==> cs[j].name != name,
            None => forall|i: int| 0 <= i < cs.len() ==> cs[i].name != name,
        },
    decreases cs.len(),
{
    if cs.len() > 0 {
        let rest = cs.drop_first();
        law_channel_name_is_exact(rest, name);
        if cs[0].name == name {
            assert(cs[0].name == name && cs[0].id == cs[0].id);
        } else {
            match find_chan(rest, name) {
                Some(id) => {
                    let k = choose|k: int|
                        0 <= k < rest.len() && #[trigger] rest[k].name == name && rest[k].id == id
                            && forall|j: int| 0 <= j < k ==> rest[j].name != name;
                    assert(cs[k + 1] == rest[k]);
                    assert forall|j: int| 0 <= j < k + 1 implies cs[j].name != name by {
                        if j > 0 {
                            assert(cs[j] == rest[j - 1]);
                        }
                    }
                    assert(cs[k + 1].name == name);
                },
                None => {
                    assert forall|i: int| 0 <= i < cs.len() implies cs[i].name != name by {
                        if i > 0 {
                            assert(cs[i] == rest[i - 1]);
                        }
                    }
                },
            }
        }
    }
}

/// A user argument resolves only to a user whose user name or display name
/// is exactly that text, and to the first such user; otherwise to nothing.
pub proof fn law_user_name_is_exact(us: Seq<UsrV>, name: Seq<char>)
    ensures
        match find_usr(us, name) {
            Some(id) => exists|i: int|
                0 <= i < us.len() && (#[trigger] us[i].name == name || us[i].display == name)
                    && us[i].id == id && forall|j: int|
                    0 <= j < i ==> us[j].name != name && us[j].display != name,
            None => forall|i: int| 0 <= i < us.len() ==> us[i].name != name && us[i].display != name,
        },
    decreases us.len(),
{
    if us.len() > 0 {
        let rest = us.drop_first();
        law_user_name_is_exact(rest, name);
        if us[0].name == name || us[0].display == name {
            assert(us[0].name == name || us[0].display == name);
        } else {
            match find_usr(rest, name) {
                Some(id) => {
                    let k = choose|k: int|
                        0 <= k < rest.len() && (#[trigger] rest[k].name == name || rest[k].display
                            == name) && rest[k].id == id && forall|j: int|
                            0 <= j < k ==> rest[j].name != name && rest[j].display != name;
                    assert(us[k + 1] == rest[k]);
                    assert forall|j: int| 0 <= j < k + 1 implies us[j].name != name && us[j].display
                        != name by {
                        if j > 0 {
                            assert(us[j] == rest[j - 1]);
                        }
                    }
                    assert(us[k + 1].name == name || us[k + 1].display == name);
                },
                None => {
                    assert forall|i: int| 0 <= i < us.len() implies us[i].name != name
                        && us[i].display != name by {
                        if i > 0 {
                            assert(us[i] == rest[i - 1]);
                        }
                    }
                },
            }
        }
    }
}

/// The `read ls` line of a channel.
pub open spec fn chan_ls_line(c: ChanV) -> Seq<char> {
    "chan\t"@ + c.id + "\t"@ + c.name
}

/// The `read ls` line of a user.
pub open spec fn usr_ls_line(u: UsrV) -> Seq<char> {
    "user\t"@ + u.id + "\t"@ + u.name
}

proof fn lemma_tab_words()
    ensures
        "chan"@ + "\t"@ == "chan\t"@,
        "user"@ + "\t"@ == "user\t"@,
{
    reveal_strlit("chan");
    reveal_strlit("user");
    reveal_strlit("\t");
    reveal_strlit("chan\t");
    reveal_strlit("user\t");
    assert("chan"@ + "\t"@ =~= "chan\t"@);
    assert("user"@ + "\t"@ =~= "user\t"@);
}

proof fn lemma_chan_hits_complete(cs: Seq<ChanV>, q: Seq<char>, i: int)
    requires
        0 <= i < cs.len(),
        hit(cs[i].name, q),
    ensures
        chan_hits(cs, q).contains(chan_ls_line(cs[i])),
    decreases cs.len(),
{
    lemma_tab_words();
    let rest = chan_hits(cs.drop_last(), q);
    let c = cs.last();
    assert("chan"@ + "\t"@ + c.id + "\t"@ + c.name =~= chan_ls_line(c));
    if i == cs.len() - 1 {
        assert(chan_hits(cs, q) == rest.push(chan_ls_line(c)));
        assert(chan_hits(cs, q)[rest.len() as int] == chan_ls_line(cs[i]));
    } else {
        assert(cs.drop_last()[i] == cs[i]);
        lemma_chan_hits_complete(cs.drop_last(), q, i);
        let k = choose|k: int| 0 <= k < rest.len() && rest[k] == chan_ls_line(cs[i]);
        if hit(c.name, q) {
            assert(chan_hits(cs, q)[k] == rest[k]);
        } else {
            assert(chan_hits(cs, q)[k] == rest[k]);
        }
    }
}

proof fn lemma_usr_hits_complete(us: Seq<UsrV>, q: Seq<char>, i: int)
    requires
        0 <= i < us.len(),
        hit(us[i].name, q) || hit(us[i].real_name, q) || hit(us[i].display, q),
    ensures
        usr_hits(us, q).contains(usr_ls_line(us[i])),
    decreases us.len(),
{
    lemma_tab_words();
    let rest = usr_hits(us.drop_last(), q);
    let u = us.last();
    assert("user"@ + "\t"@ + u.id + "\t"@ + u.name =~= usr_ls_line(u));
    if i == us.len() - 1 {
        assert(usr_hits(us, q) == rest.push(usr_ls_line(u)));
        assert(usr_hits(us, q)[rest.len() as int] == usr_ls_line(us[i]));
    } else {
        assert(us.drop_last()[i] == us[i]);
        lemma_usr_hits_complete(us.drop_last(), q, i);
        let k = choose|k: int| 0 <= k < rest.len() && rest[k] == usr_ls_line(us[i]);
        assert(usr_hits(us, q)[k] == rest[k]);
    }
}

/// `read ls QUERY` lists every channel whose name contains the query, and
/// every user whose user name, real name or display name contains it, all
/// case-insensitively.
pub proof fn law_ls_lists_every_match(m: MapsV, q: Seq<char>)
    ensures
        forall|i: int|
            0 <= i < m.channels.len() && hit(#[trigger] m.channels[i].name, q) ==> ls_lines_of(
                m,
                q,
            ).contains(chan_ls_line(m.channels[i])),
        forall|i: int|
            0 <= i < m.users.len() && (hit(#[trigger] m.users[i].name, q) || hit(
                m.users[i].real_name,
                q,
            ) || hit(m.users[i].display, q)) ==> ls_lines_of(m, q).contains(usr_ls_line(m.users[i])),
{
    let a = chan_hits(m.channels, q);
    let b = usr_hits(m.users, q);
    assert forall|i: int|
        0 <= i < m.channels.len() && hit(#[trigger] m.channels[i].name, q) implies ls_lines_of(
            m,
            q,
        ).contains(chan_ls_line(m.channels[i])) by {
        lemma_chan_hits_complete(m.channels, q, i);
        let k = choose|k: int| 0 <= k < a.len() && a[k] == chan_ls_line(m.channels[i]);
        assert((a + b)[k] == a[k]);
    }
    assert forall|i: int|
        0 <= i < m.users.len() && (hit(#[trigger] m.users[i].name, q) || hit(m.users[i].real_name, q)
            || hit(m.users[i].display, q)) implies ls_lines_of(m, q).contains(
        usr_ls_line(m.users[i]),
    ) by {
        lemma_usr_hits_complete(m.users, q, i);
        let k = choose|k: int| 0 <= k < b.len() && b[k] == usr_ls_line(m.users[i]);
        assert((a + b)[a.len() + k] == b[k]);
    }
}

} // verus!

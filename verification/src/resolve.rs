//! Turning what a user typed into Slack ids: a channel given as a raw id,
//! `#name` or `@user`, and a user given as `Uxxxx`, a name or a display name.
//! Names are looked up in the cache first and, on a miss, once more in freshly
//! fetched maps.

use vstd::prelude::*;
use crate::api::{Client, str_or, str_or_else};
use crate::cache::{Maps, MapsV, find_chan, find_usr};
use crate::error::ScliError;
use crate::json::{Json, JsonV, at};
use crate::text::{owned, strip_prefix_char, strip_char, is_channel_id, channel_id_like};

verus! {

/// The next step of a lookup.
#[derive(Debug, Clone, PartialEq)]
pub enum Lookup {
    /// The id.
    Found(String),
    /// A `@user` channel: resolve this user, then open the DM with them.
    ViaUser(String),
    /// Look in the maps: the cache (`false`) or freshly fetched maps (`true`).
    NeedMaps(bool),
    /// Not found after the fresh maps.
    NotFound(ScliError),
}

pub enum LookupV {
    Found(Seq<char>),
    ViaUser(Seq<char>),
    NeedMaps(bool),
    NotFound,
}

impl View for Lookup {
    type V = LookupV;

    open spec fn view(&self) -> LookupV {
        match self {
            Lookup::Found(s) => LookupV::Found(s@),
            Lookup::ViaUser(s) => LookupV::ViaUser(s@),
            Lookup::NeedMaps(f) => LookupV::NeedMaps(*f),
            Lookup::NotFound(_) => LookupV::NotFound,
        }
    }
}

/// `s` without one leading `c`, or `s` itself.
pub open spec fn without(s: Seq<char>, c: char) -> Seq<char> {
    match strip_char(s, c) {
        Some(t) => t,
        None => s,
    }
}

pub open spec fn maps_view_opt(m: Option<(&Maps, bool)>) -> Option<(MapsV, bool)> {
    match m {
        Some((x, f)) => Some((x@, f)),
        None => None,
    }
}

/// After a name was looked up (in the cache, or in fresh maps when
/// `forced`): found, or try fresh maps, or give up.
pub open spec fn after_lookup(found: Option<Seq<char>>, forced: bool) -> LookupV {
    match found {
        Some(id) => LookupV::Found(id),
        None => if forced {
            LookupV::NotFound
        } else {
            LookupV::NeedMaps(true)
        },
    }
}

/// Channel resolution: `@user` goes through the user; `#name` and `name`
/// are a raw id when they look like one, else looked up by exact name, in
/// the cache first.
pub open spec fn channel_step(s: Seq<char>, looked: Option<(MapsV, bool)>) -> LookupV {
    match strip_char(s, '@') {
        Some(u) => LookupV::ViaUser(u),
        None => {
            let name = without(s, '#');
            if channel_id_like(name) {
                LookupV::Found(name)
            } else {
                match looked {
                    None => LookupV::NeedMaps(false),
                    Some((m, forced)) => after_lookup(find_chan(m.channels, name), forced),
                }
            }
        },
    }
}

/// An upper-case ASCII letter or a digit.
pub open spec fn is_id_char(c: char) -> bool {
    ('A' <= c <= 'Z') || ('0' <= c <= '9')
}

/// The shape of a user id: `U` or `W` followed by one or more capital
/// letters and digits (`U012AB3CD`).
pub open spec fn user_id_like(s: Seq<char>) -> bool {
    &&& s.len() > 1
    &&& (s[0] == 'U' || s[0] == 'W')
    &&& forall|i: int| 1 <= i < s.len() ==> is_id_char(#[trigger] s[i])
}

/// User resolution: one leading `@` is dropped; text shaped like a user id
/// is that id; anything else (a user name or a display name, such as
/// `Ursula`) is looked up by user name or display name, in the cache first.
pub open spec fn user_step(s: Seq<char>, looked: Option<(MapsV, bool)>) -> LookupV {
    let name = without(s, '@');
    if user_id_like(name) {
        LookupV::Found(name)
    } else {
        match looked {
            None => LookupV::NeedMaps(false),
            Some((m, forced)) => after_lookup(find_usr(m.users, name), forced),
        }
    }
}

/// Whether text has the shape of a user id (`user_id_like`).
pub fn is_user_id(s: &str) -> (r: bool)
    ensures
        r == user_id_like(s@),
{
    let v = crate::text::chars_of(s);
    if v.len() < 2 || !(v[0] == 'U' || v[0] == 'W') {
        return false;
    }
    let mut i: usize = 1;
    while i < v.len()
        invariant
            1 <= i <= v@.len(),
            v@ == s@,
            forall|k: int| 1 <= k < i ==> is_id_char(#[trigger] v@[k]),
        decreases v.len() - i,
    {
        let c = v[i];
        if !(('A' <= c && c <= 'Z') || ('0' <= c && c <= '9')) {
            return false;
        }
        i = i + 1;
    }
    true
}

fn without_char(s: &str, c: char) -> (r: String)
    ensures
        r@ == without(s@, c),
{
    match strip_prefix_char(s, c) {
        Some(t) => t,
        None => owned(s),
    }
}

impl Client {
    /// One step of resolving a channel argument. `looked` is `None` before
    /// any lookup, or the maps just looked in and whether they were fetched
    /// anew.
    pub fn resolve_channel(&self, s: &str, looked: Option<(&Maps, bool)>) -> (r: Lookup)
        ensures
            r@ == channel_step(s@, maps_view_opt(looked)),
            r matches Lookup::NotFound(e) ==> e matches ScliError::ChannelNotFound(x) && x@ == s@,
    {
        match strip_prefix_char(s, '@') {
            Some(u) => Lookup::ViaUser(u),
            None => {
                let name = without_char(s, '#');
                if is_channel_id(name.as_str()) {
                    return Lookup::Found(name);
                }
                match looked {
                    None => Lookup::NeedMaps(false),
                    Some((m, forced)) => match m.find_channel(name.as_str()) {
                        Some(id) => Lookup::Found(id),
                        None => if forced {
                            Lookup::NotFound(ScliError::ChannelNotFound(owned(s)))
                        } else {
                            Lookup::NeedMaps(true)
                        },
                    },
                }
            },
        }
    }

    /// One step of resolving a user argument (see `resolve_channel`).
    pub fn resolve_user(&self, s: &str, looked: Option<(&Maps, bool)>) -> (r: Lookup)
        ensures
            r@ == user_step(s@, maps_view_opt(looked)),
            r matches Lookup::NotFound(e) ==> e matches ScliError::UserNotFound(x) && x@ == s@,
    {
        let name = without_char(s, '@');
        if is_user_id(name.as_str()) {
            return Lookup::Found(name);
        }
        match looked {
            None => Lookup::NeedMaps(false),
            Some((m, forced)) => match m.find_user(name.as_str()) {
                Some(id) => Lookup::Found(id),
                None => if forced {
                    Lookup::NotFound(ScliError::UserNotFound(owned(s)))
                } else {
                    Lookup::NeedMaps(true)
                },
            },
        }
    }

    /// The DM channel of a `@user` argument, from the `conversations.open`
    /// reply: its `channel.id`, or the argument itself.
    pub fn opened_channel(&self, opened: &Json, s: &str) -> (r: String)
        ensures
            r@ == str_or(opened@.at("channel"@).at("id"@), s@),
    {
        owned(str_or_else(at(at(Some(opened), "channel"), "id"), s))
    }
}

/// A raw conversation id, bare or after `#`, resolves to itself without any
/// lookup, whatever maps are at hand.
pub proof fn law_raw_channel_id_is_itself(id: Seq<char>, looked: Option<(MapsV, bool)>)
    requires
        channel_id_like(id),
    ensures
        channel_step(id, looked) == LookupV::Found(id),
        channel_step(seq!['#'] + id, looked) == LookupV::Found(id),
{
    assert((seq!['#'] + id).drop_first() =~= id);
}

/// A `@name` channel argument always goes through the user `name`.
pub proof fn law_at_channel_goes_through_user(name: Seq<char>, looked: Option<(MapsV, bool)>)
    ensures
        channel_step(seq!['@'] + name, looked) == LookupV::ViaUser(name),
{
    assert((seq!['@'] + name).drop_first() =~= name);
}

/// Text shaped like a user id (`U` or `W`, then capital letters and digits),
/// bare or after `@`, resolves to itself without any lookup.
pub proof fn law_user_id_is_itself(id: Seq<char>, looked: Option<(MapsV, bool)>)
    requires
        user_id_like(id),
    ensures
        user_step(id, looked) == LookupV::Found(id),
        user_step(seq!['@'] + id, looked) == LookupV::Found(id),
{
    assert((seq!['@'] + id).drop_first() =~= id);
}

/// Any other user argument, such as a display name that starts with `U`, is
/// looked up in the maps: found there, it resolves to the id of its first
/// entry.
pub proof fn law_user_name_is_looked_up(s: Seq<char>, m: MapsV, forced: bool)
    requires
        !user_id_like(without(s, '@')),
    ensures
        user_step(s, None) == LookupV::NeedMaps(false),
        find_usr(m.users, without(s, '@')) matches Some(id) ==> user_step(s, Some((m, forced)))
            == LookupV::Found(id),
{
}

/// A lookup in freshly fetched maps is final: resolution never asks for
/// maps a third time.
pub proof fn law_fresh_lookup_is_final(s: Seq<char>, m: MapsV)
    ensures
        !(channel_step(s, Some((m, true))) is NeedMaps),
        !(user_step(s, Some((m, true))) is NeedMaps),
{
}

/// A name that the maps know resolves to the id of its first entry, from
/// the cache as from fresh maps.
pub proof fn law_known_name_resolves(s: Seq<char>, m: MapsV, forced: bool)
    requires
        strip_char(s, '@') is None,
        !channel_id_like(without(s, '#')),
        find_chan(m.channels, without(s, '#')) is Some,
    ensures
        channel_step(s, Some((m, forced))) == LookupV::Found(
            find_chan(m.channels, without(s, '#'))->0,
        ),
{
}

/// A name that the cache does not know is looked up once more in freshly
/// fetched maps, and only a miss there is an error.
pub proof fn law_miss_refetches_once(s: Seq<char>, cached: MapsV, fresh: MapsV)
    requires
        strip_char(s, '@') is None,
        !channel_id_like(without(s, '#')),
        find_chan(cached.channels, without(s, '#')) is None,
    ensures
        channel_step(s, Some((cached, false))) == LookupV::NeedMaps(true),
        find_chan(fresh.channels, without(s, '#')) is None ==> channel_step(s, Some((fresh, true)))
            == LookupV::NotFound,
{
}

} // verus!

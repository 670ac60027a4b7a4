//! The line-oriented output of the read commands: one line per message,
//! channel, user, attachment, file or reminder, built from Web API replies.

use vstd::prelude::*;
use crate::json::{Json, JsonV, view_opt, at, as_str, as_bool, as_i64, as_array, elems_view, lemma_elems_view};
use crate::api::{str_or, str_or_else, ApiCall, Client, conversations_list, users_list, pairs_view};
use crate::error::ScliError;
use crate::text::same_text;
use crate::text::{
    owned, concat2, fmt_i64, fmt_usize, dec_int, dec_nat, flatten_newlines, replace_char,
    contains_ci, is_substring, lowercase, trim, trim_ws,
};

verus! {

pub open spec fn strings_view(v: Seq<String>) -> Seq<Seq<char>> {
    v.map_values(|s: String| s@)
}

/// Items separated by `sep` (`[..].join(sep)`).
pub open spec fn join(items: Seq<Seq<char>>, sep: Seq<char>) -> Seq<char>
    decreases items.len(),
{
    if items.len() == 0 {
        seq![]
    } else if items.len() == 1 {
        items[0]
    } else {
        join(items.drop_last(), sep) + sep + items.last()
    }
}

/// Appends an item to a join built so far.
fn join_push(acc: &mut String, first: bool, sep: &str, item: &str, Ghost(items): Ghost<Seq<Seq<char>>>)
    requires
        first <==> items.len() == 0,
        old(acc)@ == join(items, sep@),
    ensures
        final(acc)@ == join(items.push(item@), sep@),
{
    if !first {
        acc.append(sep);
    }
    acc.append(item);
    proof {
        assert(items.push(item@).drop_last() =~= items);
        if first {
            assert(items.push(item@) =~= seq![item@]);
        }
    }
}

/// `v["response_metadata"]["next_cursor"]`, or empty: where the next page starts.
pub open spec fn next_cursor_of(v: JsonV) -> Seq<char> {
    str_or(v.at("response_metadata"@).at("next_cursor"@), ""@)
}

pub fn next_cursor(v: &Json) -> (r: String)
    ensures
        r@ == next_cursor_of(v@),
{
    owned(str_or_else(at(at(Some(v), "response_metadata"), "next_cursor"), ""))
}

// ---------------------------------------------------------------------------
// Messages
// ---------------------------------------------------------------------------

/// `v[k].as_array()`, or no elements.
pub open spec fn array_or_empty(v: JsonV) -> Seq<JsonV> {
    match v.as_array() {
        Some(a) => a,
        None => seq![],
    }
}

/// `name:count` for one reaction.
pub open spec fn reaction_item(r: JsonV) -> Seq<char> {
    str_or(r.at("name"@), "?"@) + ":"@ + dec_int(
        match r.at("count"@).as_i64() {
            Some(n) => n as int,
            None => 0,
        },
    )
}

/// The reactions of a message as `name:count` items separated by spaces.
pub open spec fn reactions_of(m: JsonV) -> Seq<char> {
    match m.at("reactions"@).as_array() {
        Some(rs) => join(rs.map_values(|r: JsonV| reaction_item(r)), " "@),
        None => seq![],
    }
}

pub fn reactions_str(m: &Json) -> (r: String)
    ensures
        r@ == reactions_of(m@),
{
    match as_array(at(Some(m), "reactions")) {
        Some(rs) => {
            let ghost items = elems_view(rs@).map_values(|r: JsonV| reaction_item(r));
            proof {
                lemma_elems_view(rs@);
            }
            let mut acc = String::new();
            let mut i: usize = 0;
            while i < rs.len()
                invariant
                    i <= rs@.len(),
                    elems_view(rs@).len() == rs@.len(),
                    forall|j: int| 0 <= j < rs@.len() ==> #[trigger] elems_view(rs@)[j] == rs@[j]@,
                    items == elems_view(rs@).map_values(|r: JsonV| reaction_item(r)),
                    acc@ == join(items.take(i as int), " "@),
                decreases rs.len() - i,
            {
                let r = &rs[i];
                let name = str_or_else(at(Some(r), "name"), "?");
                let count = match as_i64(at(Some(r), "count")) {
                    Some(n) => n,
                    None => 0,
                };
                let mut item = owned(name);
                item.append(":");
                let c = fmt_i64(count);
                item.append(c.as_str());
                assert(item@ == items[i as int]);
                join_push(&mut acc, i == 0, " ", item.as_str(), Ghost(items.take(i as int)));
                assert(items.take(i + 1) =~= items.take(i as int).push(items[i as int]));
                i = i + 1;
            }
            assert(items.take(rs@.len() as int) =~= items);
            acc
        },
        None => String::new(),
    }
}

/// The tags after a message's text: thread size, reactions, number of
/// uploaded files, number of link attachments.
pub open spec fn message_tags(m: JsonV) -> Seq<char> {
    (match m.at("reply_count"@).as_i64() {
        Some(r) => " [thread:"@ + dec_int(r as int) + "]"@,
        None => seq![],
    }) + (if reactions_of(m).len() > 0 {
        " ["@ + reactions_of(m) + "]"@
    } else {
        seq![]
    }) + (match m.at("files"@).as_array() {
        Some(a) => " [files:"@ + dec_nat(a.len()) + "]"@,
        None => seq![],
    }) + (match m.at("attachments"@).as_array() {
        Some(a) => if a.len() > 0 {
            " [attachments:"@ + dec_nat(a.len()) + "]"@
        } else {
            seq![]
        },
        None => seq![],
    })
}

/// `TS  USER  TEXT[tags]`: the author is `user`, else `bot_id`, else `?`;
/// the text is on one line.
pub open spec fn message_line_of(m: JsonV) -> Seq<char> {
    str_or(m.at("ts"@), ""@) + "  "@ + (match m.at("user"@).as_str() {
        Some(u) => u,
        None => str_or(m.at("bot_id"@), "?"@),
    }) + "  "@ + replace_char(str_or(m.at("text"@), ""@), '\n', ' ') + message_tags(m)
}

fn message_tags_exec(m: &Json) -> (r: String)
    ensures
        r@ == message_tags(m@),
{
    let mut t1 = String::new();
    match as_i64(at(Some(m), "reply_count")) {
        Some(r) => {
            t1.append(" [thread:");
            let n = fmt_i64(r);
            t1.append(n.as_str());
            t1.append("]");
        },
        None => {},
    }
    let reacts = reactions_str(m);
    let mut t2 = String::new();
    if !reacts.as_str().is_empty() {
        t2.append(" [");
        t2.append(reacts.as_str());
        t2.append("]");
    }
    let mut t3 = String::new();
    match as_array(at(Some(m), "files")) {
        Some(a) => {
            proof {
                lemma_elems_view(a@);
            }
            t3.append(" [files:");
            let n = fmt_usize(a.len());
            t3.append(n.as_str());
            t3.append("]");
        },
        None => {},
    }
    let mut t4 = String::new();
    match as_array(at(Some(m), "attachments")) {
        Some(a) => {
            proof {
                lemma_elems_view(a@);
            }
            if a.len() > 0 {
                t4.append(" [attachments:");
                let n = fmt_usize(a.len());
                t4.append(n.as_str());
                t4.append("]");
            }
        },
        None => {},
    }
    let mut tags = t1;
    tags.append(t2.as_str());
    tags.append(t3.as_str());
    tags.append(t4.as_str());
    tags
}

/// One message as a line (`message_line_of`).
pub fn message_line(m: &Json) -> (r: String)
    ensures
        r@ == message_line_of(m@),
{
    let ts = str_or_else(at(Some(m), "ts"), "");
    let user = match as_str(at(Some(m), "user")) {
        Some(u) => u.as_str(),
        None => str_or_else(at(Some(m), "bot_id"), "?"),
    };
    let text = flatten_newlines(str_or_else(at(Some(m), "text"), ""));
    let tags = message_tags_exec(m);
    let mut line = owned(ts);
    line.append("  ");
    line.append(user);
    line.append("  ");
    line.append(text.as_str());
    line.append(tags.as_str());
    line
}

/// The lines for a history or replies answer: its `messages`, oldest first
/// (the API gives them newest first), or `no messages`.
pub open spec fn message_lines_of(v: JsonV) -> Seq<Seq<char>> {
    let msgs = array_or_empty(v.at("messages"@));
    if msgs.len() == 0 {
        seq!["no messages"@]
    } else {
        msgs.reverse().map_values(|m: JsonV| message_line_of(m))
    }
}

pub fn print_messages(v: &Json) -> (r: Vec<String>)
    ensures
        strings_view(r@) == message_lines_of(v@),
{
    let mut out: Vec<String> = Vec::new();
    match as_array(at(Some(v), "messages")) {
        Some(msgs) => {
            proof {
                lemma_elems_view(msgs@);
            }
            if msgs.len() == 0 {
                out.push(owned("no messages"));
                proof {
                    assert(strings_view(out@) =~= seq!["no messages"@]);
                }
                return out;
            }
            let ghost ms = elems_view(msgs@);
            let mut i: usize = msgs.len();
            while i > 0
                invariant
                    i <= msgs@.len(),
                    ms == elems_view(msgs@),
                    ms.len() == msgs@.len(),
                    msgs@.len() > 0,
                    forall|j: int| 0 <= j < msgs@.len() ==> #[trigger] ms[j] == msgs@[j]@,
                    strings_view(out@) == ms.reverse().take(msgs@.len() - i).map_values(
                        |m: JsonV| message_line_of(m),
                    ),
                decreases i,
            {
                let ghost before = out@;
                let line = message_line(&msgs[i - 1]);
                out.push(line);
                proof {
                    let k = msgs@.len() - i;
                    assert(ms.reverse()[k] == ms[i - 1]);
                    assert(ms.reverse().take(k + 1) =~= ms.reverse().take(k).push(ms[i - 1]));
                    assert(strings_view(out@) =~= strings_view(before).push(line@));
                    assert(ms.reverse().take(k + 1).map_values(|m: JsonV| message_line_of(m))
                        =~= ms.reverse().take(k).map_values(|m: JsonV| message_line_of(m)).push(
                        message_line_of(ms[i - 1]),
                    ));
                }
                i = i - 1;
            }
            proof {
                assert(ms.reverse().take(msgs@.len() as int) =~= ms.reverse());
            }
            out
        },
        None => {
            out.push(owned("no messages"));
            proof {
                assert(strings_view(out@) =~= seq!["no messages"@]);
            }
            out
        },
    }
}

// ---------------------------------------------------------------------------
// Channels and users
// ---------------------------------------------------------------------------

/// The client-side filter: none, or a case-insensitive substring.
pub open spec fn passes(filter: Option<Seq<char>>, text: Seq<char>) -> bool {
    match filter {
        None => true,
        Some(q) => is_substring(lowercase(text), lowercase(q)),
    }
}

pub open spec fn opt_str_view(o: Option<String>) -> Option<Seq<char>> {
    match o {
        Some(s) => Some(s@),
        None => None,
    }
}

fn passes_exec(filter: &Option<String>, text: &str) -> (r: bool)
    ensures
        r == passes(opt_str_view(*filter), text@),
{
    match filter {
        None => true,
        Some(q) => contains_ci(text, q.as_str()),
    }
}

/// A channel's name; a DM has none and shows as `dm:USER`.
pub open spec fn channel_name_of(ch: JsonV) -> Seq<char> {
    match ch.at("name"@).as_str() {
        Some(n) => n,
        None => "dm:"@ + str_or(ch.at("user"@), "?"@),
    }
}

/// `ID<TAB>NAME`.
pub open spec fn channel_line_of(ch: JsonV) -> Seq<char> {
    str_or(ch.at("id"@), ""@) + "\t"@ + channel_name_of(ch)
}

/// The lines for the channels that pass the filter, in order.
pub open spec fn channel_lines_from(chs: Seq<JsonV>, filter: Option<Seq<char>>) -> Seq<Seq<char>>
    decreases chs.len(),
{
    if chs.len() == 0 {
        seq![]
    } else {
        let rest = channel_lines_from(chs.drop_last(), filter);
        if passes(filter, channel_name_of(chs.last())) {
            rest.push(channel_line_of(chs.last()))
        } else {
            rest
        }
    }
}

/// The lines for one `conversations.list` page.
pub open spec fn channel_page_lines(v: JsonV, filter: Option<Seq<char>>) -> Seq<Seq<char>> {
    channel_lines_from(array_or_empty(v.at("channels"@)), filter)
}

fn channel_name(ch: &Json) -> (r: String)
    ensures
        r@ == channel_name_of(ch@),
{
    match as_str(at(Some(ch), "name")) {
        Some(n) => n.clone(),
        None => concat2("dm:", str_or_else(at(Some(ch), "user"), "?")),
    }
}

pub fn channel_page(v: &Json, filter: &Option<String>) -> (r: Vec<String>)
    ensures
        strings_view(r@) == channel_page_lines(v@, opt_str_view(*filter)),
{
    let mut out: Vec<String> = Vec::new();
    match as_array(at(Some(v), "channels")) {
        Some(chs) => {
            let ghost cs = elems_view(chs@);
            proof {
                lemma_elems_view(chs@);
                assert(strings_view(out@) =~= seq![]);
                assert(cs.take(0) =~= seq![]);
            }
            let mut i: usize = 0;
            while i < chs.len()
                invariant
                    i <= chs@.len(),
                    cs == elems_view(chs@),
                    cs.len() == chs@.len(),
                    forall|j: int| 0 <= j < chs@.len() ==> #[trigger] cs[j] == chs@[j]@,
                    strings_view(out@) == channel_lines_from(cs.take(i as int), opt_str_view(*filter)),
                decreases chs.len() - i,
            {
                let ch = &chs[i];
                let name = channel_name(ch);
                let ghost before = out@;
                proof {
                    assert(cs.take(i + 1).drop_last() =~= cs.take(i as int));
                    assert(cs.take(i + 1).last() == ch@);
                }
                if passes_exec(filter, name.as_str()) {
                    let mut line = owned(str_or_else(at(Some(ch), "id"), ""));
                    line.append("\t");
                    line.append(name.as_str());
                    out.push(line);
                    proof {
                        assert(strings_view(out@) =~= strings_view(before).push(line@));
                    }
                }
                i = i + 1;
            }
            proof {
                assert(cs.take(chs@.len() as int) =~= cs);
            }
            out
        },
        None => {
            proof {
                assert(strings_view(out@) =~= seq![]);
            }
            out
        },
    }
}

/// Whether a user is listed: not deleted, and the filter (if any) matches
/// the user name or the real name.
pub open spec fn user_listed(u: JsonV, filter: Option<Seq<char>>) -> bool {
    &&& u.at("deleted"@).as_bool() != Some(true)
    &&& match filter {
        None => true,
        Some(q) => passes(filter, str_or(u.at("name"@), ""@)) || passes(
            filter,
            str_or(u.at("profile"@).at("real_name"@), ""@),
        ),
    }
}

/// `ID<TAB>NAME<TAB>REAL_NAME`.
pub open spec fn user_line_of(u: JsonV) -> Seq<char> {
    str_or(u.at("id"@), ""@) + "\t"@ + str_or(u.at("name"@), ""@) + "\t"@ + str_or(
        u.at("profile"@).at("real_name"@),
        ""@,
    )
}

pub open spec fn user_lines_from(us: Seq<JsonV>, filter: Option<Seq<char>>) -> Seq<Seq<char>>
    decreases us.len(),
{
    if us.len() == 0 {
        seq![]
    } else {
        let rest = user_lines_from(us.drop_last(), filter);
        if user_listed(us.last(), filter) {
            rest.push(user_line_of(us.last()))
        } else {
            rest
        }
    }
}

/// The lines for one `users.list` page.
pub open spec fn user_page_lines(v: JsonV, filter: Option<Seq<char>>) -> Seq<Seq<char>> {
    user_lines_from(array_or_empty(v.at("members"@)), filter)
}

pub fn user_page(v: &Json, filter: &Option<String>) -> (r: Vec<String>)
    ensures
        strings_view(r@) == user_page_lines(v@, opt_str_view(*filter)),
{
    let mut out: Vec<String> = Vec::new();
    match as_array(at(Some(v), "members")) {
        Some(us) => {
            let ghost cs = elems_view(us@);
            proof {
                lemma_elems_view(us@);
                assert(strings_view(out@) =~= seq![]);
                assert(cs.take(0) =~= seq![]);
            }
            let mut i: usize = 0;
            while i < us.len()
                invariant
                    i <= us@.len(),
                    cs == elems_view(us@),
                    cs.len() == us@.len(),
                    forall|j: int| 0 <= j < us@.len() ==> #[trigger] cs[j] == us@[j]@,
                    strings_view(out@) == user_lines_from(cs.take(i as int), opt_str_view(*filter)),
                decreases us.len() - i,
            {
                let u = &us[i];
                let ghost before = out@;
                proof {
                    assert(cs.take(i + 1).drop_last() =~= cs.take(i as int));
                    assert(cs.take(i + 1).last() == u@);
                }
                let deleted = as_bool(at(Some(u), "deleted"));
                let name = str_or_else(at(Some(u), "name"), "");
                let real_name = str_or_else(at(at(Some(u), "profile"), "real_name"), "");
                let listed = deleted != Some(true) && (filter.is_none() || passes_exec(filter, name)
                    || passes_exec(filter, real_name));
                if listed {
                    let mut line = owned(str_or_else(at(Some(u), "id"), ""));
                    line.append("\t");
                    line.append(name);
                    line.append("\t");
                    line.append(real_name);
                    out.push(line);
                    proof {
                        assert(strings_view(out@) =~= strings_view(before).push(line@));
                    }
                }
                i = i + 1;
            }
            proof {
                assert(cs.take(us@.len() as int) =~= cs);
            }
            out
        },
        None => {
            proof {
                assert(strings_view(out@) =~= seq![]);
            }
            out
        },
    }
}

// ---------------------------------------------------------------------------
// Paged listings
// ---------------------------------------------------------------------------

/// The `types` value of `conversations.list` for each `--type`.
pub open spec fn channel_types_of(kind: Seq<char>) -> Option<Seq<char>> {
    if kind == "public"@ {
        Some("public_channel"@)
    } else if kind == "private"@ {
        Some("private_channel"@)
    } else if kind == "dm"@ {
        Some("im"@)
    } else if kind == "mpim"@ {
        Some("mpim"@)
    } else if kind == "all"@ {
        Some("public_channel,private_channel,mpim,im"@)
    } else {
        None
    }
}

pub fn channel_types(kind: &str) -> (r: Result<&'static str, ScliError>)
    ensures
        match channel_types_of(kind@) {
            Some(t) => r matches Ok(x) && x@ == t,
            None => r matches Err(ScliError::UnknownChannelType(k)) && k@ == kind@,
        },
{
    if same_text(kind, "public") {
        Ok("public_channel")
    } else if same_text(kind, "private") {
        Ok("private_channel")
    } else if same_text(kind, "dm") {
        Ok("im")
    } else if same_text(kind, "mpim") {
        Ok("mpim")
    } else if same_text(kind, "all") {
        Ok("public_channel,private_channel,mpim,im")
    } else {
        Err(ScliError::UnknownChannelType(owned(kind)))
    }
}

/// `read channels`: pages through `conversations.list`, printing the lines
/// of each page as it comes, then `no channels` if none was printed.
pub struct ChannelListing {
    types: String,
    filter: Option<String>,
    cursor: String,
    done: bool,
    printed: bool,
}

/// The state of a listing: types, filter, next cursor, whether the last
/// page was seen, whether any line was printed.
pub struct ChannelListingV {
    pub types: Seq<char>,
    pub filter: Option<Seq<char>>,
    pub cursor: Seq<char>,
    pub done: bool,
    pub printed: bool,
}

impl View for ChannelListing {
    type V = ChannelListingV;

    closed spec fn view(&self) -> ChannelListingV {
        ChannelListingV {
            types: self.types@,
            filter: opt_str_view(self.filter),
            cursor: self.cursor@,
            done: self.done,
            printed: self.printed,
        }
    }
}

/// A channel listing after one more page: the cursor moves on, the listing
/// is done when the page names no next cursor, and it has printed once any
/// page gave a line.
pub open spec fn channel_listing_next(l: ChannelListingV, v: JsonV) -> ChannelListingV {
    ChannelListingV {
        cursor: next_cursor_of(v),
        done: next_cursor_of(v).len() == 0,
        printed: l.printed || channel_page_lines(v, l.filter).len() > 0,
        ..l
    }
}

/// A channel listing after a run of pages, in order.
pub open spec fn channel_listing_after(l: ChannelListingV, pages: Seq<JsonV>) -> ChannelListingV
    decreases pages.len(),
{
    if pages.len() == 0 {
        l
    } else {
        channel_listing_after(channel_listing_next(l, pages[0]), pages.drop_first())
    }
}

impl Client {
    /// Starts `read channels --type kind [filter]`.
    pub fn channels(&self, kind: &str, filter: Option<String>) -> (r: Result<ChannelListing, ScliError>)
        ensures
            match channel_types_of(kind@) {
                Some(t) => r matches Ok(l) && l@ == (ChannelListingV {
                    types: t,
                    filter: opt_str_view(filter),
                    cursor: seq![],
                    done: false,
                    printed: false,
                }),
                None => r matches Err(ScliError::UnknownChannelType(k)) && k@ == kind@,
            },
    {
        let types = channel_types(kind)?;
        let l = ChannelListing {
            types: owned(types),
            filter,
            cursor: String::new(),
            done: false,
            printed: false,
        };
        Ok(l)
    }

    /// Starts `read users [filter]`.
    pub fn users(&self, filter: Option<String>) -> (r: UserListing)
        ensures
            r@ == (UserListingV { filter: opt_str_view(filter), cursor: seq![], done: false }),
    {
        UserListing { filter, cursor: String::new(), done: false }
    }
}

impl ChannelListing {
    /// Whether the last page has been seen.
    pub fn is_done(&self) -> (r: bool)
        ensures
            r == self@.done,
    {
        self.done
    }

    /// The request for the next page.
    pub fn request(&self) -> (r: ApiCall)
        ensures
            r@ == ("conversations.list"@, seq![
                ("types"@, self@.types),
                ("limit"@, "200"@),
                ("exclude_archived"@, "true"@),
                ("cursor"@, self@.cursor),
            ]),
    {
        conversations_list(self.types.as_str(), self.cursor.as_str())
    }

    /// Takes in a page: gives its lines, moves the cursor on, and is done
    /// when the page names no next cursor.
    pub fn on_page(&mut self, v: &Json) -> (lines: Vec<String>)
        ensures
            strings_view(lines@) == channel_page_lines(v@, old(self)@.filter),
            final(self)@ == channel_listing_next(old(self)@, v@),
    {
        let lines = channel_page(v, &self.filter);
        self.cursor = next_cursor(v);
        self.done = self.cursor.as_str().is_empty();
        self.printed = self.printed || lines.len() > 0;
        lines
    }

    /// The closing line: `no channels` when nothing was printed.
    pub fn finish(&self) -> (r: Option<String>)
        ensures
            match r {
                Some(s) => !self@.printed && s@ == "no channels"@,
                None => self@.printed,
            },
    {
        if self.printed {
            None
        } else {
            Some(owned("no channels"))
        }
    }
}

/// `read users`: pages through `users.list`, printing each page's lines.
pub struct UserListing {
    filter: Option<String>,
    cursor: String,
    done: bool,
}

pub struct UserListingV {
    pub filter: Option<Seq<char>>,
    pub cursor: Seq<char>,
    pub done: bool,
}

impl View for UserListing {
    type V = UserListingV;

    closed spec fn view(&self) -> UserListingV {
        UserListingV { filter: opt_str_view(self.filter), cursor: self.cursor@, done: self.done }
    }
}

impl UserListing {
    pub fn is_done(&self) -> (r: bool)
        ensures
            r == self@.done,
    {
        self.done
    }

    pub fn request(&self) -> (r: ApiCall)
        ensures
            r@ == ("users.list"@, seq![("limit"@, "200"@), ("cursor"@, self@.cursor)]),
    {
        users_list(self.cursor.as_str())
    }

    pub fn on_page(&mut self, v: &Json) -> (lines: Vec<String>)
        ensures
            strings_view(lines@) == user_page_lines(v@, old(self)@.filter),
            final(self)@ == (UserListingV {
                cursor: next_cursor_of(v@),
                done: next_cursor_of(v@).len() == 0,
                ..old(self)@
            }),
    {
        let lines = user_page(v, &self.filter);
        self.cursor = next_cursor(v);
        self.done = self.cursor.as_str().is_empty();
        lines
    }
}

// ---------------------------------------------------------------------------
// Files and link attachments
// ---------------------------------------------------------------------------

/// `s` with newlines flattened.
pub open spec fn one_line(s: Seq<char>) -> Seq<char> {
    replace_char(s, '\n', ' ')
}

/// `TITLE: VALUE` of an attachment field, trimmed.
pub open spec fn field_part(f: JsonV) -> Seq<char> {
    trim_ws(str_or(f.at("title"@), ""@) + ": "@ + one_line(str_or(f.at("value"@), ""@)))
}

/// The link of an attachment: `title_link`, else `from_url`, else empty.
pub open spec fn attachment_link(a: JsonV) -> Seq<char> {
    match a.at("title_link"@).as_str() {
        Some(l) => l,
        None => str_or(a.at("from_url"@), ""@),
    }
}

/// The parts of an attachment line: pretext, `TITLE<TAB>LINK`, text and the
/// fields, each only when not empty (the fields always).
pub open spec fn attachment_parts(a: JsonV) -> Seq<Seq<char>> {
    let pretext = one_line(str_or(a.at("pretext"@), ""@));
    let title = str_or(a.at("title"@), ""@);
    let link = attachment_link(a);
    let text = one_line(str_or(a.at("text"@), ""@));
    (if pretext.len() > 0 {
        seq![pretext]
    } else {
        seq![]
    }) + (if title.len() > 0 || link.len() > 0 {
        seq![trim_ws(title + "\t"@ + link)]
    } else {
        seq![]
    }) + (if text.len() > 0 {
        seq![text]
    } else {
        seq![]
    }) + array_or_empty(a.at("fields"@)).map_values(|f: JsonV| field_part(f))
}

/// `attachment<TAB>PARTS` with the parts separated by ` | `.
pub open spec fn attachment_line_of(a: JsonV) -> Seq<char> {
    "attachment"@ + "\t"@ + join(attachment_parts(a), " | "@)
}

fn push_part(acc: &mut String, empty: &mut bool, part: &str, Ghost(items): Ghost<Seq<Seq<char>>>)
    requires
        *old(empty) <==> items.len() == 0,
        old(acc)@ == join(items, " | "@),
    ensures
        !*final(empty),
        final(acc)@ == join(items.push(part@), " | "@),
{
    join_push(acc, *empty, " | ", part, Ghost(items));
    *empty = false;
}

pub fn attachment_line(a: &Json) -> (r: String)
    ensures
        r@ == attachment_line_of(a@),
{
    let pretext = flatten_newlines(str_or_else(at(Some(a), "pretext"), ""));
    let title = str_or_else(at(Some(a), "title"), "");
    let link = match as_str(at(Some(a), "title_link")) {
        Some(l) => l.as_str(),
        None => str_or_else(at(Some(a), "from_url"), ""),
    };
    let text = flatten_newlines(str_or_else(at(Some(a), "text"), ""));
    let mut acc = String::new();
    let mut n: bool = true;
    let ghost mut items: Seq<Seq<char>> = seq![];
    if !pretext.as_str().is_empty() {
        push_part(&mut acc, &mut n, pretext.as_str(), Ghost(items));
        proof {
            items = items.push(pretext@);
        }
    }
    if !title.is_empty() || !link.is_empty() {
        let mut tl = owned(title);
        tl.append("\t");
        tl.append(link);
        let t = crate::text::trim(tl.as_str());
        push_part(&mut acc, &mut n, t.as_str(), Ghost(items));
        proof {
            items = items.push(t@);
        }
    }
    if !text.as_str().is_empty() {
        push_part(&mut acc, &mut n, text.as_str(), Ghost(items));
        proof {
            items = items.push(text@);
        }
    }
    let ghost head = items;
    proof {
        assert(head =~= attachment_parts(a@).take(head.len() as int)) by {
            assert(attachment_parts(a@) =~= head + array_or_empty(a@.at("fields"@)).map_values(
                |f: JsonV| field_part(f),
            ));
        }
    }
    match as_array(at(Some(a), "fields")) {
        Some(fs) => {
            proof {
                lemma_elems_view(fs@);
            }
            let mut i: usize = 0;
            while i < fs.len()
                invariant
                    i <= fs@.len(),
                    elems_view(fs@).len() == fs@.len(),
                    forall|j: int| 0 <= j < fs@.len() ==> #[trigger] elems_view(fs@)[j] == fs@[j]@,
                    n <==> head.len() + i == 0,
                    acc@ == join(
                        head + elems_view(fs@).take(i as int).map_values(|f: JsonV| field_part(f)),
                        " | "@,
                    ),
                decreases fs.len() - i,
            {
                let f = &fs[i];
                let mut ft = owned(str_or_else(at(Some(f), "title"), ""));
                ft.append(": ");
                let v = flatten_newlines(str_or_else(at(Some(f), "value"), ""));
                ft.append(v.as_str());
                let part = crate::text::trim(ft.as_str());
                let ghost prev = head + elems_view(fs@).take(i as int).map_values(
                    |f: JsonV| field_part(f),
                );
                push_part(&mut acc, &mut n, part.as_str(), Ghost(prev));
                proof {
                    assert(part@ == field_part(elems_view(fs@)[i as int]));
                    assert(head + elems_view(fs@).take(i + 1).map_values(|f: JsonV| field_part(f))
                        =~= prev.push(part@));
                }
                i = i + 1;
            }
            proof {
                assert(elems_view(fs@).take(fs@.len() as int) =~= elems_view(fs@));
                assert(attachment_parts(a@) =~= head + elems_view(fs@).map_values(
                    |f: JsonV| field_part(f),
                ));
            }
        },
        None => {
            proof {
                assert(attachment_parts(a@) =~= head);
                assert(head =~= head + Seq::<JsonV>::empty().map_values(|f: JsonV| field_part(f)));
            }
        },
    }
    let mut line = owned("attachment");
    line.append("\t");
    line.append(acc.as_str());
    line
}

/// An uploaded file: its name (`file` when it has none) and its private
/// download URL (`url_private_download`, else `url_private`, else empty).
pub open spec fn file_entry_of(f: JsonV) -> (Seq<char>, Seq<char>) {
    (
        str_or(f.at("name"@), "file"@),
        match f.at("url_private_download"@).as_str() {
            Some(u) => u,
            None => str_or(f.at("url_private"@), ""@),
        },
    )
}

/// What `read files` shows of a message: the attachment lines, and the
/// uploaded files to list or download.
#[derive(Debug, Clone, PartialEq)]
pub struct FilesReport {
    pub lines: Vec<String>,
    pub files: Vec<(String, String)>,
}

/// The message of a `conversations.replies` answer that `read files` looks
/// at: the first one.
pub open spec fn first_message(v: JsonV) -> Option<JsonV> {
    let ms = array_or_empty(v.at("messages"@));
    if ms.len() > 0 {
        Some(ms[0])
    } else {
        None
    }
}

/// The attachment lines of a message, or `no files or attachments` when it
/// has neither files nor attachments.
pub open spec fn files_lines_of(m: JsonV) -> Seq<Seq<char>> {
    let fs = array_or_empty(m.at("files"@));
    let ats = array_or_empty(m.at("attachments"@));
    if fs.len() == 0 && ats.len() == 0 {
        seq!["no files or attachments"@]
    } else {
        ats.map_values(|a: JsonV| attachment_line_of(a))
    }
}

/// The uploaded files of a message.
pub open spec fn files_of(m: JsonV) -> Seq<(Seq<char>, Seq<char>)> {
    array_or_empty(m.at("files"@)).map_values(|f: JsonV| file_entry_of(f))
}

fn file_entry(f: &Json) -> (r: (String, String))
    ensures
        (r.0@, r.1@) == file_entry_of(f@),
{
    let name = owned(str_or_else(at(Some(f), "name"), "file"));
    let url = match as_str(at(Some(f), "url_private_download")) {
        Some(u) => u.clone(),
        None => owned(str_or_else(at(Some(f), "url_private"), "")),
    };
    (name, url)
}

impl Client {
    /// `read files CHANNEL TS`, from the reply about that message.
    pub fn files(&self, v: &Json) -> (r: Result<FilesReport, ScliError>)
        ensures
            match first_message(v@) {
                None => r == Err::<FilesReport, ScliError>(ScliError::MessageNotFound),
                Some(m) => r matches Ok(rep) && strings_view(rep.lines@) == files_lines_of(m)
                    && pairs_view(rep.files@) == files_of(m),
            },
    {
        let msgs = match as_array(at(Some(v), "messages")) {
            Some(ms) => ms,
            None => {
                return Err(ScliError::MessageNotFound);
            },
        };
        proof {
            lemma_elems_view(msgs@);
        }
        if msgs.len() == 0 {
            return Err(ScliError::MessageNotFound);
        }
        let m = &msgs[0];
        let mut lines: Vec<String> = Vec::new();
        let mut files: Vec<(String, String)> = Vec::new();
        let fs = as_array(at(Some(m), "files"));
        let ats = as_array(at(Some(m), "attachments"));
        let nf = match fs {
            Some(x) => x.len(),
            None => 0,
        };
        let na = match ats {
            Some(x) => x.len(),
            None => 0,
        };
        proof {
            match fs {
                Some(x) => lemma_elems_view(x@),
                None => {},
            }
            match ats {
                Some(x) => lemma_elems_view(x@),
                None => {},
            }
        }
        if nf == 0 && na == 0 {
            lines.push(owned("no files or attachments"));
            proof {
                assert(strings_view(lines@) =~= seq!["no files or attachments"@]);
                assert(pairs_view(files@) =~= files_of(m@));
            }
            return Ok(FilesReport { lines, files });
        }
        match ats {
            Some(x) => {
                let mut i: usize = 0;
                while i < x.len()
                    invariant
                        i <= x@.len(),
                        elems_view(x@).len() == x@.len(),
                        forall|j: int| 0 <= j < x@.len() ==> #[trigger] elems_view(x@)[j] == x@[j]@,
                        strings_view(lines@) == elems_view(x@).take(i as int).map_values(
                            |a: JsonV| attachment_line_of(a),
                        ),
                    decreases x.len() - i,
                {
                    let ghost before = lines@;
                    let l = attachment_line(&x[i]);
                    lines.push(l);
                    proof {
                        assert(strings_view(lines@) =~= strings_view(before).push(l@));
                        assert(elems_view(x@).take(i + 1).map_values(|a: JsonV| attachment_line_of(a))
                            =~= elems_view(x@).take(i as int).map_values(
                            |a: JsonV| attachment_line_of(a),
                        ).push(attachment_line_of(elems_view(x@)[i as int])));
                    }
                    i = i + 1;
                }
                proof {
                    assert(elems_view(x@).take(x@.len() as int) =~= elems_view(x@));
                }
            },
            None => {
                proof {
                    assert(strings_view(lines@) =~= Seq::<JsonV>::empty().map_values(
                        |a: JsonV| attachment_line_of(a),
                    ));
                }
            },
        }
        match fs {
            Some(x) => {
                let mut i: usize = 0;
                while i < x.len()
                    invariant
                        i <= x@.len(),
                        elems_view(x@).len() == x@.len(),
                        forall|j: int| 0 <= j < x@.len() ==> #[trigger] elems_view(x@)[j] == x@[j]@,
                        pairs_view(files@) == elems_view(x@).take(i as int).map_values(
                            |f: JsonV| file_entry_of(f),
                        ),
                    decreases x.len() - i,
                {
                    let ghost before = files@;
                    let e = file_entry(&x[i]);
                    let ghost ev = (e.0@, e.1@);
                    files.push(e);
                    proof {
                        assert(pairs_view(files@) =~= pairs_view(before).push(ev));
                        assert(elems_view(x@).take(i + 1).map_values(|f: JsonV| file_entry_of(f))
                            =~= elems_view(x@).take(i as int).map_values(
                            |f: JsonV| file_entry_of(f),
                        ).push(file_entry_of(elems_view(x@)[i as int])));
                    }
                    i = i + 1;
                }
                proof {
                    assert(elems_view(x@).take(x@.len() as int) =~= elems_view(x@));
                }
            },
            None => {
                proof {
                    assert(pairs_view(files@) =~= Seq::<JsonV>::empty().map_values(
                        |f: JsonV| file_entry_of(f),
                    ));
                }
            },
        }
        Ok(FilesReport { lines, files })
    }
}

/// `NAME<TAB>URL`, how a file is listed when not downloaded.
pub fn file_line(name: &str, url: &str) -> (r: String)
    ensures
        r@ == name@ + "\t"@ + url@,
{
    let mut r = owned(name);
    r.append("\t");
    r.append(url);
    r
}

/// `saved PATH`, after a download.
pub fn saved_line(path: &str) -> (r: String)
    ensures
        r@ == "saved "@ + path@,
{
    concat2("saved ", path)
}

// ---------------------------------------------------------------------------
// Reminders, posting, reactions
// ---------------------------------------------------------------------------

/// The warning printed before either reminders call.
pub const REMINDERS_DEPRECATED: &'static str = "warning: Slack reminders.* is deprecated and may stop working";

/// `ID<TAB>TIME<TAB>TEXT`.
pub open spec fn reminder_line_of(r: JsonV) -> Seq<char> {
    str_or(r.at("id"@), ""@) + "\t"@ + dec_int(
        match r.at("time"@).as_i64() {
            Some(t) => t as int,
            None => 0,
        },
    ) + "\t"@ + str_or(r.at("text"@), ""@)
}

/// The lines of `write remind list`, or `no reminders`.
pub open spec fn reminder_lines_of(v: JsonV) -> Seq<Seq<char>> {
    let rs = array_or_empty(v.at("reminders"@));
    if rs.len() == 0 {
        seq!["no reminders"@]
    } else {
        rs.map_values(|r: JsonV| reminder_line_of(r))
    }
}

fn reminder_line(r: &Json) -> (s: String)
    ensures
        s@ == reminder_line_of(r@),
{
    let mut s = owned(str_or_else(at(Some(r), "id"), ""));
    s.append("\t");
    let t = match as_i64(at(Some(r), "time")) {
        Some(t) => t,
        None => 0,
    };
    let ts = fmt_i64(t);
    s.append(ts.as_str());
    s.append("\t");
    s.append(str_or_else(at(Some(r), "text"), ""));
    s
}

impl Client {
    /// The output of `write remind list`.
    pub fn remind_list(&self, v: &Json) -> (r: Vec<String>)
        ensures
            strings_view(r@) == reminder_lines_of(v@),
    {
        let mut out: Vec<String> = Vec::new();
        match as_array(at(Some(v), "reminders")) {
            Some(rs) => {
                proof {
                    lemma_elems_view(rs@);
                }
                if rs.len() == 0 {
                    out.push(owned("no reminders"));
                    proof {
                        assert(strings_view(out@) =~= seq!["no reminders"@]);
                    }
                    return out;
                }
                let mut i: usize = 0;
                while i < rs.len()
                    invariant
                        i <= rs@.len(),
                        elems_view(rs@).len() == rs@.len(),
                        forall|j: int| 0 <= j < rs@.len() ==> #[trigger] elems_view(rs@)[j] == rs@[j]@,
                        strings_view(out@) == elems_view(rs@).take(i as int).map_values(
                            |r: JsonV| reminder_line_of(r),
                        ),
                    decreases rs.len() - i,
                {
                    let ghost before = out@;
                    let l = reminder_line(&rs[i]);
                    out.push(l);
                    proof {
                        assert(strings_view(out@) =~= strings_view(before).push(l@));
                        assert(elems_view(rs@).take(i + 1).map_values(|r: JsonV| reminder_line_of(r))
                            =~= elems_view(rs@).take(i as int).map_values(
                            |r: JsonV| reminder_line_of(r),
                        ).push(reminder_line_of(elems_view(rs@)[i as int])));
                    }
                    i = i + 1;
                }
                proof {
                    assert(elems_view(rs@).take(rs@.len() as int) =~= elems_view(rs@));
                }
                out
            },
            None => {
                out.push(owned("no reminders"));
                proof {
                    assert(strings_view(out@) =~= seq!["no reminders"@]);
                }
                out
            },
        }
    }

    /// The line after `write remind add`: the new reminder's id, or `ok`.
    pub fn remind_add_line(&self, v: &Json) -> (r: String)
        ensures
            r@ == str_or(v@.at("reminder"@).at("id"@), "ok"@),
    {
        owned(str_or_else(at(at(Some(v), "reminder"), "id"), "ok"))
    }

    /// The line after `write send` without files: the message's `ts`, or `ok`.
    pub fn sent_line(&self, v: &Json) -> (r: String)
        ensures
            r@ == str_or(v@.at("ts"@), "ok"@),
    {
        owned(str_or_else(at(Some(v), "ts"), "ok"))
    }
}

proof fn lemma_listing_keeps(l: ChannelListingV, pages: Seq<JsonV>)
    ensures
        channel_listing_after(l, pages).filter == l.filter,
        l.printed ==> channel_listing_after(l, pages).printed,
    decreases pages.len(),
{
    if pages.len() > 0 {
        lemma_listing_keeps(channel_listing_next(l, pages[0]), pages.drop_first());
    }
}

/// `read channels` ends with `no channels` exactly when no page of the
/// listing gave a line: starting from nothing printed, the listing has
/// printed after a run of pages iff some page's lines were not empty.
pub proof fn law_no_channels_iff_none_listed(l: ChannelListingV, pages: Seq<JsonV>)
    requires
        !l.printed,
    ensures
        !channel_listing_after(l, pages).printed <==> forall|i: int|
            0 <= i < pages.len() ==> #[trigger] channel_page_lines(pages[i], l.filter).len() == 0,
    decreases pages.len(),
{
    if pages.len() > 0 {
        let n = channel_listing_next(l, pages[0]);
        let rest = pages.drop_first();
        assert forall|j: int| 0 <= j < rest.len() implies #[trigger] rest[j] == pages[j + 1] by {}
        if n.printed {
            lemma_listing_keeps(n, rest);
            assert(channel_page_lines(pages[0], l.filter).len() > 0);
        } else {
            // the first page gave no line; the rest decides
            law_no_channels_iff_none_listed(n, rest);
            let all_empty = forall|i: int|
                0 <= i < pages.len() ==> #[trigger] channel_page_lines(pages[i], l.filter).len() == 0;
            let rest_empty = forall|j: int|
                0 <= j < rest.len() ==> #[trigger] channel_page_lines(rest[j], l.filter).len() == 0;
            if rest_empty {
                assert forall|i: int| 0 <= i < pages.len() implies #[trigger] channel_page_lines(
                    pages[i],
                    l.filter,
                ).len() == 0 by {
                    if i > 0 {
                        assert(pages[i] == rest[i - 1]);
                    }
                }
            }
            if all_empty {
                assert forall|j: int| 0 <= j < rest.len() implies #[trigger] channel_page_lines(
                    rest[j],
                    l.filter,
                ).len() == 0 by {
                    assert(rest[j] == pages[j + 1]);
                }
            }
        }
    }
}

proof fn lemma_attachment_line_prefix(a: JsonV)
    ensures
        crate::text::has_prefix(attachment_line_of(a), "attachment\t"@),
        attachment_line_of(a) != "no files or attachments"@,
{
    reveal_strlit("attachment");
    reveal_strlit("\t");
    reveal_strlit("attachment\t");
    reveal_strlit("no files or attachments");
    let l = attachment_line_of(a);
    assert(l.take(11) =~= "attachment\t"@);
    assert(l[0] == 'a');
    assert("no files or attachments"@[0] == 'n');
}

/// `read files` says `no files or attachments` exactly when the message has
/// neither uploaded files nor attachments. Otherwise it prints one
/// `attachment<TAB>…` line per attachment and nothing else: a message with
/// only uploaded files prints no line before its files.
pub proof fn law_files_report_lines(m: JsonV)
    ensures
        ({
            let fs = array_or_empty(m.at("files"@));
            let ats = array_or_empty(m.at("attachments"@));
            &&& (fs.len() == 0 && ats.len() == 0) ==> files_lines_of(m) == seq![
                "no files or attachments"@,
            ]
            &&& !(fs.len() == 0 && ats.len() == 0) ==> files_lines_of(m).len() == ats.len()
                && forall|i: int|
                0 <= i < ats.len() ==> crate::text::has_prefix(
                    #[trigger] files_lines_of(m)[i],
                    "attachment\t"@,
                )
            &&& files_lines_of(m).contains("no files or attachments"@) <==> (fs.len() == 0
                && ats.len() == 0)
        }),
{
    let fs = array_or_empty(m.at("files"@));
    let ats = array_or_empty(m.at("attachments"@));
    let ls = files_lines_of(m);
    if fs.len() == 0 && ats.len() == 0 {
        assert(ls[0] == "no files or attachments"@);
    } else {
        assert forall|i: int| 0 <= i < ats.len() implies crate::text::has_prefix(
            #[trigger] ls[i],
            "attachment\t"@,
        ) && ls[i] != "no files or attachments"@ by {
            lemma_attachment_line_prefix(ats[i]);
        }
    }
}

} // verus!

//! Slack Web API requests and replies: what each call sends, how a reply is
//! checked, and the client that signs requests.

use vstd::prelude::*;
use crate::error::ScliError;
use crate::json::{Json, JsonV, view_opt, at, as_str, as_bool};
use crate::text::{owned, concat2, starts_with, has_prefix, fmt_u64, dec_nat, trim_matches_char, trim_char};

verus! {

/// Base URL of the Slack Web API.
pub const API: &'static str = "https://slack.com/api";

pub open spec fn pairs_view(v: Seq<(String, String)>) -> Seq<(Seq<char>, Seq<char>)> {
    v.map_values(|p: (String, String)| (p.0@, p.1@))
}

/// One Web API method call with its form parameters, in order.
#[derive(Debug, Clone, PartialEq)]
pub struct ApiCall {
    pub method: String,
    pub params: Vec<(String, String)>,
}

impl View for ApiCall {
    type V = (Seq<char>, Seq<(Seq<char>, Seq<char>)>);

    open spec fn view(&self) -> Self::V {
        (self.method@, pairs_view(self.params@))
    }
}

/// An HTTP POST of a form: the URL, the headers and the form fields.
#[derive(Debug, Clone, PartialEq)]
pub struct HttpRequest {
    pub url: String,
    pub headers: Vec<(String, String)>,
    pub form: Vec<(String, String)>,
}

/// What became of a request: a reply body (JSON, or the reason it is not),
/// an HTTP error status with its body text, or a failure to make the request.
#[derive(Debug, PartialEq)]
pub enum HttpOutcome {
    Reply(Result<Json, String>),
    Status(u16, String),
    Transport(String),
}

pub(crate) fn pair(k: &str, v: &str) -> (r: (String, String))
    ensures
        r.0@ == k@,
        r.1@ == v@,
{
    (owned(k), owned(v))
}

pub(crate) fn push_param(ps: &mut Vec<(String, String)>, k: &str, v: &str)
    ensures
        pairs_view(final(ps)@) == pairs_view(old(ps)@).push((k@, v@)),
{
    let ghost before = ps@;
    ps.push(pair(k, v));
    proof {
        assert(pairs_view(ps@) =~= pairs_view(before).push((k@, v@)));
    }
}

pub(crate) fn call_of(method: &str, ps: Vec<(String, String)>) -> (r: ApiCall)
    ensures
        r@ == (method@, pairs_view(ps@)),
{
    ApiCall { method: owned(method), params: ps }
}

pub(crate) fn no_params() -> (r: Vec<(String, String)>)
    ensures
        pairs_view(r@) == Seq::<(Seq<char>, Seq<char>)>::empty(),
{
    let r: Vec<(String, String)> = Vec::new();
    proof {
        assert(pairs_view(r@) =~= Seq::<(Seq<char>, Seq<char>)>::empty());
    }
    r
}

/// `conversations.list` for one page: the given types, 200 per page, no
/// archived channels, from `cursor`.
pub fn conversations_list(types: &str, cursor: &str) -> (r: ApiCall)
    ensures
        r@ == ("conversations.list"@, seq![
            ("types"@, types@),
            ("limit"@, "200"@),
            ("exclude_archived"@, "true"@),
            ("cursor"@, cursor@),
        ]),
{
    let mut ps = no_params();
    push_param(&mut ps, "types", types);
    push_param(&mut ps, "limit", "200");
    push_param(&mut ps, "exclude_archived", "true");
    push_param(&mut ps, "cursor", cursor);
    proof {
        assert(pairs_view(ps@) =~= seq![
            ("types"@, types@),
            ("limit"@, "200"@),
            ("exclude_archived"@, "true"@),
            ("cursor"@, cursor@),
        ]);
    }
    call_of("conversations.list", ps)
}

/// `users.list` for one page: 200 per page, from `cursor`.
pub fn users_list(cursor: &str) -> (r: ApiCall)
    ensures
        r@ == ("users.list"@, seq![("limit"@, "200"@), ("cursor"@, cursor@)]),
{
    let mut ps = no_params();
    push_param(&mut ps, "limit", "200");
    push_param(&mut ps, "cursor", cursor);
    proof {
        assert(pairs_view(ps@) =~= seq![("limit"@, "200"@), ("cursor"@, cursor@)]);
    }
    call_of("users.list", ps)
}

/// `conversations.open` with one user: opens (or finds) the DM with them.
pub fn open_conversation(user_id: &str) -> (r: ApiCall)
    ensures
        r@ == ("conversations.open"@, seq![("users"@, user_id@)]),
{
    let mut ps = no_params();
    push_param(&mut ps, "users", user_id);
    proof {
        assert(pairs_view(ps@) =~= seq![("users"@, user_id@)]);
    }
    call_of("conversations.open", ps)
}

/// `conversations.replies` for the one message at `ts` (the parent comes first).
pub fn single_message(channel_id: &str, ts: &str) -> (r: ApiCall)
    ensures
        r@ == ("conversations.replies"@, seq![
            ("channel"@, channel_id@),
            ("ts"@, ts@),
            ("limit"@, "1"@),
        ]),
{
    let mut ps = no_params();
    push_param(&mut ps, "channel", channel_id);
    push_param(&mut ps, "ts", ts);
    push_param(&mut ps, "limit", "1");
    proof {
        assert(pairs_view(ps@) =~= seq![
            ("channel"@, channel_id@),
            ("ts"@, ts@),
            ("limit"@, "1"@),
        ]);
    }
    call_of("conversations.replies", ps)
}

/// `chat.postMessage`, in a thread when `thread` is given.
pub fn post_message(channel_id: &str, text: &str, thread: Option<&str>) -> (r: ApiCall)
    ensures
        r@ == ("chat.postMessage"@, seq![("channel"@, channel_id@), ("text"@, text@)] + match thread {
            Some(t) => seq![("thread_ts"@, t@)],
            None => Seq::<(Seq<char>, Seq<char>)>::empty(),
        }),
{
    let mut ps = no_params();
    push_param(&mut ps, "channel", channel_id);
    push_param(&mut ps, "text", text);
    match thread {
        Some(t) => push_param(&mut ps, "thread_ts", t),
        None => {},
    }
    proof {
        assert(pairs_view(ps@) =~= seq![("channel"@, channel_id@), ("text"@, text@)] + match thread {
            Some(t) => seq![("thread_ts"@, t@)],
            None => Seq::<(Seq<char>, Seq<char>)>::empty(),
        });
    }
    call_of("chat.postMessage", ps)
}

/// `files.getUploadURLExternal` for a file of `length` bytes.
pub fn upload_url_request(filename: &str, length: u64) -> (r: ApiCall)
    ensures
        r@ == ("files.getUploadURLExternal"@, seq![
            ("filename"@, filename@),
            ("length"@, dec_nat(length as nat)),
        ]),
{
    let len = fmt_u64(length);
    let mut ps = no_params();
    push_param(&mut ps, "filename", filename);
    push_param(&mut ps, "length", len.as_str());
    proof {
        assert(pairs_view(ps@) =~= seq![
            ("filename"@, filename@),
            ("length"@, dec_nat(length as nat)),
        ]);
    }
    call_of("files.getUploadURLExternal", ps)
}

/// `files.completeUploadExternal`: shares the uploaded files (given as their
/// JSON array text) to a channel with a comment, in a thread when given.
pub fn complete_upload(files_json: &str, channel_id: &str, comment: &str, thread: Option<&str>) -> (r:
    ApiCall)
    ensures
        r@ == ("files.completeUploadExternal"@, seq![
            ("files"@, files_json@),
            ("channel_id"@, channel_id@),
            ("initial_comment"@, comment@),
        ] + match thread {
            Some(t) => seq![("thread_ts"@, t@)],
            None => Seq::<(Seq<char>, Seq<char>)>::empty(),
        }),
{
    let mut ps = no_params();
    push_param(&mut ps, "files", files_json);
    push_param(&mut ps, "channel_id", channel_id);
    push_param(&mut ps, "initial_comment", comment);
    match thread {
        Some(t) => push_param(&mut ps, "thread_ts", t),
        None => {},
    }
    proof {
        assert(pairs_view(ps@) =~= seq![
            ("files"@, files_json@),
            ("channel_id"@, channel_id@),
            ("initial_comment"@, comment@),
        ] + match thread {
            Some(t) => seq![("thread_ts"@, t@)],
            None => Seq::<(Seq<char>, Seq<char>)>::empty(),
        });
    }
    call_of("files.completeUploadExternal", ps)
}

/// `reactions.add`; the emoji name loses any surrounding colons.
pub fn add_reaction(channel_id: &str, ts: &str, emoji: &str) -> (r: ApiCall)
    ensures
        r@ == ("reactions.add"@, seq![
            ("channel"@, channel_id@),
            ("timestamp"@, ts@),
            ("name"@, trim_char(emoji@, ':')),
        ]),
{
    let name = trim_matches_char(emoji, ':');
    let mut ps = no_params();
    push_param(&mut ps, "channel", channel_id);
    push_param(&mut ps, "timestamp", ts);
    push_param(&mut ps, "name", name.as_str());
    proof {
        assert(pairs_view(ps@) =~= seq![
            ("channel"@, channel_id@),
            ("timestamp"@, ts@),
            ("name"@, trim_char(emoji@, ':')),
        ]);
    }
    call_of("reactions.add", ps)
}

/// `reminders.list`, with no parameters.
pub fn list_reminders() -> (r: ApiCall)
    ensures
        r@ == ("reminders.list"@, Seq::<(Seq<char>, Seq<char>)>::empty()),
{
    call_of("reminders.list", no_params())
}

/// `reminders.add` with the text and the natural-language time.
pub fn add_reminder(text: &str, at_time: &str) -> (r: ApiCall)
    ensures
        r@ == ("reminders.add"@, seq![("text"@, text@), ("time"@, at_time@)]),
{
    let mut ps = no_params();
    push_param(&mut ps, "text", text);
    push_param(&mut ps, "time", at_time);
    proof {
        assert(pairs_view(ps@) =~= seq![("text"@, text@), ("time"@, at_time@)]);
    }
    call_of("reminders.add", ps)
}

/// `v[k]` as text, or `d`.
pub open spec fn str_or(v: JsonV, d: Seq<char>) -> Seq<char> {
    match v.as_str() {
        Some(s) => s,
        None => d,
    }
}

pub fn str_or_else<'a>(o: Option<&'a Json>, d: &'a str) -> (r: &'a str)
    ensures
        r@ == str_or(view_opt(o), d@),
{
    match as_str(o) {
        Some(s) => s.as_str(),
        None => d,
    }
}

/// Checks a Web API reply: HTTP errors, transport failures and non-JSON
/// bodies become errors; a JSON body must say `ok: true`, else its `error`
/// field (or `unknown_error`) is reported.
pub fn read(outcome: HttpOutcome, method: &str) -> (r: Result<Json, ScliError>)
    ensures
        match outcome {
            HttpOutcome::Reply(Ok(v)) => if v@.at("ok"@).as_bool() == Some(true) {
                r matches Ok(w) && w@ == v@
            } else {
                r matches Err(ScliError::Api { method: m, error: e }) && m@ == method@ && e@
                    == str_or(v@.at("error"@), "unknown_error"@)
            },
            HttpOutcome::Reply(Err(d)) => r matches Err(ScliError::InvalidJson { method: m, detail: dd })
                && m@ == method@ && dd@ == d@,
            HttpOutcome::Status(code, body) => r matches Err(ScliError::HttpStatus { method: m, code: c, body: b })
                && m@ == method@ && c == code && b@ == body@,
            HttpOutcome::Transport(d) => r matches Err(ScliError::RequestFailed { method: m, detail: dd })
                && m@ == method@ && dd@ == d@,
        },
{
    match outcome {
        HttpOutcome::Reply(Ok(v)) => {
            let ok = as_bool(at(Some(&v), "ok"));
            if ok == Some(true) {
                Ok(v)
            } else {
                let e = str_or_else(at(Some(&v), "error"), "unknown_error");
                Err(ScliError::Api { method: owned(method), error: owned(e) })
            }
        },
        HttpOutcome::Reply(Err(d)) => Err(ScliError::InvalidJson { method: owned(method), detail: d }),
        HttpOutcome::Status(code, body) => Err(ScliError::HttpStatus { method: owned(method), code, body }),
        HttpOutcome::Transport(d) => Err(ScliError::RequestFailed { method: owned(method), detail: d }),
    }
}

impl View for HttpRequest {
    type V = (Seq<char>, Seq<(Seq<char>, Seq<char>)>, Seq<(Seq<char>, Seq<char>)>);

    open spec fn view(&self) -> Self::V {
        (self.url@, pairs_view(self.headers@), pairs_view(self.form@))
    }
}

/// A copy of a list of string pairs.
pub fn copy_pairs(v: &Vec<(String, String)>) -> (r: Vec<(String, String)>)
    ensures
        pairs_view(r@) == pairs_view(v@),
{
    let mut r: Vec<(String, String)> = Vec::new();
    let mut i: usize = 0;
    while i < v.len()
        invariant
            i <= v@.len(),
            pairs_view(r@) == pairs_view(v@).take(i as int),
        decreases v.len() - i,
    {
        let ghost before = r@;
        r.push((v[i].0.clone(), v[i].1.clone()));
        proof {
            assert(pairs_view(r@) =~= pairs_view(before).push((v@[i as int].0@, v@[i as int].1@)));
            assert(pairs_view(v@).take(i + 1) =~= pairs_view(v@).take(i as int).push(
                pairs_view(v@)[i as int],
            ));
        }
        i = i + 1;
    }
    proof {
        assert(pairs_view(v@).take(v@.len() as int) =~= pairs_view(v@));
    }
    r
}

/// Whether a token is a browser-session token, which needs the `d` cookie.
pub open spec fn is_session_token(token: Seq<char>) -> bool {
    has_prefix(token, "xoxc-"@)
}

/// Credentials for one workspace and the name its cache goes by.
pub struct Client {
    token: String,
    /// The `d` cookie value (without the `d=` prefix), required for xoxc- tokens.
    cookie: Option<String>,
    /// Cache key for this workspace: config name, or `env-<hash>` for SLACK_TOKEN.
    workspace: String,
}

pub open spec fn opt_view(o: Option<String>) -> Option<Seq<char>> {
    match o {
        Some(s) => Some(s@),
        None => None,
    }
}

impl Client {
    pub closed spec fn token_view(&self) -> Seq<char> {
        self.token@
    }

    pub closed spec fn cookie_view(&self) -> Option<Seq<char>> {
        opt_view(self.cookie)
    }

    pub closed spec fn workspace_view(&self) -> Seq<char> {
        self.workspace@
    }

    /// Builds a client. A session token (`xoxc-`) without a cookie is refused.
    pub fn new(token: String, cookie: Option<String>, workspace: String) -> (r: Result<
        Client,
        ScliError,
    >)
        ensures
            is_session_token(token@) && cookie is None <==> r is Err,
            r matches Err(e) ==> e == ScliError::SessionNeedsCookie,
            r matches Ok(c) ==> c.token_view() == token@ && c.cookie_view() == opt_view(cookie)
                && c.workspace_view() == workspace@,
    {
        if starts_with(token.as_str(), "xoxc-") && cookie.is_none() {
            return Err(ScliError::SessionNeedsCookie);
        }
        Ok(Client { token, cookie, workspace })
    }

    /// The name this client's cache goes by.
    pub fn workspace(&self) -> (r: &str)
        ensures
            r@ == self.workspace_view(),
    {
        self.workspace.as_str()
    }

    /// The headers of every request: the bearer token, and the session
    /// cookie when there is one.
    fn auth_headers(&self) -> (r: Vec<(String, String)>)
        ensures
            pairs_view(r@) == seq![("Authorization"@, "Bearer "@ + self.token_view())] + match self.cookie_view() {
                Some(k) => seq![("Cookie"@, "d="@ + k)],
                None => Seq::<(Seq<char>, Seq<char>)>::empty(),
            },
    {
        let mut headers = no_params();
        let auth = concat2("Bearer ", self.token.as_str());
        push_param(&mut headers, "Authorization", auth.as_str());
        match &self.cookie {
            Some(k) => {
                let kv = concat2("d=", k.as_str());
                push_param(&mut headers, "Cookie", kv.as_str());
            },
            None => {},
        }
        proof {
            assert(pairs_view(headers@) =~= seq![("Authorization"@, "Bearer "@ + self.token_view())]
                + match self.cookie_view() {
                Some(k) => seq![("Cookie"@, "d="@ + k)],
                None => Seq::<(Seq<char>, Seq<char>)>::empty(),
            });
        }
        headers
    }

    /// The HTTP request for a Web API call: POST to `{API}/{method}` with the
    /// bearer token, the session cookie when there is one, and the parameters
    /// as the form.
    pub fn call(&self, c: &ApiCall) -> (r: HttpRequest)
        ensures
            r@.0 == API@ + "/"@ + c.method@,
            r@.1 == seq![("Authorization"@, "Bearer "@ + self.token_view())] + match self.cookie_view() {
                Some(k) => seq![("Cookie"@, "d="@ + k)],
                None => Seq::<(Seq<char>, Seq<char>)>::empty(),
            },
            r@.2 == pairs_view(c.params@),
    {
        let mut url = owned(API);
        url.append("/");
        url.append(c.method.as_str());
        HttpRequest { url, headers: self.auth_headers(), form: copy_pairs(&c.params) }
    }

    /// The GET request for an authenticated file URL (`url_private`): the
    /// URL as given, with the same bearer token and session cookie as a Web
    /// API call, and no form.
    pub fn file_request(&self, url: &str) -> (r: HttpRequest)
        ensures
            r@.0 == url@,
            r@.1 == seq![("Authorization"@, "Bearer "@ + self.token_view())] + match self.cookie_view() {
                Some(k) => seq![("Cookie"@, "d="@ + k)],
                None => Seq::<(Seq<char>, Seq<char>)>::empty(),
            },
            r@.2 == Seq::<(Seq<char>, Seq<char>)>::empty(),
    {
        HttpRequest { url: owned(url), headers: self.auth_headers(), form: no_params() }
    }

    /// `conversations.history` of a channel, `limit` messages, newest first.
    pub fn read(&self, channel_id: &str, limit: u32) -> (r: ApiCall)
        ensures
            r@ == ("conversations.history"@, seq![
                ("channel"@, channel_id@),
                ("limit"@, dec_nat(limit as nat)),
            ]),
    {
        let lim = fmt_u64(limit as u64);
        let mut ps = no_params();
        push_param(&mut ps, "channel", channel_id);
        push_param(&mut ps, "limit", lim.as_str());
        proof {
            assert(pairs_view(ps@) =~= seq![
                ("channel"@, channel_id@),
                ("limit"@, dec_nat(limit as nat)),
            ]);
        }
        call_of("conversations.history", ps)
    }

    /// `conversations.replies` of the thread whose parent is at `ts`.
    pub fn thread(&self, channel_id: &str, ts: &str) -> (r: ApiCall)
        ensures
            r@ == ("conversations.replies"@, seq![("channel"@, channel_id@), ("ts"@, ts@)]),
    {
        let mut ps = no_params();
        push_param(&mut ps, "channel", channel_id);
        push_param(&mut ps, "ts", ts);
        proof {
            assert(pairs_view(ps@) =~= seq![("channel"@, channel_id@), ("ts"@, ts@)]);
        }
        call_of("conversations.replies", ps)
    }

    /// The channel a DM is read from, from the `conversations.open` reply:
    /// the reply's `channel.id`, or an error when it has none. It is then
    /// read as `read messages` reads its argument: resolved again
    /// (`resolve_channel`), and its history asked for (`read`).
    pub fn dm(&self, opened: &Json) -> (r: Result<String, ScliError>)
        ensures
            match opened@.at("channel"@).at("id"@).as_str() {
                Some(id) => r matches Ok(c) && c@ == id,
                None => r == Err::<String, ScliError>(ScliError::CouldNotOpenDm),
            },
    {
        match as_str(at(at(Some(opened), "channel"), "id")) {
            Some(id) => Ok(id.clone()),
            None => Err(ScliError::CouldNotOpenDm),
        }
    }
}

} // verus!

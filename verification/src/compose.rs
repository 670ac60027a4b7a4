//! Composing what gets posted: drafts, messages, reactions, reminders and the
//! three steps of a file upload.

use vstd::prelude::*;
use crate::api::{
    ApiCall, Client, str_or, str_or_else, post_message, add_reaction, add_reminder,
    upload_url_request, complete_upload,
};
use crate::error::ScliError;
use crate::json::{Json, JsonV, at, as_str, obj_set, json_str, elems_view, lemma_elems_view};
use crate::text::{owned, trim_char, dec_nat};

verus! {

/// The payload that `read draft` prints: channel and text, and `thread_ts`
/// when replying in a thread.
pub open spec fn draft_of(channel: Seq<char>, text: Seq<char>, thread: Option<Seq<char>>) -> JsonV {
    let base = JsonV::Null.set("channel"@, JsonV::Str(channel)).set("text"@, JsonV::Str(text));
    match thread {
        Some(t) => base.set("thread_ts"@, JsonV::Str(t)),
        None => base,
    }
}

pub fn draft_payload(channel: &str, text: &str, thread: Option<&str>) -> (r: Json)
    ensures
        r@ == draft_of(channel@, text@, crate::config::opt_s(thread)),
{
    let p = obj_set(Json::Null, owned("channel"), json_str(channel));
    proof {
        crate::json::law_set_then_get(JsonV::Null, "channel"@, JsonV::Str(channel@), "channel"@);
    }
    let p = obj_set(p, owned("text"), json_str(text));
    match thread {
        Some(t) => {
            proof {
                crate::json::law_set_then_get(
                    JsonV::Null.set("channel"@, JsonV::Str(channel@)),
                    "text"@,
                    JsonV::Str(text@),
                    "text"@,
                );
            }
            obj_set(p, owned("thread_ts"), json_str(t))
        },
        None => p,
    }
}

impl Client {
    /// `write send` without files: `chat.postMessage` to the channel, in a
    /// thread when given.
    pub fn send(&self, channel_id: &str, text: &str, thread: Option<&str>) -> (r: ApiCall)
        ensures
            r@ == ("chat.postMessage"@, seq![("channel"@, channel_id@), ("text"@, text@)] + match thread {
                Some(t) => seq![("thread_ts"@, t@)],
                None => Seq::<(Seq<char>, Seq<char>)>::empty(),
            }),
    {
        post_message(channel_id, text, thread)
    }

    /// `write react`: `reactions.add` with the emoji name without colons.
    pub fn react(&self, channel_id: &str, ts: &str, emoji: &str) -> (r: ApiCall)
        ensures
            r@ == ("reactions.add"@, seq![
                ("channel"@, channel_id@),
                ("timestamp"@, ts@),
                ("name"@, trim_char(emoji@, ':')),
            ]),
    {
        add_reaction(channel_id, ts, emoji)
    }

    /// `write remind add TEXT --at WHEN`.
    pub fn remind_add(&self, text: &str, at_time: &str) -> (r: ApiCall)
        ensures
            r@ == ("reminders.add"@, seq![("text"@, text@), ("time"@, at_time@)]),
    {
        add_reminder(text, at_time)
    }

    /// The first step of an upload: ask for an upload URL for a file of
    /// `length` bytes.
    pub fn upload(&self, filename: &str, length: u64) -> (r: ApiCall)
        ensures
            r@ == ("files.getUploadURLExternal"@, seq![
                ("filename"@, filename@),
                ("length"@, dec_nat(length as nat)),
            ]),
    {
        upload_url_request(filename, length)
    }
}

/// `Path::file_name` as text: the last normal component of a path. Its value
/// depends on the path alone; it is named rather than restated (components,
/// `.` and `..`, trailing separators).
pub uninterp spec fn path_file_name(path: Seq<char>) -> Option<Seq<char>>;

/// std `Path::file_name` (as UTF-8 text).
#[verifier::external_body]
fn file_name_of(path: &str) -> (r: Option<String>)
    ensures
        crate::cache::opt_str(r) == path_file_name(path@),
{
    match std::path::Path::new(path).file_name() {
        Some(n) => match n.to_str() {
            Some(t) => Some(t.to_string()),
            None => None,
        },
        None => None,
    }
}

/// The name a file is uploaded under: its file name, or `upload`.
pub fn upload_name(path: &str) -> (r: String)
    ensures
        r@ == match path_file_name(path@) {
            Some(n) => n,
            None => "upload"@,
        },
{
    match file_name_of(path) {
        Some(n) => n,
        None => owned("upload"),
    }
}

/// Where to send the bytes and the id of the file, from the
/// `files.getUploadURLExternal` reply: its `upload_url` (required) and
/// `file_id` (empty when missing).
pub fn upload_target(v: &Json) -> (r: Result<(String, String), ScliError>)
    ensures
        match v@.at("upload_url"@).as_str() {
            Some(u) => r matches Ok((x, id)) && x@ == u && id@ == str_or(v@.at("file_id"@), ""@),
            None => r == Err::<(String, String), ScliError>(ScliError::NoUploadUrl),
        },
{
    match as_str(at(Some(v), "upload_url")) {
        Some(u) => Ok((u.clone(), owned(str_or_else(at(Some(v), "file_id"), "")))),
        None => Err(ScliError::NoUploadUrl),
    }
}

/// The `files` value of `files.completeUploadExternal`: `[{"id": FILE_ID}]`.
pub open spec fn uploaded_files_of(file_id: Seq<char>) -> JsonV {
    JsonV::Array(seq![JsonV::Null.set("id"@, JsonV::Str(file_id))])
}

pub fn uploaded_files(file_id: &str) -> (r: Json)
    ensures
        r@ == uploaded_files_of(file_id@),
{
    let o = obj_set(Json::Null, owned("id"), json_str(file_id));
    let mut v: Vec<Json> = Vec::new();
    v.push(o);
    proof {
        lemma_elems_view(v@);
        assert(elems_view(v@) =~= seq![JsonV::Null.set("id"@, JsonV::Str(file_id@))]);
    }
    Json::Array(v)
}

impl Client {
    /// The last step of an upload: share the uploaded files (their JSON text)
    /// to the channel with the message text as comment, in a thread when
    /// given.
    pub fn complete_upload(&self, files_json: &str, channel_id: &str, comment: &str, thread: Option<&str>) -> (r:
        ApiCall)
        ensures
            r@ == ("files.completeUploadExternal"@, seq![
                ("files"@, files_json@),
                ("channel_id"@, channel_id@),
                ("initial_comment"@, comment@),
            ] + match thread {
                Some(t) => seq![("thread_ts"@, t@)],
                None => Seq::<(Seq<char>, Seq<char>)>::empty(),
            }),
    {
        complete_upload(files_json, channel_id, comment, thread)
    }
}

/// Message text read from standard input, without trailing whitespace.
pub fn stdin_text(raw: &str) -> (r: String)
    ensures
        r@ == crate::text::trim_end_ws(raw@),
{
    crate::text::trim_end(raw)
}

} // verus!

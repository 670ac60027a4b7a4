//! The errors that the library reports, and the one-line message of each.

use vstd::prelude::*;
use crate::text::{owned, fmt_u64, dec_nat};

verus! {

/// Everything that can go wrong in the library's own logic.
#[derive(Debug, Clone, PartialEq, Eq)]
pub enum ScliError {
    /// `read channels --type` got something other than public, private, dm, mpim, all.
    UnknownChannelType(String),
    /// No `SLACK_TOKEN`, no `--workspace`, no default and not exactly one saved workspace.
    NoWorkspace,
    /// The named workspace is not in the config.
    UnknownWorkspace(String),
    /// The named workspace has no string `token`.
    NoToken(String),
    /// An `xoxc-` token was given without a cookie when building a client.
    SessionNeedsCookie,
    /// An `xoxc-` token was given without `--cookie` when saving a workspace.
    AuthNeedsCookie,
    /// The HTTP layer answered with an error status.
    HttpStatus { method: String, code: u16, body: String },
    /// The request could not be made.
    RequestFailed { method: String, detail: String },
    /// The answer was not JSON.
    InvalidJson { method: String, detail: String },
    /// The Web API answered `ok: false` (or no `ok`).
    Api { method: String, error: String },
    /// `conversations.open` gave no channel id.
    CouldNotOpenDm,
    /// The message asked for has no entry in the reply.
    MessageNotFound,
    /// `files.getUploadURLExternal` gave no `upload_url`.
    NoUploadUrl,
    /// A channel name that neither the cache nor a fresh listing knows.
    ChannelNotFound(String),
    /// A user name that neither the cache nor a fresh listing knows.
    UserNotFound(String),
    /// The config file is not JSON.
    ConfigParse(String),
    /// Neither the XDG variable (`var`) nor HOME is set; `cause` is why HOME
    /// could not be read.
    NoHome { var: String, cause: String },
    /// Self-update on an operating system without published builds.
    UnsupportedOs(String),
    /// Self-update on an architecture without published builds.
    UnsupportedArch(String),
    /// Self-update on Intel macOS, for which no build is published.
    NoMacIntel,
    /// The release has no string `tag_name`.
    NoTagName,
    /// The release has no asset of that name.
    NoAsset { tag: String, want: String },
    /// The release has no `SHA256SUMS` asset.
    NoChecksums(String),
    /// `SHA256SUMS` is not UTF-8 text.
    ChecksumsNotUtf8(String),
    /// `SHA256SUMS` names no checksum for the asset.
    NoChecksum(String),
    /// The downloaded asset does not hash to the published checksum.
    ChecksumMismatch { want: String, expected: String, got: String },
}

/// The text of an error, as the command line prints it after `error:`.
pub open spec fn message_of(e: ScliError) -> Seq<char> {
    match e {
        ScliError::UnknownChannelType(t) => "unknown type '"@ + t@
            + "' (public|private|dm|mpim|all)"@,
        ScliError::NoWorkspace => "no workspace: set SLACK_TOKEN, or `scli auth <name> <token>`"@,
        ScliError::UnknownWorkspace(n) => "unknown workspace '"@ + n@ + "'"@,
        ScliError::NoToken(n) => "workspace '"@ + n@ + "' has no token"@,
        ScliError::SessionNeedsCookie =>
            "xoxc- session token needs a cookie: pass --cookie xoxd-… (or set SLACK_COOKIE)"@,
        ScliError::AuthNeedsCookie =>
            "xoxc- session token needs --cookie xoxd-… (copy the `d` cookie from the Slack web client)"@,
        ScliError::HttpStatus { method, code, body } => method@ + ": HTTP "@ + dec_nat(
            code as nat,
        ) + ": "@ + body@,
        ScliError::RequestFailed { method, detail } => method@ + " request failed: "@ + detail@,
        ScliError::InvalidJson { method, detail } => method@ + ": invalid JSON: "@ + detail@,
        ScliError::Api { method, error } => method@ + ": "@ + error@,
        ScliError::CouldNotOpenDm => "could not open DM"@,
        ScliError::MessageNotFound => "message not found"@,
        ScliError::NoUploadUrl => "no upload_url returned"@,
        ScliError::ChannelNotFound(s) => "channel '"@ + s@ + "' not found"@,
        ScliError::UserNotFound(s) => "user '"@ + s@ + "' not found"@,
        ScliError::ConfigParse(d) => "parsing config.json: "@ + d@,
        ScliError::NoHome { var, cause } => "no HOME/"@ + var@ + ": "@ + cause@,
        ScliError::UnsupportedOs(o) => "unsupported OS '"@ + o@ + "' (linux/macos only)"@,
        ScliError::UnsupportedArch(a) => "unsupported arch '"@ + a@
            + "' (x86_64/aarch64 only)"@,
        ScliError::NoMacIntel =>
            "no macOS Intel (darwin-amd64) build is published; use Apple Silicon"@,
        ScliError::NoTagName => "release has no tag_name"@,
        ScliError::NoAsset { tag, want } => "release "@ + tag@ + " has no asset '"@ + want@ + "'"@,
        ScliError::NoChecksums(tag) => "release "@ + tag@ + " has no SHA256SUMS file"@,
        ScliError::ChecksumsNotUtf8(d) => "SHA256SUMS not UTF-8: "@ + d@,
        ScliError::NoChecksum(want) => "no checksum for '"@ + want@ + "' in SHA256SUMS"@,
        ScliError::ChecksumMismatch { want, expected, got } => "checksum mismatch for "@ + want@
            + ": expected "@ + expected@ + ", got "@ + got@ + " (aborting)"@,
    }
}

fn join3(a: &str, b: &str, c: &str) -> (r: String)
    ensures
        r@ == a@ + b@ + c@,
{
    let mut r = owned(a);
    r.append(b);
    r.append(c);
    r
}

fn join4(a: &str, b: &str, c: &str, d: &str) -> (r: String)
    ensures
        r@ == a@ + b@ + c@ + d@,
{
    let mut r = join3(a, b, c);
    r.append(d);
    r
}

impl ScliError {
    /// The text of the error (`message_of`).
    pub fn message(&self) -> (r: String)
        ensures
            r@ == message_of(*self),
    {
        match self {
            ScliError::UnknownChannelType(t) => join3(
                "unknown type '",
                t.as_str(),
                "' (public|private|dm|mpim|all)",
            ),
            ScliError::NoWorkspace => owned(
                "no workspace: set SLACK_TOKEN, or `scli auth <name> <token>`",
            ),
            ScliError::UnknownWorkspace(n) => join3("unknown workspace '", n.as_str(), "'"),
            ScliError::NoToken(n) => join3("workspace '", n.as_str(), "' has no token"),
            ScliError::SessionNeedsCookie => owned(
                "xoxc- session token needs a cookie: pass --cookie xoxd-… (or set SLACK_COOKIE)",
            ),
            ScliError::AuthNeedsCookie => owned(
                "xoxc- session token needs --cookie xoxd-… (copy the `d` cookie from the Slack web client)",
            ),
            ScliError::HttpStatus { method, code, body } => {
                let c = fmt_u64(*code as u64);
                let mut r = join3(method.as_str(), ": HTTP ", c.as_str());
                r.append(": ");
                r.append(body.as_str());
                r
            },
            ScliError::RequestFailed { method, detail } => join3(
                method.as_str(),
                " request failed: ",
                detail.as_str(),
            ),
            ScliError::InvalidJson { method, detail } => join3(
                method.as_str(),
                ": invalid JSON: ",
                detail.as_str(),
            ),
            ScliError::Api { method, error } => join3(method.as_str(), ": ", error.as_str()),
            ScliError::CouldNotOpenDm => owned("could not open DM"),
            ScliError::MessageNotFound => owned("message not found"),
            ScliError::NoUploadUrl => owned("no upload_url returned"),
            ScliError::ChannelNotFound(s) => join3("channel '", s.as_str(), "' not found"),
            ScliError::UserNotFound(s) => join3("user '", s.as_str(), "' not found"),
            ScliError::ConfigParse(d) => crate::text::concat2("parsing config.json: ", d.as_str()),
            ScliError::NoHome { var, cause } => {
                let mut r = join3("no HOME/", var.as_str(), ": ");
                r.append(cause.as_str());
                r
            },
            ScliError::UnsupportedOs(o) => join3(
                "unsupported OS '",
                o.as_str(),
                "' (linux/macos only)",
            ),
            ScliError::UnsupportedArch(a) => join3(
                "unsupported arch '",
                a.as_str(),
                "' (x86_64/aarch64 only)",
            ),
            ScliError::NoMacIntel => owned(
                "no macOS Intel (darwin-amd64) build is published; use Apple Silicon",
            ),
            ScliError::NoTagName => owned("release has no tag_name"),
            ScliError::NoAsset { tag, want } => {
                let mut r = join4("release ", tag.as_str(), " has no asset '", want.as_str());
                r.append("'");
                r
            },
            ScliError::NoChecksums(tag) => join3("release ", tag.as_str(), " has no SHA256SUMS file"),
            ScliError::ChecksumsNotUtf8(d) => crate::text::concat2("SHA256SUMS not UTF-8: ", d.as_str()),
            ScliError::NoChecksum(want) => join3("no checksum for '", want.as_str(), "' in SHA256SUMS"),
            ScliError::ChecksumMismatch { want, expected, got } => {
                let mut r = join4("checksum mismatch for ", want.as_str(), ": expected ", expected.as_str());
                r.append(", got ");
                r.append(got.as_str());
                r.append(" (aborting)");
                r
            },
        }
    }
}

} // verus!

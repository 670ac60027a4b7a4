//! The config file (`{"default": name, "servers": {name: {"token", "cookie"}}}`)
//! and the paths of the config and cache files: which workspace a command
//! uses, how `write auth` and `write default` change the config, and what
//! `read workspaces` lists.

use vstd::prelude::*;
use crate::api::{Client, is_session_token, str_or};
use crate::digest::{short_hash, short_hash_of};
use crate::error::ScliError;
use crate::json::{
    Json, JsonV, at, as_str, as_object, obj_set, json_str, empty_object, view_opt, members_view,
    lemma_members_view, member,
};
use crate::listing::strings_view;
use crate::text::{owned, concat2, starts_with, has_prefix, same_text};

verus! {

// ---------------------------------------------------------------------------
// Paths
// ---------------------------------------------------------------------------

/// `PathBuf::push` on Unix: an absolute part replaces the path; otherwise
/// the part is appended after a `/` unless the path is empty or already ends
/// with one.
pub open spec fn path_join(base: Seq<char>, part: Seq<char>) -> Seq<char> {
    if part.len() > 0 && part[0] == '/' {
        part
    } else if base.len() == 0 || base.last() == '/' {
        base + part
    } else {
        base + seq!['/'] + part
    }
}

pub fn join_path(base: &str, part: &str) -> (r: String)
    ensures
        r@ == path_join(base@, part@),
{
    let b = crate::text::chars_of(base);
    let p = crate::text::chars_of(part);
    if p.len() > 0 && p[0] == '/' {
        return owned(part);
    }
    if b.len() == 0 || b[b.len() - 1] == '/' {
        concat2(base, part)
    } else {
        let mut r = owned(base);
        r.append("/");
        r.append(part);
        proof {
            reveal_strlit("/");
            assert("/"@ =~= seq!['/']);
        }
        r
    }
}

/// The XDG base directory: the variable when set, else `$HOME/<fallback>`;
/// when neither is set, why `HOME` could not be read.
pub open spec fn base_dir(xdg: Option<Seq<char>>, home: Result<Seq<char>, Seq<char>>, fallback: Seq<char>) -> Result<
    Seq<char>,
    Seq<char>,
> {
    match xdg {
        Some(x) => Ok(x),
        None => match home {
            Ok(h) => Ok(path_join(h, fallback)),
            Err(cause) => Err(cause),
        },
    }
}

pub open spec fn opt_s(o: Option<&str>) -> Option<Seq<char>> {
    match o {
        Some(s) => Some(s@),
        None => None,
    }
}

/// An environment variable as read: its text, or why it could not be read.
pub open spec fn res_s(r: Result<&str, &str>) -> Result<Seq<char>, Seq<char>> {
    match r {
        Ok(s) => Ok(s@),
        Err(e) => Err(e@),
    }
}

/// The error when no base directory is found: `NoHome` naming the XDG
/// variable, with the reason `HOME` could not be read.
pub open spec fn no_home(r: Result<String, ScliError>, var: Seq<char>, cause: Seq<char>) -> bool {
    r matches Err(ScliError::NoHome { var: v, cause: c }) && v@ == var && c@ == cause
}

fn base_dir_exec(xdg: Option<&str>, home: Result<&str, &str>, fallback: &str, var: &str) -> (r: Result<
    String,
    ScliError,
>)
    ensures
        match base_dir(opt_s(xdg), res_s(home), fallback@) {
            Ok(b) => r matches Ok(s) && s@ == b,
            Err(cause) => no_home(r, var@, cause),
        },
{
    match xdg {
        Some(x) => Ok(owned(x)),
        None => match home {
            Ok(h) => Ok(join_path(h, fallback)),
            Err(cause) => Err(ScliError::NoHome { var: owned(var), cause: owned(cause) }),
        },
    }
}

/// `<config base>/scli/config.json`, the config base being
/// `XDG_CONFIG_HOME` or `$HOME/.config`. `home` is `HOME` as read, or the
/// reason it could not be.
pub fn config_path(xdg_config_home: Option<&str>, home: Result<&str, &str>) -> (r: Result<String, ScliError>)
    ensures
        match base_dir(opt_s(xdg_config_home), res_s(home), ".config"@) {
            Ok(b) => r matches Ok(s) && s@ == path_join(path_join(b, "scli"@), "config.json"@),
            Err(cause) => no_home(r, "XDG_CONFIG_HOME"@, cause),
        },
{
    let base = base_dir_exec(xdg_config_home, home, ".config", "XDG_CONFIG_HOME")?;
    let dir = join_path(base.as_str(), "scli");
    Ok(join_path(dir.as_str(), "config.json"))
}

/// `<config base>/scli/update-check.json`: next to the config file.
pub fn update_cache_path(xdg_config_home: Option<&str>, home: Result<&str, &str>) -> (r: Result<String, ScliError>)
    ensures
        match base_dir(opt_s(xdg_config_home), res_s(home), ".config"@) {
            Ok(b) => r matches Ok(s) && s@ == path_join(path_join(b, "scli"@), "update-check.json"@),
            Err(cause) => no_home(r, "XDG_CONFIG_HOME"@, cause),
        },
{
    let base = base_dir_exec(xdg_config_home, home, ".config", "XDG_CONFIG_HOME")?;
    let dir = join_path(base.as_str(), "scli");
    Ok(join_path(dir.as_str(), "update-check.json"))
}

/// `<cache base>/scli/<workspace>.json`, the cache base being
/// `XDG_CACHE_HOME` or `$HOME/.cache`.
pub fn cache_path(xdg_cache_home: Option<&str>, home: Result<&str, &str>, workspace: &str) -> (r: Result<
    String,
    ScliError,
>)
    ensures
        match base_dir(opt_s(xdg_cache_home), res_s(home), ".cache"@) {
            Ok(b) => r matches Ok(s) && s@ == path_join(path_join(b, "scli"@), workspace@ + ".json"@),
            Err(cause) => no_home(r, "XDG_CACHE_HOME"@, cause),
        },
{
    let base = base_dir_exec(xdg_cache_home, home, ".cache", "XDG_CACHE_HOME")?;
    let dir = join_path(base.as_str(), "scli");
    let file = concat2(workspace, ".json");
    Ok(join_path(dir.as_str(), file.as_str()))
}

// ---------------------------------------------------------------------------
// Loading
// ---------------------------------------------------------------------------

/// The config when there is no config file: `{"servers": {}}`.
pub open spec fn default_config() -> JsonV {
    JsonV::Object(seq![("servers"@, JsonV::Object(seq![]))])
}

/// The config from the file: none (unreadable) gives the default; text that
/// is not JSON is an error.
pub fn load_config(contents: Option<Result<Json, String>>) -> (r: Result<Json, ScliError>)
    ensures
        match contents {
            None => r matches Ok(c) && c@ == default_config(),
            Some(Ok(v)) => r matches Ok(c) && c@ == v@,
            Some(Err(d)) => r matches Err(ScliError::ConfigParse(x)) && x@ == d@,
        },
{
    match contents {
        None => {
            let c = obj_set(Json::Null, owned("servers"), empty_object());
            Ok(c)
        },
        Some(Ok(v)) => Ok(v),
        Some(Err(d)) => Err(ScliError::ConfigParse(d)),
    }
}

// ---------------------------------------------------------------------------
// Choosing the workspace
// ---------------------------------------------------------------------------

/// Credentials found for a workspace, or why none were.
pub enum Creds {
    Found { token: Seq<char>, cookie: Option<Seq<char>>, workspace: Seq<char> },
    NoWorkspace,
    UnknownWorkspace(Seq<char>),
    NoToken(Seq<char>),
}

/// The workspace a command uses from the config: `--workspace`, else the
/// `default`, else the only saved workspace.
pub open spec fn chosen_workspace(workspace: Option<Seq<char>>, cfg: JsonV) -> Option<Seq<char>> {
    match workspace {
        Some(n) => Some(n),
        None => match cfg.at("default"@).as_str() {
            Some(d) => Some(d),
            None => match cfg.at("servers"@).as_object() {
                Some(s) => if s.len() == 1 {
                    Some(s[0].0)
                } else {
                    None
                },
                None => None,
            },
        },
    }
}

/// The credentials the config gives for the chosen workspace.
pub open spec fn config_creds(workspace: Option<Seq<char>>, cfg: JsonV) -> Creds {
    match chosen_workspace(workspace, cfg) {
        None => Creds::NoWorkspace,
        Some(name) => match cfg.at("servers"@).get(name) {
            None => Creds::UnknownWorkspace(name),
            Some(server) => match server.at("token"@).as_str() {
                None => Creds::NoToken(name),
                Some(t) => Creds::Found {
                    token: t,
                    cookie: server.at("cookie"@).as_str(),
                    workspace: name,
                },
            },
        },
    }
}

/// The credentials from the environment, which win when no `--workspace`
/// is given and `SLACK_TOKEN` is set and not empty: the token, the
/// `SLACK_COOKIE` when not empty, and a cache key made from the token.
pub open spec fn env_creds(workspace: Option<Seq<char>>, env_token: Option<Seq<char>>, env_cookie: Option<
    Seq<char>,
>) -> Option<Creds> {
    match (workspace, env_token) {
        (None, Some(t)) => if t.len() > 0 {
            Some(
                Creds::Found {
                    token: t,
                    cookie: match env_cookie {
                        Some(c) => if c.len() > 0 {
                            Some(c)
                        } else {
                            None
                        },
                        None => None,
                    },
                    workspace: "env-"@ + short_hash_of(t),
                },
            )
        } else {
            None
        },
        _ => None,
    }
}

/// A client built from found credentials (the session-token check applies).
pub open spec fn client_from(r: Result<Client, ScliError>, token: Seq<char>, cookie: Option<Seq<char>>, workspace: Seq<char>) -> bool {
    if is_session_token(token) && cookie is None {
        r == Err::<Client, ScliError>(ScliError::SessionNeedsCookie)
    } else {
        r matches Ok(c) && c.token_view() == token && c.cookie_view() == cookie && c.workspace_view()
            == workspace
    }
}

pub open spec fn client_from_creds(r: Result<Client, ScliError>, creds: Creds) -> bool {
    match creds {
        Creds::Found { token, cookie, workspace } => client_from(r, token, cookie, workspace),
        Creds::NoWorkspace => r == Err::<Client, ScliError>(ScliError::NoWorkspace),
        Creds::UnknownWorkspace(n) => r matches Err(ScliError::UnknownWorkspace(x)) && x@ == n,
        Creds::NoToken(n) => r matches Err(ScliError::NoToken(x)) && x@ == n,
    }
}

impl Client {
    /// The first step of choosing the client, before the config is read:
    /// from `SLACK_TOKEN` (and `SLACK_COOKIE`) when no `--workspace` is given
    /// and the token is set and not empty; `None` means the config decides.
    pub fn from_env(workspace: Option<&str>, env_token: Option<&str>, env_cookie: Option<&str>) -> (r:
        Option<Result<Client, ScliError>>)
        ensures
            match env_creds(opt_s(workspace), opt_s(env_token), opt_s(env_cookie)) {
                Some(creds) => r matches Some(x) && client_from_creds(x, creds),
                None => r is None,
            },
    {
        if workspace.is_some() {
            return None;
        }
        match env_token {
            Some(t) => {
                if t.is_empty() {
                    return None;
                }
                let cookie = match env_cookie {
                    Some(c) => if !c.is_empty() {
                        Some(owned(c))
                    } else {
                        None
                    },
                    None => None,
                };
                let key = concat2("env-", short_hash(t).as_str());
                Some(Client::new(owned(t), cookie, key))
            },
            None => None,
        }
    }

    /// The client for a command: from `SLACK_TOKEN` (and `SLACK_COOKIE`)
    /// when no `--workspace` is given and the token is set, else from the
    /// config (whose loading may have failed).
    pub fn resolve(
        workspace: Option<&str>,
        env_token: Option<&str>,
        env_cookie: Option<&str>,
        cfg: Result<Json, ScliError>,
    ) -> (r: Result<Client, ScliError>)
        ensures
            match env_creds(opt_s(workspace), opt_s(env_token), opt_s(env_cookie)) {
                Some(creds) => client_from_creds(r, creds),
                None => match cfg {
                    Err(e) => r == Err::<Client, ScliError>(e),
                    Ok(c) => client_from_creds(r, config_creds(opt_s(workspace), c@)),
                },
            },
    {
        match Client::from_env(workspace, env_token, env_cookie) {
            Some(r) => {
                return r;
            },
            None => {},
        }
        let cfg = cfg?;
        let servers = at(Some(&cfg), "servers");
        let name: String = match workspace {
            Some(n) => owned(n),
            None => match as_str(at(Some(&cfg), "default")) {
                Some(d) => d.clone(),
                None => match as_object(servers) {
                    Some(s) => {
                        proof {
                            lemma_members_view(s@);
                        }
                        if s.len() == 1 {
                            s[0].0.clone()
                        } else {
                            return Err(ScliError::NoWorkspace);
                        }
                    },
                    None => {
                        return Err(ScliError::NoWorkspace);
                    },
                },
            },
        };
        let server = match servers {
            Some(sv) => sv.get(name.as_str()),
            None => None,
        };
        let server = match server {
            Some(x) => x,
            None => {
                return Err(ScliError::UnknownWorkspace(name));
            },
        };
        let token = match as_str(at(Some(server), "token")) {
            Some(t) => t.clone(),
            None => {
                return Err(ScliError::NoToken(name));
            },
        };
        let cookie = match as_str(at(Some(server), "cookie")) {
            Some(c) => Some(c.clone()),
            None => None,
        };
        Client::new(token, cookie, name)
    }
}

// ---------------------------------------------------------------------------
// Changing the config
// ---------------------------------------------------------------------------

/// The config entry of a workspace: its token, and its cookie when given.
pub open spec fn server_entry(token: Seq<char>, cookie: Option<Seq<char>>) -> JsonV {
    match cookie {
        Some(k) => JsonV::Object(seq![("token"@, JsonV::Str(token)), ("cookie"@, JsonV::Str(k))]),
        None => JsonV::Object(seq![("token"@, JsonV::Str(token))]),
    }
}

/// `write auth NAME TOKEN [--cookie]`: `servers` becomes an object if it is
/// not one, the workspace's entry is set, and the workspace becomes the
/// default when no default is set.
pub open spec fn auth_config(cfg: JsonV, name: Seq<char>, token: Seq<char>, cookie: Option<Seq<char>>) -> JsonV {
    let c1 = if cfg.at("servers"@).as_object() is Some {
        cfg
    } else {
        cfg.set("servers"@, JsonV::Object(seq![]))
    };
    let c2 = c1.set("servers"@, c1.at("servers"@).set(name, server_entry(token, cookie)));
    if c2.at("default"@).as_str() is Some {
        c2
    } else {
        c2.set("default"@, JsonV::Str(name))
    }
}

/// Whether `write auth` is refused before the config is read: a session
/// token without a cookie.
pub open spec fn auth_refused(token: Seq<char>, cookie: Option<Seq<char>>) -> bool {
    is_session_token(token) && cookie is None
}

fn server_entry_exec(token: &str, cookie: Option<&str>) -> (r: Json)
    ensures
        r@ == server_entry(token@, opt_s(cookie)),
{
    let e = obj_set(Json::Null, owned("token"), json_str(token));
    match cookie {
        Some(k) => {
            proof {
                reveal_strlit("token");
                reveal_strlit("cookie");
                assert("token"@ != "cookie"@) by {
                    assert("token"@[0] != "cookie"@[0]);
                }
                let m = seq![("token"@, JsonV::Str(token@))];
                assert(m.drop_first() =~= Seq::<(Seq<char>, JsonV)>::empty());
                assert(crate::json::member_index(m.drop_first(), "cookie"@) == -1);
                assert(crate::json::member_index(m, "cookie"@) == -1);
                assert(m.push(("cookie"@, JsonV::Str(k@))) =~= seq![
                    ("token"@, JsonV::Str(token@)),
                    ("cookie"@, JsonV::Str(k@)),
                ]);
            }
            obj_set(e, owned("cookie"), json_str(k))
        },
        None => e,
    }
}

/// The first step of `write auth`, before the config is read: a session
/// token without a cookie is refused.
pub fn auth_allowed(token: &str, cookie: Option<&str>) -> (r: Result<(), ScliError>)
    ensures
        auth_refused(token@, opt_s(cookie)) ==> r == Err::<(), ScliError>(ScliError::AuthNeedsCookie),
        !auth_refused(token@, opt_s(cookie)) ==> r is Ok,
{
    if starts_with(token, "xoxc-") && cookie.is_none() {
        Err(ScliError::AuthNeedsCookie)
    } else {
        Ok(())
    }
}

/// `write auth`: the new config and the confirmation line. The config must
/// be an object (or `null`), as the file always is; anything else makes the
/// command fail when it assigns into it.
pub fn auth(cfg: Result<Json, ScliError>, name: &str, token: &str, cookie: Option<&str>) -> (r: Result<
    (Json, String),
    ScliError,
>)
    requires
        !auth_refused(token@, opt_s(cookie)) ==> (cfg matches Ok(c) ==> c@.settable()),
    ensures
        auth_refused(token@, opt_s(cookie)) ==> r == Err::<(Json, String), ScliError>(
            ScliError::AuthNeedsCookie,
        ),
        !auth_refused(token@, opt_s(cookie)) ==> match cfg {
            Err(e) => r == Err::<(Json, String), ScliError>(e),
            Ok(c) => r matches Ok((n, line)) && n@ == auth_config(c@, name@, token@, opt_s(cookie))
                && line@ == "saved workspace '"@ + name@ + "'"@,
        },
{
    auth_allowed(token, cookie)?;
    let cfg = cfg?;
    let has_servers = as_object(at(Some(&cfg), "servers")).is_some();
    let c1 = if has_servers {
        cfg
    } else {
        obj_set(cfg, owned("servers"), empty_object())
    };
    proof {
        reveal_strlit("servers");
        if !has_servers {
            crate::json::law_set_then_get(cfg@, "servers"@, JsonV::Object(seq![]), "servers"@);
        }
    }
    let servers = match at(Some(&c1), "servers") {
        Some(s) => s.copy(),
        None => Json::Null,
    };
    let servers2 = obj_set(servers, owned(name), server_entry_exec(token, cookie));
    let c2 = obj_set(c1, owned("servers"), servers2);
    let has_default = as_str(at(Some(&c2), "default")).is_some();
    let c3 = if has_default {
        c2
    } else {
        obj_set(c2, owned("default"), json_str(name))
    };
    let mut line = owned("saved workspace '");
    line.append(name);
    line.append("'");
    Ok((c3, line))
}

/// `write default NAME`: the workspace must be saved; it becomes the default.
pub fn set_default(cfg: Result<Json, ScliError>, name: &str) -> (r: Result<(Json, String), ScliError>)
    ensures
        match cfg {
            Err(e) => r == Err::<(Json, String), ScliError>(e),
            Ok(c) => if c@.at("servers"@).get(name@) is None {
                r matches Err(ScliError::UnknownWorkspace(x)) && x@ == name@
            } else {
                r matches Ok((n, line)) && n@ == c@.set("default"@, JsonV::Str(name@)) && line@
                    == "default = "@ + name@
            },
        },
{
    let cfg = cfg?;
    let known = match at(Some(&cfg), "servers") {
        Some(s) => s.get(name).is_some(),
        None => false,
    };
    if !known {
        return Err(ScliError::UnknownWorkspace(owned(name)));
    }
    proof {
        assert(cfg@.at("servers"@) is Object);
        assert(cfg@.get("servers"@) is Some);
    }
    let n = obj_set(cfg, owned("default"), json_str(name));
    Ok((n, concat2("default = ", name)))
}

/// A workspace name, marked when it is the default.
pub open spec fn mark_default(name: Seq<char>, default: Seq<char>) -> Seq<char> {
    if name == default {
        name + " (default)"@
    } else {
        name
    }
}

/// `read workspaces`: each saved workspace, the default marked, or
/// `no workspaces`.
pub open spec fn workspace_lines_of(cfg: JsonV) -> Seq<Seq<char>> {
    let default = str_or(cfg.at("default"@), ""@);
    match cfg.at("servers"@).as_object() {
        Some(s) => if s.len() > 0 {
            s.map_values(|m: (Seq<char>, JsonV)| mark_default(m.0, default))
        } else {
            seq!["no workspaces"@]
        },
        None => seq!["no workspaces"@],
    }
}

pub fn workspaces(cfg: &Json) -> (r: Vec<String>)
    ensures
        strings_view(r@) == workspace_lines_of(cfg@),
{
    let default = crate::api::str_or_else(at(Some(cfg), "default"), "");
    let mut out: Vec<String> = Vec::new();
    match as_object(at(Some(cfg), "servers")) {
        Some(s) => {
            proof {
                lemma_members_view(s@);
            }
            if s.len() == 0 {
                out.push(owned("no workspaces"));
                proof {
                    assert(strings_view(out@) =~= seq!["no workspaces"@]);
                }
                return out;
            }
            let ghost mv = members_view(s@);
            let mut i: usize = 0;
            while i < s.len()
                invariant
                    i <= s@.len(),
                    mv == members_view(s@),
                    mv.len() == s@.len(),
                    forall|j: int|
                        0 <= j < s@.len() ==> #[trigger] mv[j] == (s@[j].0@, s@[j].1@),
                    strings_view(out@) == mv.take(i as int).map_values(
                        |m: (Seq<char>, JsonV)| mark_default(m.0, default@),
                    ),
                decreases s.len() - i,
            {
                let name = &s[i].0;
                let mut line = name.clone();
                if same_text(name.as_str(), default) {
                    line.append(" (default)");
                }
                let ghost before = out@;
                out.push(line);
                proof {
                    assert(strings_view(out@) =~= strings_view(before).push(line@));
                    assert(mv.take(i + 1) =~= mv.take(i as int).push(mv[i as int]));
                    assert(line@ == mark_default(mv[i as int].0, default@));
                    assert(mv.take(i + 1).map_values(
                        |m: (Seq<char>, JsonV)| mark_default(m.0, default@),
                    ) =~= mv.take(i as int).map_values(
                        |m: (Seq<char>, JsonV)| mark_default(m.0, default@),
                    ).push(mark_default(mv[i as int].0, default@)));
                }
                i = i + 1;
            }
            proof {
                assert(mv.take(s@.len() as int) =~= mv);
            }
            out
        },
        None => {
            out.push(owned("no workspaces"));
            proof {
                assert(strings_view(out@) =~= seq!["no workspaces"@]);
            }
            out
        },
    }
}

// ---------------------------------------------------------------------------
// Laws
// ---------------------------------------------------------------------------

proof fn lemma_config_keys()
    ensures
        "servers"@ != "default"@,
        "token"@ != "cookie"@,
{
    reveal_strlit("servers");
    reveal_strlit("default");
    reveal_strlit("token");
    reveal_strlit("cookie");
    assert("servers"@[0] != "default"@[0]);
    assert("token"@[0] != "cookie"@[0]);
}

proof fn lemma_entry_fields(token: Seq<char>, cookie: Option<Seq<char>>)
    ensures
        server_entry(token, cookie).at("token"@).as_str() == Some(token),
        server_entry(token, cookie).at("cookie"@).as_str() == cookie,
{
    lemma_config_keys();
    match cookie {
        Some(k) => {
            let m = seq![("token"@, JsonV::Str(token)), ("cookie"@, JsonV::Str(k))];
            assert(m.drop_first() =~= seq![("cookie"@, JsonV::Str(k))]);
            assert(m.drop_first()[0].0 == "cookie"@);
            assert(crate::json::member(m.drop_first(), "cookie"@) == Some(JsonV::Str(k)));
            assert(crate::json::member(m, "cookie"@) == Some(JsonV::Str(k)));
        },
        None => {
            let m = seq![("token"@, JsonV::Str(token))];
            assert(m.drop_first() =~= Seq::<(Seq<char>, JsonV)>::empty());
            assert(crate::json::member(m.drop_first(), "cookie"@) is None);
        },
    }
}

/// The `servers` of a config after `write auth`: the old servers (or an
/// empty object) with the new entry set.
proof fn lemma_auth_servers(cfg: JsonV, name: Seq<char>, token: Seq<char>, cookie: Option<Seq<char>>)
    requires
        cfg.settable(),
    ensures
        auth_config(cfg, name, token, cookie).at("servers"@).get(name) == Some(
            server_entry(token, cookie),
        ),
        auth_config(cfg, name, token, cookie).at("default"@).as_str() is Some,
        cfg.at("default"@).as_str() is None ==> auth_config(cfg, name, token, cookie).at(
            "default"@,
        ).as_str() == Some(name),
{
    lemma_config_keys();
    let e = server_entry(token, cookie);
    let c1 = if cfg.at("servers"@).as_object() is Some {
        cfg
    } else {
        cfg.set("servers"@, JsonV::Object(seq![]))
    };
    if cfg.at("servers"@).as_object() is None {
        crate::json::law_set_then_get(cfg, "servers"@, JsonV::Object(seq![]), "servers"@);
        crate::json::law_set_then_get(cfg, "servers"@, JsonV::Object(seq![]), "default"@);
    }
    assert(c1.settable());
    assert(c1.at("servers"@).settable());
    let s2 = c1.at("servers"@).set(name, e);
    crate::json::law_set_then_get(c1.at("servers"@), name, e, name);
    let c2 = c1.set("servers"@, s2);
    crate::json::law_set_then_get(c1, "servers"@, s2, "servers"@);
    crate::json::law_set_then_get(c1, "servers"@, s2, "default"@);
    assert(c2.at("servers"@) == s2);
    assert(c2.at("default"@) == cfg.at("default"@));
    if c2.at("default"@).as_str() is None {
        crate::json::law_set_then_get(c2, "servers"@, JsonV::Str(name), "servers"@);
        crate::json::law_set_then_get(c2, "default"@, JsonV::Str(name), "servers"@);
        crate::json::law_set_then_get(c2, "default"@, JsonV::Str(name), "default"@);
    }
}

/// After `write auth NAME TOKEN [--cookie COOKIE]`, a command run with
/// `--workspace NAME` uses that token and cookie, and caches under NAME.
pub proof fn law_auth_then_workspace(
    cfg: JsonV,
    name: Seq<char>,
    token: Seq<char>,
    cookie: Option<Seq<char>>,
)
    requires
        cfg.settable(),
    ensures
        config_creds(Some(name), auth_config(cfg, name, token, cookie)) == (Creds::Found {
            token: token,
            cookie: cookie,
            workspace: name,
        }),
{
    lemma_auth_servers(cfg, name, token, cookie);
    lemma_entry_fields(token, cookie);
}

/// When the config has no default, the workspace saved by `write auth`
/// becomes the one that commands use without `--workspace`.
pub proof fn law_first_auth_is_default(
    cfg: JsonV,
    name: Seq<char>,
    token: Seq<char>,
    cookie: Option<Seq<char>>,
)
    requires
        cfg.settable(),
        cfg.at("default"@).as_str() is None,
    ensures
        config_creds(None, auth_config(cfg, name, token, cookie)) == (Creds::Found {
            token: token,
            cookie: cookie,
            workspace: name,
        }),
{
    lemma_auth_servers(cfg, name, token, cookie);
    lemma_entry_fields(token, cookie);
}

/// After `write default NAME`, commands without `--workspace` use the same
/// credentials as with `--workspace NAME`.
pub proof fn law_default_then_resolve(cfg: JsonV, name: Seq<char>)
    requires
        cfg.at("servers"@).get(name) is Some,
    ensures
        config_creds(None, cfg.set("default"@, JsonV::Str(name))) == config_creds(Some(name), cfg),
{
    lemma_config_keys();
    assert(cfg.get("servers"@) is Some);
    assert(cfg is Object);
    crate::json::law_set_then_get(cfg, "default"@, JsonV::Str(name), "default"@);
    crate::json::law_set_then_get(cfg, "default"@, JsonV::Str(name), "servers"@);
}

/// A session token without a cookie is refused whichever way it comes: by
/// `write auth`, and when building a client from the environment or config.
pub proof fn law_session_needs_cookie(token: Seq<char>)
    requires
        is_session_token(token),
    ensures
        auth_refused(token, None),
        forall|r: Result<Client, ScliError>, w: Seq<char>| #[trigger] client_from(r, token, None, w)
            ==> r == Err::<Client, ScliError>(ScliError::SessionNeedsCookie),
{
}

/// `SLACK_TOKEN` wins unless `--workspace` is given: with a non-empty token
/// and no `--workspace`, the credentials are the token's (the config is not
/// read), cached under a key made from the token; with `--workspace`, the
/// environment is not consulted.
pub proof fn law_env_token_wins(
    token: Seq<char>,
    cookie: Option<Seq<char>>,
    workspace: Seq<char>,
)
    requires
        token.len() > 0,
    ensures
        env_creds(None, Some(token), cookie) matches Some(Creds::Found { token: t, workspace: w, .. })
            && t == token && w == "env-"@ + short_hash_of(token),
        env_creds(Some(workspace), Some(token), cookie) is None,
        env_creds(Some(workspace), Some(token), cookie) == env_creds(Some(workspace), None, cookie),
{
}

} // verus!

use scli::api::Client;
use scli::config::{
    auth, auth_allowed, cache_path, config_path, join_path, load_config, set_default, update_cache_path,
    workspaces,
};
use scli::digest::short_hash;
use scli::error::ScliError;
use scli::json::{Json, JsonNumber};

fn s(x: &str) -> Json {
    Json::Str(x.to_string())
}

fn obj(items: Vec<(&str, Json)>) -> Json {
    Json::Object(items.into_iter().map(|(k, v)| (k.to_string(), v)).collect())
}

fn cfg_two() -> Json {
    obj(vec![
        ("default", s("work")),
        (
            "servers",
            obj(vec![
                ("home", obj(vec![("token", s("xoxp-home"))])),
                ("work", obj(vec![("token", s("xoxc-work")), ("cookie", s("xoxd-w"))])),
                ("broken", obj(vec![("token", Json::Number(JsonNumber::PosInt(1)))])),
            ]),
        ),
    ])
}

fn resolved(r: Result<Client, ScliError>) -> Result<String, ScliError> {
    r.map(|c| c.workspace().to_string())
}

fn no_home(var: &str) -> ScliError {
    ScliError::NoHome { var: var.to_string(), cause: "environment variable not found".to_string() }
}

#[test]
fn paths_follow_xdg_then_home() {
    let unset: Result<&str, &str> = Err("environment variable not found");
    assert_eq!(config_path(Some("/x"), Ok("/home/u")), Ok("/x/scli/config.json".to_string()));
    assert_eq!(config_path(None, Ok("/home/u")), Ok("/home/u/.config/scli/config.json".to_string()));
    assert_eq!(config_path(None, unset), Err(no_home("XDG_CONFIG_HOME")));
    assert_eq!(
        update_cache_path(None, Ok("/home/u/")),
        Ok("/home/u/.config/scli/update-check.json".to_string())
    );
    assert_eq!(update_cache_path(None, unset), Err(no_home("XDG_CONFIG_HOME")));
    assert_eq!(cache_path(Some("/c"), unset, "team"), Ok("/c/scli/team.json".to_string()));
    assert_eq!(cache_path(None, Ok("/h"), "env-ab12"), Ok("/h/.cache/scli/env-ab12.json".to_string()));
    assert_eq!(cache_path(None, unset, "team"), Err(no_home("XDG_CACHE_HOME")));
}

#[test]
fn no_home_message_names_the_variables_and_cause() {
    assert_eq!(
        no_home("XDG_CONFIG_HOME").message(),
        "no HOME/XDG_CONFIG_HOME: environment variable not found"
    );
}

#[test]
fn path_joining() {
    assert_eq!(join_path("/a", "b"), "/a/b");
    assert_eq!(join_path("/a/", "b"), "/a/b");
    assert_eq!(join_path("", "b"), "b");
    assert_eq!(join_path("/a", "/b"), "/b");
}

#[test]
fn missing_config_is_empty() {
    assert_eq!(load_config(None), Ok(obj(vec![("servers", obj(vec![]))])));
    assert_eq!(load_config(Some(Ok(cfg_two()))), Ok(cfg_two()));
    assert_eq!(
        load_config(Some(Err("expected value at line 1".to_string()))),
        Err(ScliError::ConfigParse("expected value at line 1".to_string()))
    );
}

#[test]
fn env_token_wins_without_workspace() {
    let key = format!("env-{}", short_hash("xoxp-env"));
    let r = Client::resolve(None, Some("xoxp-env"), None, Ok(cfg_two()));
    assert_eq!(resolved(r), Ok(key.clone()));
    let r = Client::resolve(None, Some("xoxp-env"), None, Err(no_home("XDG_CONFIG_HOME")));
    assert_eq!(resolved(r), Ok(key));
}

#[test]
fn workspace_flag_beats_env_token() {
    let r = Client::resolve(Some("home"), Some("xoxp-env"), None, Ok(cfg_two()));
    assert_eq!(resolved(r), Ok("home".to_string()));
}

#[test]
fn empty_env_token_falls_back_to_config() {
    let r = Client::resolve(None, Some(""), None, Ok(cfg_two()));
    assert_eq!(resolved(r), Ok("work".to_string()));
}

#[test]
fn env_session_token_needs_env_cookie() {
    let r = Client::resolve(None, Some("xoxc-env"), None, Ok(cfg_two()));
    assert!(matches!(r, Err(ScliError::SessionNeedsCookie)));
    let r = Client::resolve(None, Some("xoxc-env"), Some(""), Ok(cfg_two()));
    assert!(matches!(r, Err(ScliError::SessionNeedsCookie)));
    let r = Client::resolve(None, Some("xoxc-env"), Some("xoxd-1"), Ok(cfg_two()));
    assert!(r.is_ok());
}

#[test]
fn config_errors() {
    let r = Client::resolve(None, None, None, Err(ScliError::ConfigParse("bad".to_string())));
    assert!(matches!(r, Err(ScliError::ConfigParse(_))));
    let r = Client::resolve(Some("nope"), None, None, Ok(cfg_two()));
    assert!(matches!(r, Err(ScliError::UnknownWorkspace(ref n)) if n == "nope"));
    let r = Client::resolve(Some("broken"), None, None, Ok(cfg_two()));
    assert!(matches!(r, Err(ScliError::NoToken(ref n)) if n == "broken"));
    let r = Client::resolve(None, None, None, Ok(obj(vec![("servers", obj(vec![]))])));
    assert!(matches!(r, Err(ScliError::NoWorkspace)));
}

#[test]
fn single_workspace_is_used_without_default() {
    let cfg = obj(vec![("servers", obj(vec![("only", obj(vec![("token", s("xoxp-1"))]))]))]);
    let r = Client::resolve(None, None, None, Ok(cfg));
    assert_eq!(resolved(r), Ok("only".to_string()));
}

#[test]
fn auth_saves_entry_and_first_default() {
    let (cfg, line) = auth(load_config(None), "team", "xoxp-1", None).unwrap();
    assert_eq!(line, "saved workspace 'team'");
    assert_eq!(
        cfg,
        obj(vec![
            ("servers", obj(vec![("team", obj(vec![("token", s("xoxp-1"))]))])),
            ("default", s("team")),
        ])
    );
    let r = Client::resolve(None, None, None, Ok(cfg));
    assert_eq!(resolved(r), Ok("team".to_string()));
}

#[test]
fn auth_then_workspace_uses_it() {
    let (cfg, _) = auth(Ok(cfg_two()), "side", "xoxc-side", Some("xoxd-s")).unwrap();
    let r = Client::resolve(Some("side"), None, None, Ok(cfg.copy()));
    assert_eq!(resolved(r), Ok("side".to_string()));
    // an existing default is kept
    let r = Client::resolve(None, None, None, Ok(cfg));
    assert_eq!(resolved(r), Ok("work".to_string()));
}

#[test]
fn auth_replaces_an_existing_entry() {
    let (cfg, _) = auth(Ok(cfg_two()), "home", "xoxp-new", None).unwrap();
    let servers = cfg.get("servers").unwrap();
    assert_eq!(servers.get("home"), Some(&obj(vec![("token", s("xoxp-new"))])));
}

#[test]
fn auth_refuses_session_token_without_cookie() {
    assert_eq!(auth(load_config(None), "t", "xoxc-1", None), Err(ScliError::AuthNeedsCookie));
    assert_eq!(auth(Err(no_home("XDG_CONFIG_HOME")), "t", "xoxc-1", None), Err(ScliError::AuthNeedsCookie));
    assert_eq!(auth(Err(no_home("XDG_CONFIG_HOME")), "t", "xoxp-1", None), Err(no_home("XDG_CONFIG_HOME")));
}

#[test]
fn auth_makes_servers_an_object() {
    let cfg = obj(vec![("servers", s("oops"))]);
    let (cfg, _) = auth(Ok(cfg), "t", "xoxp-1", None).unwrap();
    assert_eq!(
        cfg,
        obj(vec![("servers", obj(vec![("t", obj(vec![("token", s("xoxp-1"))]))])), ("default", s("t"))])
    );
}

#[test]
fn set_default_needs_a_known_workspace() {
    let (cfg, line) = set_default(Ok(cfg_two()), "home").unwrap();
    assert_eq!(line, "default = home");
    let r = Client::resolve(None, None, None, Ok(cfg));
    assert_eq!(resolved(r), Ok("home".to_string()));
    assert_eq!(set_default(Ok(cfg_two()), "nope"), Err(ScliError::UnknownWorkspace("nope".to_string())));
    assert_eq!(set_default(Err(no_home("XDG_CONFIG_HOME")), "home"), Err(no_home("XDG_CONFIG_HOME")));
}

#[test]
fn workspaces_mark_the_default() {
    assert_eq!(
        workspaces(&cfg_two()),
        vec!["home".to_string(), "work (default)".to_string(), "broken".to_string()]
    );
    assert_eq!(workspaces(&obj(vec![("servers", obj(vec![]))])), vec!["no workspaces".to_string()]);
    assert_eq!(workspaces(&Json::Null), vec!["no workspaces".to_string()]);
}

#[test]
fn env_step_comes_before_the_config() {
    let key = format!("env-{}", short_hash("xoxp-env"));
    let r = Client::from_env(None, Some("xoxp-env"), None).map(resolved);
    assert_eq!(r, Some(Ok(key)));
    assert!(Client::from_env(Some("home"), Some("xoxp-env"), None).is_none());
    assert!(Client::from_env(None, Some(""), None).is_none());
    assert!(Client::from_env(None, None, Some("xoxd-1")).is_none());
    let r = Client::from_env(None, Some("xoxc-env"), None).map(resolved);
    assert_eq!(r, Some(Err(ScliError::SessionNeedsCookie)));
}

#[test]
fn auth_refusal_needs_no_config() {
    assert_eq!(auth_allowed("xoxc-1", None), Err(ScliError::AuthNeedsCookie));
    assert_eq!(auth_allowed("xoxc-1", Some("xoxd-1")), Ok(()));
    assert_eq!(auth_allowed("xoxp-1", None), Ok(()));
}

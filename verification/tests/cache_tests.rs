use scli::api::{ApiCall, Client};
use scli::cache::{now_secs, secs_or_zero, Chan, Maps, Usr, CACHE_TTL_SECS};
use scli::json::{Json, JsonNumber};

fn s(x: &str) -> Json {
    Json::Str(x.to_string())
}

fn obj(items: Vec<(&str, Json)>) -> Json {
    Json::Object(items.into_iter().map(|(k, v)| (k.to_string(), v)).collect())
}

fn arr(items: Vec<Json>) -> Json {
    Json::Array(items)
}

fn client() -> Client {
    Client::new("xoxp-1".to_string(), None, "team".to_string()).unwrap()
}

fn chan(id: &str, name: &str) -> Chan {
    Chan { id: id.to_string(), name: name.to_string() }
}

fn usr(id: &str, name: &str, real: &str, display: &str) -> Usr {
    Usr {
        id: id.to_string(),
        name: name.to_string(),
        real_name: real.to_string(),
        display: display.to_string(),
    }
}

fn sample() -> Maps {
    Maps {
        fetched: 1000,
        channels: vec![chan("C1", "general"), chan("C2", "dev-ops"), chan("C3", "general")],
        users: vec![usr("U1", "alice", "Alice Liddell", "ali"), usr("U2", "bob", "", "Bobby")],
    }
}

#[test]
fn cache_json_round_trips() {
    let m = sample();
    assert_eq!(Maps::from_json(&m.to_json()), m);
    let empty = Maps { fetched: 0, channels: vec![], users: vec![] };
    assert_eq!(Maps::from_json(&empty.to_json()), empty);
}

#[test]
fn cache_json_layout() {
    let m = Maps { fetched: 5, channels: vec![chan("C1", "g")], users: vec![usr("U1", "a", "b", "c")] };
    assert_eq!(
        m.to_json(),
        obj(vec![
            ("fetched", Json::Number(JsonNumber::PosInt(5))),
            ("channels", arr(vec![obj(vec![("id", s("C1")), ("name", s("g"))])])),
            (
                "users",
                arr(vec![obj(vec![("id", s("U1")), ("name", s("a")), ("real", s("b")), ("display", s("c"))])])
            ),
        ])
    );
}

#[test]
fn cache_from_partial_json() {
    let v = obj(vec![
        ("channels", arr(vec![obj(vec![("id", s("C9"))]), s("junk")])),
        ("users", s("not a list")),
    ]);
    let m = Maps::from_json(&v);
    assert_eq!(m.fetched, 0);
    assert_eq!(m.channels, vec![chan("C9", ""), chan("", "")]);
    assert!(m.users.is_empty());
    assert_eq!(Maps::from_json(&Json::Null), Maps { fetched: 0, channels: vec![], users: vec![] });
}

#[test]
fn freshness_window() {
    let m = sample();
    assert!(m.is_fresh_at(1000));
    assert!(m.is_fresh_at(1000 + CACHE_TTL_SECS - 1));
    assert!(!m.is_fresh_at(1000 + CACHE_TTL_SECS));
    assert!(m.is_fresh_at(10));
    assert_eq!(CACHE_TTL_SECS, 300);
}

#[test]
fn freshness_by_the_clock() {
    let now = now_secs();
    assert!(now > 1_600_000_000);
    let old = Maps { fetched: 0, channels: vec![], users: vec![] };
    assert!(!old.is_fresh());
    let new = Maps { fetched: now, channels: vec![], users: vec![] };
    assert!(new.is_fresh());
}

#[test]
fn cached_maps_used_only_when_fresh_and_not_forced() {
    let c = client();
    assert_eq!(c.maps(false, Some(sample()), 1100), Some(sample()));
    assert_eq!(c.maps(true, Some(sample()), 1100), None);
    assert_eq!(c.maps(false, Some(sample()), 1000 + CACHE_TTL_SECS), None);
    assert_eq!(c.maps(false, None, 1100), None);
}

#[test]
fn find_by_exact_name() {
    let m = sample();
    assert_eq!(m.find_channel("general"), Some("C1".to_string()));
    assert_eq!(m.find_channel("General"), None);
    assert_eq!(m.find_user("bob"), Some("U2".to_string()));
    assert_eq!(m.find_user("Bobby"), Some("U2".to_string()));
    assert_eq!(m.find_user("Alice Liddell"), None);
}

#[test]
fn ls_lists_channels_then_users() {
    let c = client();
    let m = sample();
    assert_eq!(
        c.ls(&m, "GEN"),
        vec!["chan\tC1\tgeneral".to_string(), "chan\tC3\tgeneral".to_string()]
    );
    assert_eq!(c.ls(&m, "liddell"), vec!["user\tU1\talice".to_string()]);
    assert_eq!(c.ls(&m, "b"), vec!["user\tU2\tbob".to_string()]);
    assert_eq!(c.ls(&m, "o"), vec!["chan\tC2\tdev-ops".to_string(), "user\tU2\tbob".to_string()]);
}

#[test]
fn ls_without_a_match() {
    let c = client();
    assert_eq!(c.ls(&sample(), "zz"), vec!["no match for 'zz'".to_string()]);
}

#[test]
fn sync_line_counts() {
    let c = client();
    assert_eq!(c.sync_line(&sample()), "synced team: 3 channels, 2 users");
}

#[test]
fn fetch_pages_channels_then_users() {
    let c = client();
    let mut f = c.fetch_maps();
    assert!(!f.is_finished());
    let r = f.request().unwrap();
    assert_eq!(
        r,
        ApiCall {
            method: "conversations.list".to_string(),
            params: vec![
                ("types".to_string(), "public_channel,private_channel".to_string()),
                ("limit".to_string(), "200".to_string()),
                ("exclude_archived".to_string(), "true".to_string()),
                ("cursor".to_string(), String::new()),
            ],
        }
    );
    f.on_page(&obj(vec![
        ("channels", arr(vec![obj(vec![("id", s("C1")), ("name", s("general"))]), obj(vec![("id", s("D1"))])])),
        ("response_metadata", obj(vec![("next_cursor", s("p2"))])),
    ]));
    assert_eq!(f.request().unwrap().params[3].1, "p2");
    f.on_page(&obj(vec![("channels", arr(vec![obj(vec![("id", s("C2")), ("name", s("random"))])]))]));
    let r = f.request().unwrap();
    assert_eq!(r.method, "users.list");
    assert_eq!(r.params, vec![("limit".to_string(), "200".to_string()), ("cursor".to_string(), String::new())]);
    f.on_page(&obj(vec![(
        "members",
        arr(vec![
            obj(vec![
                ("id", s("U1")),
                ("name", s("alice")),
                ("profile", obj(vec![("real_name", s("Alice")), ("display_name", s("ali"))])),
            ]),
            obj(vec![("id", s("U2")), ("deleted", Json::Bool(true))]),
            obj(vec![("name", s("no id"))]),
        ]),
    )]));
    assert!(f.is_finished());
    assert!(f.request().is_none());
    let m = f.finish(42);
    assert_eq!(
        m,
        Maps {
            fetched: 42,
            channels: vec![chan("C1", "general"), chan("C2", "random")],
            users: vec![usr("U1", "alice", "Alice", "ali")],
        }
    );
}

#[test]
fn clock_reading_before_the_epoch_is_zero() {
    assert_eq!(secs_or_zero(Some(1_700_000_000)), 1_700_000_000);
    assert_eq!(secs_or_zero(None), 0);
}

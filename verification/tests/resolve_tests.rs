use scli::api::Client;
use scli::cache::{Chan, Maps, Usr};
use scli::error::ScliError;
use scli::json::Json;
use scli::resolve::{is_user_id, Lookup};

fn client() -> Client {
    Client::new("xoxp-1".to_string(), None, "team".to_string()).unwrap()
}

fn maps() -> Maps {
    Maps {
        fetched: 0,
        channels: vec![
            Chan { id: "C1".to_string(), name: "general".to_string() },
            Chan { id: "C2".to_string(), name: "random".to_string() },
        ],
        users: vec![Usr {
            id: "U1".to_string(),
            name: "alice".to_string(),
            real_name: "Alice".to_string(),
            display: "ali".to_string(),
        }],
    }
}

#[test]
fn raw_channel_id_is_itself() {
    let c = client();
    let m = maps();
    assert_eq!(c.resolve_channel("C0123", None), Lookup::Found("C0123".to_string()));
    assert_eq!(c.resolve_channel("#G77", None), Lookup::Found("G77".to_string()));
    assert_eq!(c.resolve_channel("D1", Some((&m, true))), Lookup::Found("D1".to_string()));
}

#[test]
fn at_channel_goes_through_the_user() {
    let c = client();
    assert_eq!(c.resolve_channel("@alice", None), Lookup::ViaUser("alice".to_string()));
    assert_eq!(c.resolve_channel("@U1", None), Lookup::ViaUser("U1".to_string()));
}

#[test]
fn channel_name_looks_in_cache_then_fresh_maps() {
    let c = client();
    let m = maps();
    let empty = Maps { fetched: 0, channels: vec![], users: vec![] };
    assert_eq!(c.resolve_channel("#general", None), Lookup::NeedMaps(false));
    assert_eq!(c.resolve_channel("#general", Some((&m, false))), Lookup::Found("C1".to_string()));
    assert_eq!(c.resolve_channel("random", Some((&empty, false))), Lookup::NeedMaps(true));
    assert_eq!(c.resolve_channel("random", Some((&m, true))), Lookup::Found("C2".to_string()));
}

#[test]
fn unknown_channel_after_fresh_maps() {
    let c = client();
    let m = maps();
    assert_eq!(
        c.resolve_channel("#nope", Some((&m, true))),
        Lookup::NotFound(ScliError::ChannelNotFound("#nope".to_string()))
    );
    assert_eq!(
        c.resolve_channel("general-2", Some((&m, true))),
        Lookup::NotFound(ScliError::ChannelNotFound("general-2".to_string()))
    );
}

#[test]
fn user_id_is_itself() {
    let c = client();
    assert_eq!(c.resolve_user("U123", None), Lookup::Found("U123".to_string()));
    assert_eq!(c.resolve_user("@W9", None), Lookup::Found("W9".to_string()));
    assert_eq!(c.resolve_user("U012AB3CD", None), Lookup::Found("U012AB3CD".to_string()));
}

#[test]
fn only_id_shaped_text_is_a_user_id() {
    assert!(is_user_id("U123"));
    assert!(is_user_id("W0ABC"));
    assert!(!is_user_id("U"));
    assert!(!is_user_id("Ursula"));
    assert!(!is_user_id("u123"));
    assert!(!is_user_id("X123"));
    assert!(!is_user_id("U12-3"));
    let c = client();
    assert_eq!(c.resolve_user("Ursula", None), Lookup::NeedMaps(false));
    assert_eq!(c.resolve_user("@Walter", None), Lookup::NeedMaps(false));
}

#[test]
fn display_name_starting_with_u_is_looked_up() {
    let c = client();
    let m = Maps {
        fetched: 0,
        channels: vec![],
        users: vec![Usr {
            id: "U7".to_string(),
            name: "urs".to_string(),
            real_name: String::new(),
            display: "Ursula".to_string(),
        }],
    };
    assert_eq!(c.resolve_user("Ursula", Some((&m, false))), Lookup::Found("U7".to_string()));
    assert_eq!(c.resolve_user("@Ursula", Some((&m, true))), Lookup::Found("U7".to_string()));
}

#[test]
fn user_name_or_display_name_is_looked_up() {
    let c = client();
    let m = maps();
    assert_eq!(c.resolve_user("@alice", None), Lookup::NeedMaps(false));
    assert_eq!(c.resolve_user("@alice", Some((&m, false))), Lookup::Found("U1".to_string()));
    assert_eq!(c.resolve_user("ali", Some((&m, false))), Lookup::Found("U1".to_string()));
    assert_eq!(c.resolve_user("Alice", Some((&m, false))), Lookup::NeedMaps(true));
    assert_eq!(
        c.resolve_user("@Alice", Some((&m, true))),
        Lookup::NotFound(ScliError::UserNotFound("@Alice".to_string()))
    );
}

#[test]
fn fresh_lookup_is_final() {
    let c = client();
    let empty = Maps { fetched: 0, channels: vec![], users: vec![] };
    for arg in ["general", "#x", "bob", ""] {
        assert!(!matches!(c.resolve_channel(arg, Some((&empty, true))), Lookup::NeedMaps(_)));
        assert!(!matches!(c.resolve_user(arg, Some((&empty, true))), Lookup::NeedMaps(_)));
    }
}

#[test]
fn opened_dm_channel() {
    let c = client();
    let opened = Json::Object(vec![(
        "channel".to_string(),
        Json::Object(vec![("id".to_string(), Json::Str("D5".to_string()))]),
    )]);
    assert_eq!(c.opened_channel(&opened, "@alice"), "D5");
    assert_eq!(c.opened_channel(&Json::Null, "@alice"), "@alice");
}

#[test]
fn opened_dm_id_is_resolved_again() {
    let c = client();
    let opened = Json::Object(vec![(
        "channel".to_string(),
        Json::Object(vec![("id".to_string(), Json::Str("#general".to_string()))]),
    )]);
    let channel = c.dm(&opened).unwrap();
    let m = maps();
    assert_eq!(c.resolve_channel(&channel, None), Lookup::NeedMaps(false));
    assert_eq!(c.resolve_channel(&channel, Some((&m, false))), Lookup::Found("C1".to_string()));
    let direct = Json::Object(vec![(
        "channel".to_string(),
        Json::Object(vec![("id".to_string(), Json::Str("D42".to_string()))]),
    )]);
    assert_eq!(c.resolve_channel(&c.dm(&direct).unwrap(), None), Lookup::Found("D42".to_string()));
}

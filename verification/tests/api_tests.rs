use scli::api::{
    add_reaction, add_reminder, complete_upload, conversations_list, list_reminders,
    open_conversation, post_message, read, single_message, upload_url_request, users_list, ApiCall,
    Client, HttpOutcome, API,
};
use scli::error::ScliError;
use scli::json::{Json, JsonNumber};

fn s(x: &str) -> Json {
    Json::Str(x.to_string())
}

fn obj(items: Vec<(&str, Json)>) -> Json {
    Json::Object(items.into_iter().map(|(k, v)| (k.to_string(), v)).collect())
}

fn pairs(items: &[(&str, &str)]) -> Vec<(String, String)> {
    items.iter().map(|(k, v)| (k.to_string(), v.to_string())).collect()
}

fn call(method: &str, items: &[(&str, &str)]) -> ApiCall {
    ApiCall { method: method.to_string(), params: pairs(items) }
}

#[test]
fn ok_reply_is_returned() {
    let v = obj(vec![("ok", Json::Bool(true)), ("ts", s("1.2"))]);
    let r = read(HttpOutcome::Reply(Ok(v.copy())), "chat.postMessage");
    assert_eq!(r, Ok(v));
}

#[test]
fn not_ok_reply_reports_its_error() {
    let v = obj(vec![("ok", Json::Bool(false)), ("error", s("channel_not_found"))]);
    let r = read(HttpOutcome::Reply(Ok(v)), "conversations.history");
    assert_eq!(
        r,
        Err(ScliError::Api {
            method: "conversations.history".to_string(),
            error: "channel_not_found".to_string()
        })
    );
}

#[test]
fn reply_without_ok_is_unknown_error() {
    let v = obj(vec![("ok", s("true"))]);
    let r = read(HttpOutcome::Reply(Ok(v)), "users.list");
    assert_eq!(
        r,
        Err(ScliError::Api { method: "users.list".to_string(), error: "unknown_error".to_string() })
    );
    let r = read(HttpOutcome::Reply(Ok(Json::Null)), "users.list");
    assert!(matches!(r, Err(ScliError::Api { ref error, .. }) if error == "unknown_error"));
}

#[test]
fn http_status_is_reported() {
    let r = read(HttpOutcome::Status(429, "slow down".to_string()), "users.list");
    assert_eq!(
        r,
        Err(ScliError::HttpStatus {
            method: "users.list".to_string(),
            code: 429,
            body: "slow down".to_string()
        })
    );
}

#[test]
fn transport_and_json_failures_are_reported() {
    let r = read(HttpOutcome::Transport("dns".to_string()), "m");
    assert_eq!(r, Err(ScliError::RequestFailed { method: "m".to_string(), detail: "dns".to_string() }));
    let r = read(HttpOutcome::Reply(Err("eof".to_string())), "m");
    assert_eq!(r, Err(ScliError::InvalidJson { method: "m".to_string(), detail: "eof".to_string() }));
}

#[test]
fn session_token_needs_a_cookie() {
    let r = Client::new("xoxc-abc".to_string(), None, "team".to_string());
    assert!(matches!(r, Err(ScliError::SessionNeedsCookie)));
    let r = Client::new("xoxc-abc".to_string(), Some("xoxd-1".to_string()), "team".to_string());
    assert!(r.is_ok());
    let r = Client::new("xoxp-abc".to_string(), None, "team".to_string());
    assert_eq!(r.map(|c| c.workspace().to_string()), Ok("team".to_string()));
}

#[test]
fn request_carries_token_cookie_and_form() {
    let c = Client::new("xoxc-abc".to_string(), Some("xoxd-1".to_string()), "t".to_string()).unwrap();
    let req = c.call(&users_list("cur"));
    assert_eq!(req.url, format!("{API}/users.list"));
    assert_eq!(req.url, "https://slack.com/api/users.list");
    assert_eq!(req.headers, pairs(&[("Authorization", "Bearer xoxc-abc"), ("Cookie", "d=xoxd-1")]));
    assert_eq!(req.form, pairs(&[("limit", "200"), ("cursor", "cur")]));
}

#[test]
fn request_without_cookie_has_only_authorization() {
    let c = Client::new("xoxp-9".to_string(), None, "t".to_string()).unwrap();
    let req = c.call(&list_reminders());
    assert_eq!(req.url, "https://slack.com/api/reminders.list");
    assert_eq!(req.headers, pairs(&[("Authorization", "Bearer xoxp-9")]));
    assert!(req.form.is_empty());
}

#[test]
fn request_builders() {
    assert_eq!(
        conversations_list("im", ""),
        call(
            "conversations.list",
            &[("types", "im"), ("limit", "200"), ("exclude_archived", "true"), ("cursor", "")]
        )
    );
    assert_eq!(open_conversation("U1"), call("conversations.open", &[("users", "U1")]));
    assert_eq!(
        single_message("C1", "1.5"),
        call("conversations.replies", &[("channel", "C1"), ("ts", "1.5"), ("limit", "1")])
    );
    assert_eq!(
        post_message("C1", "hi", None),
        call("chat.postMessage", &[("channel", "C1"), ("text", "hi")])
    );
    assert_eq!(
        post_message("C1", "hi", Some("9.9")),
        call("chat.postMessage", &[("channel", "C1"), ("text", "hi"), ("thread_ts", "9.9")])
    );
    assert_eq!(
        upload_url_request("a.txt", 1024),
        call("files.getUploadURLExternal", &[("filename", "a.txt"), ("length", "1024")])
    );
    assert_eq!(
        complete_upload("[{\"id\":\"F1\"}]", "C1", "look", Some("1.0")),
        call(
            "files.completeUploadExternal",
            &[
                ("files", "[{\"id\":\"F1\"}]"),
                ("channel_id", "C1"),
                ("initial_comment", "look"),
                ("thread_ts", "1.0")
            ]
        )
    );
    assert_eq!(
        add_reaction("C1", "1.0", ":thumbsup:"),
        call("reactions.add", &[("channel", "C1"), ("timestamp", "1.0"), ("name", "thumbsup")])
    );
    assert_eq!(
        add_reminder("stretch", "in 30 minutes"),
        call("reminders.add", &[("text", "stretch"), ("time", "in 30 minutes")])
    );
}

#[test]
fn history_thread_and_dm_requests() {
    let c = Client::new("xoxp-1".to_string(), None, "t".to_string()).unwrap();
    assert_eq!(
        c.read("C1", 20),
        call("conversations.history", &[("channel", "C1"), ("limit", "20")])
    );
    assert_eq!(
        c.thread("C1", "1.5"),
        call("conversations.replies", &[("channel", "C1"), ("ts", "1.5")])
    );
    let opened = obj(vec![("ok", Json::Bool(true)), ("channel", obj(vec![("id", s("D77"))]))]);
    assert_eq!(c.dm(&opened), Ok("D77".to_string()));
    let odd = obj(vec![("channel", obj(vec![("id", s("#x"))]))]);
    assert_eq!(c.dm(&odd), Ok("#x".to_string()));
    let broken = obj(vec![("channel", obj(vec![("id", Json::Number(JsonNumber::PosInt(1)))]))]);
    assert_eq!(c.dm(&broken), Err(ScliError::CouldNotOpenDm));
}

#[test]
fn file_download_request_is_authenticated() {
    let c = Client::new("xoxc-abc".to_string(), Some("xoxd-1".to_string()), "t".to_string()).unwrap();
    let req = c.file_request("https://files.slack.com/x/a.png");
    assert_eq!(req.url, "https://files.slack.com/x/a.png");
    assert_eq!(req.headers, pairs(&[("Authorization", "Bearer xoxc-abc"), ("Cookie", "d=xoxd-1")]));
    assert!(req.form.is_empty());
}

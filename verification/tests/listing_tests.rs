use scli::api::{ApiCall, Client};
use scli::error::ScliError;
use scli::json::{Json, JsonNumber};
use scli::listing::{
    attachment_line, channel_page, channel_types, file_line, message_line, next_cursor,
    print_messages, reactions_str, saved_line, user_page, REMINDERS_DEPRECATED,
};

fn s(x: &str) -> Json {
    Json::Str(x.to_string())
}

fn n(x: u64) -> Json {
    Json::Number(JsonNumber::PosInt(x))
}

fn obj(items: Vec<(&str, Json)>) -> Json {
    Json::Object(items.into_iter().map(|(k, v)| (k.to_string(), v)).collect())
}

fn arr(items: Vec<Json>) -> Json {
    Json::Array(items)
}

fn strings(items: &[&str]) -> Vec<String> {
    items.iter().map(|x| x.to_string()).collect()
}

fn client() -> Client {
    Client::new("xoxp-1".to_string(), None, "team".to_string()).unwrap()
}

#[test]
fn cursor_of_a_page() {
    let v = obj(vec![("response_metadata", obj(vec![("next_cursor", s("dXNlcg=="))]))]);
    assert_eq!(next_cursor(&v), "dXNlcg==");
    assert_eq!(next_cursor(&obj(vec![])), "");
}

#[test]
fn reactions_are_name_count_pairs() {
    let m = obj(vec![(
        "reactions",
        arr(vec![
            obj(vec![("name", s("tada")), ("count", n(3))]),
            obj(vec![("count", n(1))]),
            obj(vec![("name", s("eyes"))]),
        ]),
    )]);
    assert_eq!(reactions_str(&m), "tada:3 ?:1 eyes:0");
    assert_eq!(reactions_str(&obj(vec![])), "");
}

#[test]
fn message_line_with_all_tags() {
    let m = obj(vec![
        ("ts", s("1700000000.000100")),
        ("user", s("U1")),
        ("text", s("deploy\nfinished")),
        ("reply_count", n(2)),
        ("reactions", arr(vec![obj(vec![("name", s("tada")), ("count", n(1))])])),
        ("files", arr(vec![obj(vec![]), obj(vec![])])),
        ("attachments", arr(vec![obj(vec![])])),
    ]);
    assert_eq!(
        message_line(&m),
        "1700000000.000100  U1  deploy finished [thread:2] [tada:1] [files:2] [attachments:1]"
    );
}

#[test]
fn message_line_author_falls_back() {
    let bot = obj(vec![("ts", s("1")), ("bot_id", s("B9")), ("text", s("hi"))]);
    assert_eq!(message_line(&bot), "1  B9  hi");
    let nobody = obj(vec![("ts", s("2"))]);
    assert_eq!(message_line(&nobody), "2  ?  ");
    let empty_lists = obj(vec![("ts", s("3")), ("user", s("U")), ("files", arr(vec![])), ("attachments", arr(vec![]))]);
    assert_eq!(message_line(&empty_lists), "3  U   [files:0]");
}

#[test]
fn messages_print_oldest_first() {
    let v = obj(vec![(
        "messages",
        arr(vec![
            obj(vec![("ts", s("3")), ("user", s("U1")), ("text", s("newest"))]),
            obj(vec![("ts", s("2")), ("user", s("U2")), ("text", s("middle"))]),
            obj(vec![("ts", s("1")), ("user", s("U1")), ("text", s("oldest"))]),
        ]),
    )]);
    assert_eq!(
        print_messages(&v),
        strings(&["1  U1  oldest", "2  U2  middle", "3  U1  newest"])
    );
}

#[test]
fn no_messages() {
    assert_eq!(print_messages(&obj(vec![("messages", arr(vec![]))])), strings(&["no messages"]));
    assert_eq!(print_messages(&obj(vec![])), strings(&["no messages"]));
}

#[test]
fn channel_types_map_kinds() {
    assert_eq!(channel_types("public"), Ok("public_channel"));
    assert_eq!(channel_types("private"), Ok("private_channel"));
    assert_eq!(channel_types("dm"), Ok("im"));
    assert_eq!(channel_types("mpim"), Ok("mpim"));
    assert_eq!(channel_types("all"), Ok("public_channel,private_channel,mpim,im"));
    assert_eq!(channel_types("group"), Err(ScliError::UnknownChannelType("group".to_string())));
}

fn channels_page() -> Json {
    obj(vec![
        (
            "channels",
            arr(vec![
                obj(vec![("id", s("C1")), ("name", s("general"))]),
                obj(vec![("id", s("D2")), ("user", s("U7"))]),
                obj(vec![("id", s("C3")), ("name", s("Dev-Ops"))]),
                obj(vec![("id", s("D4"))]),
            ]),
        ),
        ("response_metadata", obj(vec![("next_cursor", s("next"))])),
    ])
}

#[test]
fn channel_lines_name_dms_by_user() {
    assert_eq!(
        channel_page(&channels_page(), &None),
        strings(&["C1\tgeneral", "D2\tdm:U7", "C3\tDev-Ops", "D4\tdm:?"])
    );
}

#[test]
fn channel_filter_is_case_insensitive() {
    assert_eq!(channel_page(&channels_page(), &Some("ops".to_string())), strings(&["C3\tDev-Ops"]));
    assert_eq!(channel_page(&channels_page(), &Some("U7".to_string())), strings(&["D2\tdm:U7"]));
}

#[test]
fn channel_listing_pages_until_no_cursor() {
    let c = client();
    assert!(matches!(c.channels("bogus", None), Err(ScliError::UnknownChannelType(_))));
    let mut l = c.channels("dm", None).unwrap();
    assert!(!l.is_done());
    assert_eq!(
        l.request(),
        ApiCall {
            method: "conversations.list".to_string(),
            params: vec![
                ("types".to_string(), "im".to_string()),
                ("limit".to_string(), "200".to_string()),
                ("exclude_archived".to_string(), "true".to_string()),
                ("cursor".to_string(), String::new()),
            ],
        }
    );
    let lines = l.on_page(&channels_page());
    assert_eq!(lines.len(), 4);
    assert!(!l.is_done());
    assert_eq!(l.request().params[3].1, "next");
    let lines = l.on_page(&obj(vec![("channels", arr(vec![]))]));
    assert!(lines.is_empty());
    assert!(l.is_done());
    assert_eq!(l.finish(), None);
}

#[test]
fn channel_listing_says_when_nothing_matched() {
    let c = client();
    let mut l = c.channels("all", Some("zzz".to_string())).unwrap();
    let lines = l.on_page(&channels_page());
    assert!(lines.is_empty());
    let _ = l.on_page(&obj(vec![]));
    assert!(l.is_done());
    assert_eq!(l.finish(), Some("no channels".to_string()));
}

fn users_page() -> Json {
    obj(vec![(
        "members",
        arr(vec![
            obj(vec![
                ("id", s("U1")),
                ("name", s("alice")),
                ("profile", obj(vec![("real_name", s("Alice Liddell"))])),
            ]),
            obj(vec![("id", s("U2")), ("name", s("bob")), ("deleted", Json::Bool(true))]),
            obj(vec![("id", s("U3")), ("name", s("carol")), ("deleted", Json::Bool(false))]),
        ]),
    )])
}

#[test]
fn user_lines_skip_deleted() {
    assert_eq!(
        user_page(&users_page(), &None),
        strings(&["U1\talice\tAlice Liddell", "U3\tcarol\t"])
    );
}

#[test]
fn user_filter_matches_name_or_real_name() {
    assert_eq!(user_page(&users_page(), &Some("LIDDELL".to_string())), strings(&["U1\talice\tAlice Liddell"]));
    assert_eq!(user_page(&users_page(), &Some("car".to_string())), strings(&["U3\tcarol\t"]));
    assert!(user_page(&users_page(), &Some("bob".to_string())).is_empty());
}

#[test]
fn user_listing_pages() {
    let c = client();
    let mut l = c.users(None);
    assert!(!l.is_done());
    assert_eq!(l.request().method, "users.list");
    let lines = l.on_page(&users_page());
    assert_eq!(lines.len(), 2);
    assert!(l.is_done());
}

#[test]
fn attachment_line_parts() {
    let a = obj(vec![
        ("pretext", s("New\nrelease")),
        ("title", s("v1.2.0")),
        ("title_link", s("https://x/r")),
        ("text", s("notes")),
        (
            "fields",
            arr(vec![
                obj(vec![("title", s("Env")), ("value", s("prod\nEU"))]),
                obj(vec![("value", s("solo"))]),
            ]),
        ),
    ]);
    assert_eq!(
        attachment_line(&a),
        "attachment\tNew release | v1.2.0\thttps://x/r | notes | Env: prod EU | : solo"
    );
}

#[test]
fn attachment_line_link_fallbacks() {
    let a = obj(vec![("from_url", s("https://x/u"))]);
    assert_eq!(attachment_line(&a), "attachment\thttps://x/u");
    let b = obj(vec![("title", s("Only title"))]);
    assert_eq!(attachment_line(&b), "attachment\tOnly title");
    assert_eq!(attachment_line(&obj(vec![])), "attachment\t");
}

#[test]
fn files_report_of_a_message() {
    let c = client();
    let v = obj(vec![(
        "messages",
        arr(vec![obj(vec![
            (
                "files",
                arr(vec![
                    obj(vec![
                        ("name", s("a.png")),
                        ("url_private", s("https://f/a")),
                        ("url_private_download", s("https://f/a?dl")),
                    ]),
                    obj(vec![("url_private", s("https://f/b"))]),
                ]),
            ),
            ("attachments", arr(vec![obj(vec![("title", s("T"))])])),
        ])]),
    )]);
    let rep = c.files(&v).unwrap();
    assert_eq!(rep.lines, strings(&["attachment\tT"]));
    assert_eq!(
        rep.files,
        vec![
            ("a.png".to_string(), "https://f/a?dl".to_string()),
            ("file".to_string(), "https://f/b".to_string())
        ]
    );
}

#[test]
fn files_report_edge_cases() {
    let c = client();
    assert_eq!(c.files(&obj(vec![("messages", arr(vec![]))])), Err(ScliError::MessageNotFound));
    let rep = c.files(&obj(vec![("messages", arr(vec![obj(vec![("text", s("plain"))])]))])).unwrap();
    assert_eq!(rep.lines, strings(&["no files or attachments"]));
    assert!(rep.files.is_empty());
}

#[test]
fn file_and_saved_lines() {
    assert_eq!(file_line("a.png", "https://f/a"), "a.png\thttps://f/a");
    assert_eq!(saved_line("/tmp/a.png"), "saved /tmp/a.png");
}

#[test]
fn reminder_lines() {
    let c = client();
    let v = obj(vec![(
        "reminders",
        arr(vec![
            obj(vec![("id", s("Rm1")), ("time", n(1700000000)), ("text", s("stretch"))]),
            obj(vec![("id", s("Rm2")), ("time", Json::Number(JsonNumber::NegInt(-5)))]),
            obj(vec![("text", s("no id"))]),
        ]),
    )]);
    assert_eq!(
        c.remind_list(&v),
        strings(&["Rm1\t1700000000\tstretch", "Rm2\t-5\t", "\t0\tno id"])
    );
    assert_eq!(c.remind_list(&obj(vec![])), strings(&["no reminders"]));
    assert!(REMINDERS_DEPRECATED.contains("deprecated"));
}

#[test]
fn reply_lines_after_writes() {
    let c = client();
    let added = obj(vec![("reminder", obj(vec![("id", s("Rm9"))]))]);
    assert_eq!(c.remind_add_line(&added), "Rm9");
    assert_eq!(c.remind_add_line(&obj(vec![])), "ok");
    assert_eq!(c.sent_line(&obj(vec![("ts", s("1.25"))])), "1.25");
    assert_eq!(c.sent_line(&obj(vec![])), "ok");
}

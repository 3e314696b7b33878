use x_tweets_backup::config::Config;
use x_tweets_backup::downloader::{load_downloaded_ids, record_line, sanitize_file_name, Downloader};
use x_tweets_backup::json::Json;
use x_tweets_backup::markdown_generator::{display_order_of, push_escaped, MarkdownGenerator, TweetContent};
use x_tweets_backup::setup::{parse_cookies, private_tokens_content};
use x_tweets_backup::config::parse_private_tokens;
use x_tweets_backup::tweet_parser::{extract_tweet_timestamp_datetime, extract_tweet_timestamp_seconds};
use x_tweets_backup::x_api::{TweetPager, XApi};

fn to_json(v: &serde_json::Value) -> Json {
    match v {
        serde_json::Value::Null => Json::Null,
        serde_json::Value::Bool(b) => Json::Bool(*b),
        serde_json::Value::Number(n) => {
            if let Some(u) = n.as_u64() {
                Json::PosInt(u)
            } else if let Some(i) = n.as_i64() {
                Json::NegInt(i)
            } else {
                Json::Float(n.to_string())
            }
        }
        serde_json::Value::String(s) => Json::Str(s.clone()),
        serde_json::Value::Array(a) => Json::Array(a.iter().map(to_json).collect()),
        serde_json::Value::Object(m) => {
            Json::Object(m.iter().map(|(k, v)| (k.clone(), to_json(v))).collect())
        }
    }
}

/// A JSON document written as text.
fn j(text: &str) -> Json {
    to_json(&serde_json::from_str::<serde_json::Value>(text).unwrap())
}

fn create_test_config() -> Config {
    Config {
        user_id: "".to_string(),
        bearer_token: "".to_string(),
        auth_token: "".to_string(),
        ct0: "".to_string(),
        personalization_id: "".to_string(),
        user_agent: "Mozilla/5.0".to_string(),
        x_client_uuid: "".to_string(),
        x_client_transaction_id: "".to_string(),
        count: "20".to_string(),
        all: false,
        download_dir: "data/downloads".to_string(),
        download_record: "data/downloaded_tweet_ids.txt".to_string(),
        file_format: "{USERNAME} {ID}".to_string(),
        target_user_id: "test_user".to_string(),
        target_username: "test_user".to_string(),
        only_self: false,
        save_markdown: true,
        markdown_output: "data/test_output.md".to_string(),
        debug_logs: false,
        user_by_screen_name_query_id: "6ND0OKRCgPajU_yJbcWSVw".to_string(),
        user_tweets_query_id: "V3vRrAJh5U6n9m1ZJ8xYQw".to_string(),
        max_pages: 50,
        download_timeout_secs: 30,
    }
}

fn content(id: &str, text: &str, created_at: Option<i64>) -> TweetContent {
    TweetContent {
        id: id.to_string(),
        text: text.to_string(),
        created_at,
        username: Some("test_user".to_string()),
        display_name: None,
        media_urls: vec![],
        is_retweet: false,
        retweeted_by: None,
        reply_to: None,
        quote_tweet: None,
    }
}

fn page(ids: &[&str]) -> Vec<Json> {
    ids.iter()
        .map(|id| j(&format!(r#"{{"entryId": "tweet-{}", "content": {{}}}}"#, id)))
        .collect()
}

#[test]
fn display_order_is_newest_first_and_stable() {
    let tweets = vec![
        content("a", "first at 1000", Some(1000)),
        content("b", "no time", None),
        content("c", "at 3000", Some(3000)),
        content("d", "second at 1000", Some(1000)),
        content("e", "also no time", None),
    ];
    assert_eq!(display_order_of(&tweets), vec![2, 0, 3, 1, 4]);

    let mut generator = MarkdownGenerator::new(create_test_config());
    for t in tweets {
        generator.add_tweet(t);
    }
    let markdown = generator.render_markdown("2024-01-01 00:00:00");
    let pos = |s: &str| markdown.find(s).unwrap();
    assert!(pos("at 3000") < pos("first at 1000"));
    assert!(pos("first at 1000") < pos("second at 1000"));
    assert!(pos("second at 1000") < pos("no time"));
    assert!(pos("no time") < pos("also no time"));
    assert!(markdown.contains("推文总数: 5"));
}

#[test]
fn escaped_text_has_no_markup() {
    let mut out = String::new();
    push_escaped(&mut out, "<a href=\"x\">'&'</a>");
    assert_eq!(out, "&lt;a href=&quot;x&quot;&gt;&#x27;&amp;&#x27;&lt;/a&gt;");
    assert!(!out.contains('<') && !out.contains('>') && !out.contains('"') && !out.contains('\''));
}

#[test]
fn saved_id_is_read_back_from_the_record() {
    let mut record = String::from("111\n");
    record.push_str(&record_line("222"));
    assert_eq!(record, "111\n222\n");
    let ids = load_downloaded_ids(&record);
    assert_eq!(ids.len(), 2);
    assert!(ids.contains("111"));
    assert!(ids.contains("222"));
    // a blank id adds nothing
    record.push_str(&record_line("  "));
    assert_eq!(load_downloaded_ids(&record).len(), 2);
}

#[test]
fn recording_counts_each_tweet_once() {
    let mut downloader = Downloader::new(create_test_config(), "5\n");
    assert!(!downloader.is_downloaded("7"));
    downloader.save_downloaded_id("7");
    assert!(downloader.is_downloaded("7"));
    assert!(downloader.is_downloaded("5"));
    assert_eq!(downloader.downloaded_count(), 2);
    downloader.save_downloaded_id("7");
    assert_eq!(downloader.downloaded_count(), 2);
}

#[test]
fn safe_file_names_have_no_separators() {
    assert_eq!(sanitize_file_name("../a/b\\c..d e"), "_a_b_cde");
    assert_eq!(sanitize_file_name("photo.jpg"), "photo.jpg");
    let name = sanitize_file_name("..//..\\x?y=1&z");
    assert!(!name.contains('/') && !name.contains('\\'));
    assert_eq!(name, "___xy1z");
}

#[test]
fn pager_hands_out_each_tweet_once() {
    let mut config = create_test_config();
    config.all = true;
    let mut pager = TweetPager::new(&config);
    assert_eq!(pager.next_request(), Some(None));
    let first = page(&["1", "2", "2"]);
    let refs: Vec<&Json> = first.iter().collect();
    let kept = pager.accept_page(&refs, Some("c1".to_string()));
    assert_eq!(kept.len(), 2);
    assert!(!pager.finished);
    assert_eq!(pager.next_request(), Some(Some("c1".to_string())));
    let second = page(&["2", "3"]);
    let refs: Vec<&Json> = second.iter().collect();
    let kept = pager.accept_page(&refs, Some("c2".to_string()));
    assert_eq!(kept.len(), 1);
    assert_eq!(kept[0].get("entryId").and_then(|v| v.as_str()), Some("tweet-3"));
    let third = page(&["1", "3"]);
    let refs: Vec<&Json> = third.iter().collect();
    let kept = pager.accept_page(&refs, Some("c3".to_string()));
    // every tweet of the page was seen: reading stops
    assert!(kept.is_empty());
    assert!(pager.finished);
    assert_eq!(pager.next_request(), None);
}

#[test]
fn pager_respects_the_page_limit() {
    let mut config = create_test_config();
    config.all = true;
    config.max_pages = 2;
    let mut pager = TweetPager::new(&config);
    for (n, id) in ["1", "2"].iter().enumerate() {
        assert!(pager.next_request().is_some());
        let p = page(&[id]);
        let refs: Vec<&Json> = p.iter().collect();
        pager.accept_page(&refs, Some(format!("c{}", n)));
    }
    assert_eq!(pager.page_count, 2);
    assert_eq!(pager.next_request(), None);
    assert!(pager.finished);
}

#[test]
fn pager_stops_after_one_page_without_all() {
    let mut pager = TweetPager::new(&create_test_config());
    assert!(pager.next_request().is_some());
    let p = page(&["1"]);
    let refs: Vec<&Json> = p.iter().collect();
    assert_eq!(pager.accept_page(&refs, Some("c".to_string())).len(), 1);
    assert!(pager.finished);
}

#[test]
fn pager_stops_on_a_repeated_cursor() {
    let mut config = create_test_config();
    config.all = true;
    let mut pager = TweetPager::new(&config);
    pager.next_request();
    let p = page(&["1"]);
    let refs: Vec<&Json> = p.iter().collect();
    pager.accept_page(&refs, Some("same".to_string()));
    assert!(!pager.finished);
    pager.next_request();
    let p = page(&["2"]);
    let refs: Vec<&Json> = p.iter().collect();
    pager.accept_page(&refs, Some("same".to_string()));
    assert!(pager.finished);
}

#[test]
fn setup_tokens_are_read_back_by_the_settings() {
    let text = private_tokens_content("42", "b", "a", "c", "p", "Mozilla/5.0 (X)", "u", "t");
    let tokens = parse_private_tokens(&text);
    assert_eq!(tokens.len(), 8);
    assert_eq!(tokens.get("USER_ID"), Some(&"42".to_string()));
    assert_eq!(tokens.get("USER_AGENT"), Some(&"Mozilla/5.0 (X)".to_string()));
    assert_eq!(tokens.get("X_CLIENT_TRANSACTION_ID"), Some(&"t".to_string()));
    let config = Config::from_sources(&text, &vec![]);
    assert_eq!(config.user_id, "42");
    assert_eq!(config.ct0, "c");
}

#[test]
fn the_two_tweet_times_agree() {
    for text in [
        r#"{"legacy": {"created_at_ms": "1609459200123"}}"#,
        r#"{"legacy": {"created_at_ms": -1500}}"#,
        r#"{"legacy": {"created_at": "Thu Apr 06 15:24:15 +0000 2017"}}"#,
        r#"{"legacy": {}}"#,
    ] {
        let obj = j(text);
        let seconds = extract_tweet_timestamp_seconds(&obj);
        let instant = extract_tweet_timestamp_datetime(&obj);
        assert_eq!(seconds, instant);
    }
    let obj = j(r#"{"legacy": {"created_at_ms": "-1500"}}"#);
    assert_eq!(extract_tweet_timestamp_seconds(&obj), Some(-1));
    let obj = j(r#"{"legacy": {"created_at": "Thu Apr 06 15:24:15 +0000 2017"}}"#);
    assert_eq!(extract_tweet_timestamp_seconds(&obj), Some(1491492255));
}

#[test]
fn parsed_page_matches_the_api_answer() {
    let api = XApi::new(create_test_config());
    let data = j(r#"{"data": {"user": {"result": {"timeline": {"timeline": {"instructions": [
        {"type": "TimelinePinEntry", "entry": {"entryId": "tweet-9"}},
        {"type": "TimelineAddEntries", "entries": [
            {"entryId": "cursor-bottom-1", "content": {"value": "old"}},
            {"entryId": "tweet-1"},
            {"entryId": "profile-conversation-1", "content": {"items": [
                {"item": {"itemContent": {"tweet_results": {"result": {"rest_id": "2"}}}}},
                {"item": {}}
            ]}},
            {"entryId": "cursor-bottom-2", "content": {"value": "new"}}
        ]}
    ]}}}}}}"#);
    let (tweets, cursor) = api.parse_user_tweets_response(&data);
    assert_eq!(tweets.len(), 3);
    assert_eq!(tweets[0].get("entryId").and_then(|v| v.as_str()), Some("tweet-9"));
    assert_eq!(tweets[2].get("rest_id").and_then(|v| v.as_str()), Some("2"));
    assert_eq!(cursor, Some("new".to_string()));
}

#[test]
fn cookies_read_alike_when_reordered() {
    let a = parse_cookies("twid=u%3D7; auth_token=A; ct0=C; personalization_id=P").unwrap();
    let b = parse_cookies("lang=en; personalization_id=P;flag; ct0=C; auth_token=A; twid=u%3D7").unwrap();
    assert_eq!((a.twid, a.auth_token, a.ct0, a.personalization_id), (b.twid, b.auth_token, b.ct0, b.personalization_id));
    let e1 = parse_cookies("auth_token=A; twid=1").unwrap_err();
    let e2 = parse_cookies("x=1; twid=1; auth_token=A").unwrap_err();
    assert_eq!(e1, e2);
}

#[test]
fn markdown_link_names_the_downloaded_file() {
    let mut config = create_test_config();
    config.target_username = "".to_string();
    let downloader = Downloader::new(config.clone(), "");
    let tweet = j(r#"{"rest_id": "42", "core": {"user_results": {"result": {"legacy": {"screen_name": "sn"}}}},
        "legacy": {"extended_entities": {"media": [
            {"type": "photo", "media_url_https": "https://pbs.twimg.com/media/Abc-1_2.jpg"}
        ]}}}"#);
    let plan = downloader.plan_media(&tweet, "42").unwrap();
    let written = match &plan.steps[0] {
        x_tweets_backup::downloader::MediaStep::Fetch { file_name, .. } => file_name.clone(),
        other => panic!("unexpected step {:?}", other),
    };
    let generator = MarkdownGenerator::new(config);
    let content = MarkdownGenerator::extract_tweet_content(&tweet);
    let path = generator.generate_local_media_path(&content, 0, &content.media_urls[0]);
    assert_eq!(written, "[sn][42][Abc-1_2.jpg]");
    assert!(path.ends_with(&format!("/{}", written)));
}

#[test]
fn instant_is_absent_outside_chronos_range() {
    let obj = j(r#"{"legacy": {"created_at_ms": "9223372036854775807"}}"#);
    assert_eq!(extract_tweet_timestamp_seconds(&obj), Some(9223372036854775));
    assert_eq!(extract_tweet_timestamp_datetime(&obj), None);
    let edge = j(r#"{"legacy": {"created_at_ms": 8210266876799000}}"#);
    assert_eq!(extract_tweet_timestamp_datetime(&edge), Some(8210266876799));
    let past = j(r#"{"legacy": {"created_at_ms": 8210266876800000}}"#);
    assert_eq!(extract_tweet_timestamp_datetime(&past), None);
}

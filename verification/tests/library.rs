use x_tweets_backup::backup::{
    entry_tweet, is_own_tweet, media_result, resolve_target, tweet_action, BackupError, BackupTally,
    MediaResult, TweetAction,
};
use x_tweets_backup::config::Config;
use x_tweets_backup::downloader::{
    download_complete, media_outcome, temp_file_name, Downloader, MediaStep,
};
use x_tweets_backup::json::Json;
use x_tweets_backup::markdown_generator::{MarkdownGenerator, TweetContent};
use x_tweets_backup::setup::{setup_tokens, SetupArgs, SetupError};
use x_tweets_backup::text::IntError;
use x_tweets_backup::x_api::{extract_tweet_id, ApiError, XApi};

fn to_json(v: &serde_json::Value) -> Json {
    match v {
        serde_json::Value::Null => Json::Null,
        serde_json::Value::Bool(b) => Json::Bool(*b),
        serde_json::Value::Number(n) => {
            if let Some(u) = n.as_u64() {
                Json::PosInt(u)
            } else if let Some(i) = n.as_i64() {
                Json::NegInt(i)
            } else {
                Json::Float(n.to_string())
            }
        }
        serde_json::Value::String(s) => Json::Str(s.clone()),
        serde_json::Value::Array(a) => Json::Array(a.iter().map(to_json).collect()),
        serde_json::Value::Object(m) => {
            Json::Object(m.iter().map(|(k, v)| (k.clone(), to_json(v))).collect())
        }
    }
}

/// A JSON document written as text.
fn j(text: &str) -> Json {
    to_json(&serde_json::from_str::<serde_json::Value>(text).unwrap())
}

fn create_test_config() -> Config {
    Config {
        user_id: "".to_string(),
        bearer_token: "".to_string(),
        auth_token: "".to_string(),
        ct0: "".to_string(),
        personalization_id: "".to_string(),
        user_agent: "Mozilla/5.0".to_string(),
        x_client_uuid: "".to_string(),
        x_client_transaction_id: "".to_string(),
        count: "20".to_string(),
        all: false,
        download_dir: "data/downloads".to_string(),
        download_record: "data/downloaded_tweet_ids.txt".to_string(),
        file_format: "{USERNAME} {ID}".to_string(),
        target_user_id: "test_user".to_string(),
        target_username: "test_user".to_string(),
        only_self: false,
        save_markdown: true,
        markdown_output: "data/test_output.md".to_string(),
        debug_logs: false,
        user_by_screen_name_query_id: "6ND0OKRCgPajU_yJbcWSVw".to_string(),
        user_tweets_query_id: "V3vRrAJh5U6n9m1ZJ8xYQw".to_string(),
        max_pages: 50,
        download_timeout_secs: 30,
    }
}

#[test]
fn user_lookup_url_is_encoded() {
    let api = XApi::new(create_test_config());
    let url = api.user_lookup_url("@@testuser");
    assert!(url.starts_with(
        "https://x.com/i/api/graphql/6ND0OKRCgPajU_yJbcWSVw/UserByScreenName?variables=%7B%22screen_name%22%3A%22testuser%22%2C%22withGrokTranslatedBio%22%3Afalse%7D&features=%7B%22hidden_profile_subscriptions_enabled%22%3Atrue%2C"
    ));
    assert!(url.ends_with("&fieldToggles=%7B%22withAuxiliaryUserLabels%22%3Atrue%7D"));
}

#[test]
fn user_tweets_url_carries_count_cursor_and_user() {
    let mut config = create_test_config();
    config.target_user_id = "test_target".to_string();
    let api = XApi::new(config);
    let url = api.user_tweets_url(Some("abc\"def")).unwrap();
    assert!(url.starts_with(
        "https://x.com/i/api/graphql/V3vRrAJh5U6n9m1ZJ8xYQw/UserTweets?variables=%7B%22count%22%3A20%2C%22cursor%22%3A%22abc%5C%22def%22%2C%22includePromotedContent%22%3Atrue%2C%22userId%22%3A%22test_target%22%2C%22withQuickPromoteEligibilityTweetFields%22%3Atrue%2C%22withVoice%22%3Atrue%7D&features=%7B%22rweb_video_screen_enabled%22%3Afalse%2C"
    ));
    assert!(url.ends_with("&fieldToggles=%7B%22withArticlePlainText%22%3Afalse%7D"));

    let mut config = create_test_config();
    config.target_user_id = "".to_string();
    config.user_id = "me".to_string();
    config.count = "-5".to_string();
    let first = XApi::new(config).user_tweets_url(None).unwrap();
    assert!(first.contains("variables=%7B%22count%22%3A-5%2C%22includePromotedContent%22%3Atrue%2C%22userId%22%3A%22me%22"));
}

#[test]
fn user_tweets_url_rejects_a_bad_count() {
    let with_count = |count: &str| {
        let mut config = create_test_config();
        config.count = count.to_string();
        XApi::new(config).user_tweets_url(None)
    };
    assert_eq!(with_count("twenty"), Err(ApiError::InvalidCount(IntError::InvalidDigit)));
    assert_eq!(with_count(""), Err(ApiError::InvalidCount(IntError::Empty)));
    assert_eq!(with_count("-"), Err(ApiError::InvalidCount(IntError::InvalidDigit)));
    assert_eq!(with_count("2147483648"), Err(ApiError::InvalidCount(IntError::PosOverflow)));
    assert_eq!(with_count("-2147483649"), Err(ApiError::InvalidCount(IntError::NegOverflow)));
    // the first failure met from the left decides, as in `str::parse`
    assert_eq!(with_count("99999999999x"), Err(ApiError::InvalidCount(IntError::PosOverflow)));
    assert!(with_count("+2147483647").is_ok());
    assert!(with_count("-2147483648").is_ok());
    for text in ["twenty", "", "-", "2147483648", "-2147483649", "99999999999x", "1 "] {
        let std_message = text.parse::<i32>().unwrap_err().to_string();
        assert_eq!(with_count(text).unwrap_err().message(), std_message);
    }
}

#[test]
fn request_headers_carry_the_tokens() {
    let mut config = create_test_config();
    config.bearer_token = "B".to_string();
    config.auth_token = "A".to_string();
    config.ct0 = "C".to_string();
    let headers = XApi::new(config).request_headers();
    assert_eq!(
        headers,
        vec![
            ("Authorization".to_string(), "Bearer B".to_string()),
            ("Cookie".to_string(), "auth_token=A; ct0=C".to_string()),
            ("X-Csrf-Token".to_string(), "C".to_string()),
            ("User-Agent".to_string(), "Mozilla/5.0".to_string()),
        ]
    );
}

#[test]
fn user_id_answer_is_read_or_refused() {
    let ok = j(r#"{"data": {"user": {"result": {"rest_id": "4242"}}}}"#);
    assert_eq!(XApi::parse_user_id_response(&ok, "@someone"), Ok("4242".to_string()));
    let missing = j(r#"{"data": {"user": {}}}"#);
    let err = XApi::parse_user_id_response(&missing, "@someone").unwrap_err();
    assert_eq!(err, ApiError::UserNotFound("someone".to_string()));
    assert_eq!(err.message(), "无法找到用户: @someone");
}

#[test]
fn tweet_ids_are_found_on_each_path() {
    let a = j(r#"{"content": {"itemContent": {"tweet_results": {"result": {"rest_id": "1"}}}}, "entryId": "tweet-9"}"#);
    assert_eq!(extract_tweet_id(&a), Some("1".to_string()));
    let b = j(r#"{"entryId": "tweet-2"}"#);
    assert_eq!(extract_tweet_id(&b), Some("2".to_string()));
    let c = j(r#"{"entryId": "cursor-1", "rest_id": "3"}"#);
    assert_eq!(extract_tweet_id(&c), Some("3".to_string()));
    let d = j(r#"{"tweet": {"rest_id": "4"}}"#);
    assert_eq!(extract_tweet_id(&d), Some("4".to_string()));
    assert_eq!(extract_tweet_id(&j("{}")), None);
}

#[test]
fn backup_target_comes_from_the_command_line_first() {
    assert_eq!(resolve_target(Some("alice"), "bob"), Ok("alice".to_string()));
    assert_eq!(resolve_target(None, "bob"), Ok("bob".to_string()));
    assert_eq!(resolve_target(None, ""), Err(BackupError::NoTarget));
    assert_eq!(resolve_target(Some(""), "bob"), Err(BackupError::NoTarget));
    assert!(BackupError::NoTarget.message().starts_with("请指定目标用户名"));
}

#[test]
fn entries_are_filtered_and_classified() {
    let entry = j(r#"{"content": {"itemContent": {"tweet_results": {"result": {"rest_id": "10", "core": {"user_results": {"result": {"rest_id": "u1"}}}, "legacy": {}}}}}}"#);
    let data = entry_tweet(&entry);
    assert_eq!(data.get("rest_id").and_then(|v| v.as_str()), Some("10"));
    assert!(is_own_tweet(data, "u1"));
    assert!(!is_own_tweet(data, "u2"));
    let retweet = j(r#"{"rest_id": "11", "core": {"user_results": {"result": {"legacy": {"id_str": "u1"}}}}, "legacy": {"retweeted_status_id_str": "5"}}"#);
    assert!(!is_own_tweet(&retweet, "u1"));
    let wrapped = j(r#"{"tweet": {"rest_id": "12", "core": {"user_results": {"result": {"legacy": {"id_str": "u1"}}}}}}"#);
    assert!(is_own_tweet(&wrapped, "u1"));

    let mut config = create_test_config();
    config.target_user_id = "u1".to_string();
    let downloader = Downloader::new(config.clone(), "10\n");
    assert_eq!(tweet_action(&config, &downloader, data), TweetAction::ContentOnly { id: "10".to_string() });
    assert_eq!(tweet_action(&config, &downloader, &wrapped), TweetAction::Process { id: "12".to_string() });
    assert_eq!(tweet_action(&config, &downloader, &j("{}")), TweetAction::Skip);
    config.only_self = true;
    assert_eq!(tweet_action(&config, &downloader, &retweet), TweetAction::Skip);
    assert_eq!(tweet_action(&config, &downloader, &wrapped), TweetAction::Process { id: "12".to_string() });
}

#[test]
fn media_results_are_tallied() {
    assert_eq!(media_result(false, true, 3), MediaResult::NoMedia);
    assert_eq!(media_result(true, true, 3), MediaResult::Errored);
    assert_eq!(media_result(true, false, 0), MediaResult::Failed);
    assert_eq!(media_result(true, false, 2), MediaResult::Downloaded);
    let mut tally = BackupTally::new();
    assert!(tally.record_media(MediaResult::Downloaded));
    assert!(!tally.record_media(MediaResult::Failed));
    assert!(!tally.record_media(MediaResult::NoMedia));
    assert!(!tally.record_media(MediaResult::Errored));
    tally.record_saved();
    assert_eq!(tally, BackupTally { processed: 3, succeeded: 1, failed: 1, saved: 1 });
    let lines = tally.summary_lines(7);
    assert_eq!(
        lines,
        vec![
            "\n=== 处理总结 ===".to_string(),
            "总tweet数量: 7".to_string(),
            "已处理数量: 3".to_string(),
            "下载成功数量: 1".to_string(),
            "下载失败数量: 1".to_string(),
            "内容保存数量: 1".to_string(),
            "全部处理完成.".to_string(),
        ]
    );
}

#[test]
fn media_plan_names_and_checks_each_url() {
    let mut config = create_test_config();
    config.target_username = "fallback".to_string();
    let downloader = Downloader::new(config, "");
    let tweet = j(r#"{"legacy": {"created_at_ms": "1609459200000", "extended_entities": {"media": [
        {"type": "photo", "media_url_https": "https://pbs.twimg.com/media/a..b.jpg?x=1"},
        {"type": "photo", "media_url_https": "https://evil.com/x.jpg"},
        {"type": "photo", "media_url_https": "data:text/plain,hi"},
        {"type": "photo", "media_url_https": "not a url"},
        {"type": "photo", "media_url_https": "https://video.twimg.com/after.mp4"}
    ]}}}"#);
    let plan = downloader.plan_media(&tweet, "77").unwrap();
    assert_eq!(plan.timestamp, Some(1609459200));
    assert_eq!(plan.username, Some("fallback".to_string()));
    assert_eq!(plan.steps.len(), 4);
    match &plan.steps[0] {
        MediaStep::Fetch { url, file_name } => {
            assert_eq!(url, "https://pbs.twimg.com/media/a..b.jpg?x=1");
            assert_eq!(file_name, "[fallback][77][ab.jpg]");
        }
        other => panic!("unexpected step {:?}", other),
    }
    assert!(matches!(&plan.steps[1], MediaStep::ForeignHost { .. }));
    assert!(matches!(&plan.steps[2], MediaStep::NoHost { .. }));
    assert!(matches!(&plan.steps[3], MediaStep::Invalid { .. }));
    assert!(downloader.plan_media(&j(r#"{"legacy": {}}"#), "1").is_none());
}

#[test]
fn download_checks() {
    assert!(download_complete(Some(10), 10, Some(10)));
    assert!(download_complete(None, 10, None));
    assert!(!download_complete(Some(11), 10, Some(10)));
    assert!(!download_complete(Some(10), 10, Some(9)));
    assert!(media_outcome(1));
    assert!(!media_outcome(0));
    assert_eq!(temp_file_name("[u][1][a.jpg]"), "[u][1][a.jpg].tmp");
}

#[test]
fn setup_tokens_from_a_curl_command() {
    let command = "curl 'https://x.com/i/api/graphql/test' \\\n  -H 'Authorization: Bearer tok' \\\n  -H 'user-agent: UA/1' \\\n  -b 'twid=u%3D99; auth_token=A; ct0=C; personalization_id=P'\n";
    let text = setup_tokens(command).unwrap();
    assert_eq!(
        text,
        "USER_ID=99\nBEARER_TOKEN=tok\nAUTH_TOKEN=A\nCT0=C\nPERSONALIZATION_ID=P\nUSER_AGENT=UA/1\nX_CLIENT_UUID=\nX_CLIENT_TRANSACTION_ID=\n"
    );
    assert_eq!(setup_tokens("curl 'x' -H 'Authorization: Bearer t'"), Err(SetupError::CookieNotFound));
    assert_eq!(setup_tokens("curl 'x' -b 'a=b'"), Err(SetupError::BearerNotFound));
    assert_eq!(
        setup_tokens("curl 'x' -H 'Authorization: Bearer t' -b 'auth_token=a; ct0=c; personalization_id=p'"),
        Err(SetupError::MissingCookie("twid".to_string()))
    );
    assert_eq!(
        setup_tokens("curl 'x' -H 'Authorization: Bearer t' -b 'twid=1; auth_token=a; personalization_id=p'"),
        Err(SetupError::MissingCookie("ct0".to_string()))
    );
    assert_eq!(SetupError::MissingCookie("ct0".to_string()).message(), "Cookie中缺少必需的字段: ct0");
    assert_eq!(SetupArgs::with_default_file().curl_file, "curl_command.txt");
}

#[test]
fn single_tweet_markdown_is_exact() {
    let mut config = create_test_config();
    config.download_dir = "data/downloads".to_string();
    config.markdown_output = "data/tweets_backup.md".to_string();
    let generator = MarkdownGenerator::new(config);
    let tweet = TweetContent {
        id: "5".to_string(),
        text: "hello".to_string(),
        created_at: Some(1609459200),
        username: Some("u".to_string()),
        display_name: Some("U".to_string()),
        media_urls: vec!["https://pbs.twimg.com/media/p.jpg?name=large".to_string()],
        is_retweet: false,
        retweeted_by: None,
        reply_to: Some("r".to_string()),
        quote_tweet: None,
    };
    let path = generator.generate_local_media_path(&tweet, 0, &tweet.media_urls[0]);
    assert_eq!(path, "./downloads/[u][5][p.jpg]");
    let text = generator.format_single_tweet(&tweet, 3);
    assert!(text.starts_with("## 推文 #3\n\n**发布时间**: 2021-01-01 00:00:00 UTC\n\n**用户名**: @u\n\n**显示名**: U\n\n**推文内容**:\n\nhello\n\n*💬 回复 @r*\n\n"));
    assert!(text.contains("<img src=\"./downloads/[u][5][p.jpg]\""));
}

#[test]
fn content_is_read_from_a_timeline_entry() {
    let data = j(r#"{"content": {"itemContent": {"tweet_results": {"result": {"tweet": {
        "rest_id": "8",
        "core": {"user_results": {"result": {"legacy": {"screen_name": "sn", "name": "Name"}}}},
        "legacy": {"full_text": "body", "retweeted": true, "quoted_status_id": "3", "created_at_ms": 5000}
    }}}}}}"#);
    let c = MarkdownGenerator::extract_tweet_content(&data);
    assert_eq!(c.id, "8");
    assert_eq!(c.text, "body");
    assert_eq!(c.created_at, Some(5));
    assert_eq!(c.username, Some("sn".to_string()));
    assert_eq!(c.display_name, Some("Name".to_string()));
    assert!(c.is_retweet);
    assert_eq!(c.retweeted_by, None);
    assert_eq!(c.quote_tweet, Some("3".to_string()));
    assert_eq!(c.reply_to, None);
    let bare = MarkdownGenerator::extract_tweet_content(&j("{}"));
    assert_eq!(bare.id, "unknown");
    assert_eq!(bare.text, "");
}

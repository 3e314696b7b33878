use x_tweets_backup::json::Json;
use x_tweets_backup::updater::{
    parse_latest_version, update_status, UpdateError, UpdateStatus, CURRENT_VERSION,
};

#[test]
fn test_updater_version_comparison_logic() {
    // 测试版本比较逻辑（不涉及网络请求）
    let current = "1.0.0";
    let latest = "1.0.0";
    assert_eq!(current == latest, true);
    assert!(matches!(update_status(latest, current), UpdateStatus::UpToDate { .. }));

    let latest_new = "1.0.1";
    assert_eq!(current == latest_new, false);
    assert!(matches!(update_status(latest_new, current), UpdateStatus::Available { .. }));
}

#[test]
fn test_updater_version_string_format() {
    // 测试版本字符串格式
    let version = CURRENT_VERSION;
    // 版本号应该是有效的字符串
    assert!(!version.is_empty());
    // 应该包含至少一个点
    assert!(version.contains('.') || version == "0.0.0" || version.parse::<f64>().is_ok());
}

#[test]
fn latest_version_is_the_tag_name() {
    let data = Json::Object(vec![("tag_name".to_string(), Json::Str("v1.2.3".to_string()))]);
    assert_eq!(parse_latest_version(true, &data), Ok("v1.2.3".to_string()));
    assert_eq!(parse_latest_version(false, &data), Err(UpdateError::Unavailable));
    let no_tag = Json::Object(vec![("name".to_string(), Json::Str("x".to_string()))]);
    assert_eq!(parse_latest_version(true, &no_tag), Err(UpdateError::Unreadable));
    let numeric = Json::Object(vec![("tag_name".to_string(), Json::PosInt(3))]);
    assert_eq!(parse_latest_version(true, &numeric), Err(UpdateError::Unreadable));
    assert_eq!(UpdateError::Unavailable.message(), "无法获取版本信息");
    assert_eq!(UpdateError::Unreadable.message(), "无法解析版本信息");
}

#[test]
fn update_status_lines() {
    let same = update_status("0.1.0", "0.1.0");
    assert_eq!(same, UpdateStatus::UpToDate { current: "0.1.0".to_string() });
    assert_eq!(same.lines(), vec!["当前已是最新版本: 0.1.0".to_string()]);
    let newer = update_status("0.2.0", "0.1.0");
    assert_eq!(
        newer.lines(),
        vec![
            "发现新版本: 0.2.0 (当前版本: 0.1.0)".to_string(),
            "请访问项目页面获取最新版本: https://github.com/HerbertGao/x_tweets_backup".to_string(),
        ]
    );
}

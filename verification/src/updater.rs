//! Checking for a newer release.
use vstd::prelude::*;

use crate::json::{str_at, text_of, Json};
use crate::text::{owned, push_str, same_text};

verus! {

/// The version of this release.
pub const CURRENT_VERSION: &'static str = "0.1.0";

/// Where the latest release is described.
pub const LATEST_RELEASE_URL: &'static str =
    "https://api.github.com/repos/HerbertGao/x_tweets_backup/releases/latest";

/// The user agent the release check sends.
pub const UPDATE_USER_AGENT: &'static str = "x_tweets_backup";

/// Why the latest version is not known.
#[derive(Debug, PartialEq, Eq)]
pub enum UpdateError {
    /// The release service did not answer with success.
    Unavailable,
    /// Its answer names no version.
    Unreadable,
}

impl UpdateError {
    /// The message shown for this error.
    pub fn message(&self) -> (r: String)
        ensures
            r@ == match self {
                UpdateError::Unavailable => "无法获取版本信息"@,
                UpdateError::Unreadable => "无法解析版本信息"@,
            },
    {
        match self {
            UpdateError::Unavailable => owned("无法获取版本信息"),
            UpdateError::Unreadable => owned("无法解析版本信息"),
        }
    }
}

/// The latest version a release answer names: its `tag_name`.
pub fn parse_latest_version(answered: bool, data: &Json) -> (r: Result<String, UpdateError>)
    ensures
        !answered ==> r == Err::<String, UpdateError>(UpdateError::Unavailable),
        answered ==> match text_of(data.field("tag_name"@)) {
            Some(v) => r matches Ok(s) && s@ == v,
            None => r == Err::<String, UpdateError>(UpdateError::Unreadable),
        },
{
    if !answered {
        return Err(UpdateError::Unavailable);
    }
    match str_at(data.get("tag_name")) {
        Some(v) => Ok(owned(v)),
        None => Err(UpdateError::Unreadable),
    }
}

/// What the release check reports.
#[derive(Debug, PartialEq, Eq)]
pub enum UpdateStatus {
    /// This release is the latest.
    UpToDate { current: String },
    /// Another release is the latest.
    Available { latest: String, current: String },
}

impl UpdateStatus {
    /// The lines shown for this status.
    pub fn lines(&self) -> (r: Vec<String>)
        ensures
            match self {
                UpdateStatus::UpToDate { current } => r@.len() == 1 && r@[0]@ == "当前已是最新版本: "@
                    + current@,
                UpdateStatus::Available { latest, current } => r@.len() == 2 && r@[0]@
                    == "发现新版本: "@ + latest@ + " (当前版本: "@ + current@ + ")"@ && r@[1]@
                    == "请访问项目页面获取最新版本: https://github.com/HerbertGao/x_tweets_backup"@,
            },
    {
        let mut out: Vec<String> = Vec::new();
        match self {
            UpdateStatus::UpToDate { current } => {
                let mut l = owned("当前已是最新版本: ");
                push_str(&mut l, current.as_str());
                out.push(l);
            },
            UpdateStatus::Available { latest, current } => {
                let mut l = owned("发现新版本: ");
                push_str(&mut l, latest.as_str());
                push_str(&mut l, " (当前版本: ");
                push_str(&mut l, current.as_str());
                push_str(&mut l, ")");
                out.push(l);
                out.push(owned("请访问项目页面获取最新版本: https://github.com/HerbertGao/x_tweets_backup"));
            },
        }
        out
    }
}

/// Compares the latest version with this one: up to date exactly when the
/// two are the same text.
pub fn update_status(latest: &str, current: &str) -> (r: UpdateStatus)
    ensures
        latest@ == current@ ==> (r matches UpdateStatus::UpToDate { current: c } && c@
            == current@),
        latest@ != current@ ==> (r matches UpdateStatus::Available { latest: l, current: c } && l@
            == latest@ && c@ == current@),
{
    if same_text(latest, current) {
        UpdateStatus::UpToDate { current: owned(current) }
    } else {
        UpdateStatus::Available { latest: owned(latest), current: owned(current) }
    }
}

} // verus!

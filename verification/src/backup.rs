//! The decisions of a backup run: whose tweets, which timeline entries are
//! processed and how, and the tally of what happened.
use vstd::prelude::*;

use crate::config::Config;
use crate::downloader::{media_outcome, Downloader};
use crate::json::{at, get_at, own, str_at, text_of, Json};
use crate::text::{decimal, owned, push_decimal, same_text};

verus! {

/// Why a backup cannot start.
#[derive(Debug, PartialEq, Eq)]
pub enum BackupError {
    /// No target user is named, on the command line or in the settings.
    NoTarget,
}

impl BackupError {
    /// The message shown for this error.
    pub fn message(&self) -> (r: String)
        ensures
            r@ == "请指定目标用户名。使用方法：\n1. 通过命令行参数：./x_tweets_backup backup <username>\n2. 通过环境变量：TARGET_USER_ID=<username>\n3. 通过配置文件：在.env文件中设置TARGET_USER_ID"@,
    {
        match self {
            BackupError::NoTarget => owned(
                "请指定目标用户名。使用方法：\n1. 通过命令行参数：./x_tweets_backup backup <username>\n2. 通过环境变量：TARGET_USER_ID=<username>\n3. 通过配置文件：在.env文件中设置TARGET_USER_ID",
            ),
        }
    }
}

/// The user to back up: the one named on the command line, else the
/// configured target; an error when that is empty.
pub fn resolve_target(cli_username: Option<&str>, configured: &str) -> (r: Result<String, BackupError>)
    ensures
        ({
            let t = match cli_username {
                Some(u) => u@,
                None => configured@,
            };
            &&& t.len() == 0 ==> r == Err::<String, BackupError>(BackupError::NoTarget)
            &&& t.len() > 0 ==> (r matches Ok(s) && s@ == t)
        }),
{
    let t = match cli_username {
        Some(u) => u,
        None => configured,
    };
    if t.is_empty() {
        Err(BackupError::NoTarget)
    } else {
        Ok(owned(t))
    }
}

/// The tweet data of a timeline entry:
/// `content.itemContent.tweet_results.result`, else the entry itself.
pub open spec fn entry_tweet_data(entry: Json) -> Json {
    match at(at(at(entry.field("content"@), "itemContent"@), "tweet_results"@), "result"@) {
        Some(r) => r,
        None => entry,
    }
}

/// Finds the tweet data of a timeline entry.
pub fn entry_tweet(entry: &Json) -> (r: &Json)
    ensures
        *r == entry_tweet_data(*entry),
{
    match get_at(get_at(get_at(entry.get("content"), "itemContent"), "tweet_results"), "result") {
        Some(r) => r,
        None => entry,
    }
}

/// The tweet object of tweet data: its `tweet` member, else the data itself.
pub open spec fn data_object(data: Json) -> Json {
    match data.field("tweet"@) {
        Some(t) => t,
        None => data,
    }
}

/// The author's id: `core.user_results.result.rest_id`, else
/// `core.user_results.result.legacy.id_str`.
pub open spec fn author_id(obj: Json) -> Option<Seq<char>> {
    let user = at(at(obj.field("core"@), "user_results"@), "result"@);
    match text_of(at(user, "rest_id"@)) {
        Some(id) => Some(id),
        None => text_of(at(at(user, "legacy"@), "id_str"@)),
    }
}

/// Whether the tweet is a retweet: its `legacy` has `retweeted_status_result`
/// or `retweeted_status_id_str`.
pub open spec fn retweet_activity(obj: Json) -> bool {
    at(obj.field("legacy"@), "retweeted_status_result"@) is Some || at(
        obj.field("legacy"@),
        "retweeted_status_id_str"@,
    ) is Some
}

/// Whether tweet data is the target user's own tweet: written by
/// `target_id` and not a retweet.
pub open spec fn own_tweet(data: Json, target_id: Seq<char>) -> bool {
    author_id(data_object(data)) == Some(target_id) && !retweet_activity(data_object(data))
}

/// The id a backup files tweet data under: `rest_id`, else `tweet.rest_id`.
pub open spec fn backup_id(data: Json) -> Option<Seq<char>> {
    match text_of(data.field("rest_id"@)) {
        Some(id) => Some(id),
        None => text_of(at(data.field("tweet"@), "rest_id"@)),
    }
}

/// Whether tweet data is the target user's own tweet.
pub fn is_own_tweet(data: &Json, target_id: &str) -> (r: bool)
    ensures
        r == own_tweet(*data, target_id@),
{
    let obj = match data.get("tweet") {
        Some(t) => t,
        None => data,
    };
    let user = get_at(get_at(obj.get("core"), "user_results"), "result");
    let author = match str_at(get_at(user, "rest_id")) {
        Some(id) => Some(id),
        None => str_at(get_at(get_at(user, "legacy"), "id_str")),
    };
    let legacy = obj.get("legacy");
    let retweet = get_at(legacy, "retweeted_status_result").is_some() || get_at(
        legacy,
        "retweeted_status_id_str",
    ).is_some();
    match author {
        Some(a) => same_text(a, target_id) && !retweet,
        None => false,
    }
}

/// What to do with one timeline entry.
#[derive(Debug, PartialEq, Eq)]
pub enum TweetAction {
    /// Leave it: another user's tweet (when only the user's own are kept),
    /// or one without an id.
    Skip,
    /// Its media are recorded as done: only its content is saved.
    ContentOnly { id: String },
    /// Download its media and save its content.
    Process { id: String },
}

/// Decides what to do with a timeline entry's tweet data.
pub fn tweet_action(config: &Config, downloader: &Downloader, data: &Json) -> (r: TweetAction)
    ensures
        (config.only_self && !own_tweet(*data, config.target_user_id@)) ==> r == TweetAction::Skip,
        !(config.only_self && !own_tweet(*data, config.target_user_id@)) ==> match backup_id(
            *data,
        ) {
            None => r == TweetAction::Skip,
            Some(id) => if downloader.recorded().contains(id) {
                r matches TweetAction::ContentOnly { id: i } && i@ == id
            } else {
                r matches TweetAction::Process { id: i } && i@ == id
            },
        },
{
    if config.only_self && !is_own_tweet(data, config.target_user_id.as_str()) {
        return TweetAction::Skip;
    }
    let id = match str_at(data.get("rest_id")) {
        Some(id) => id,
        None => match str_at(get_at(data.get("tweet"), "rest_id")) {
            Some(id) => id,
            None => {
                return TweetAction::Skip;
            },
        },
    };
    if downloader.is_downloaded(id) {
        TweetAction::ContentOnly { id: owned(id) }
    } else {
        TweetAction::Process { id: owned(id) }
    }
}

/// How a tweet's media step ended.
#[derive(Debug, PartialEq, Eq, Clone, Copy)]
pub enum MediaResult {
    /// At least one of its files is present.
    Downloaded,
    /// It has media, but none of its files could be had.
    Failed,
    /// It has no media.
    NoMedia,
    /// The step stopped on an error (a URL that does not parse, a file that
    /// cannot be written).
    Errored,
}

/// How a tweet's media step ended: no media, an error, or whether any of its
/// `present` files is there.
pub fn media_result(has_media: bool, errored: bool, present: usize) -> (r: MediaResult)
    ensures
        !has_media ==> r == MediaResult::NoMedia,
        has_media && errored ==> r == MediaResult::Errored,
        has_media && !errored ==> r == (if present > 0 {
            MediaResult::Downloaded
        } else {
            MediaResult::Failed
        }),
{
    if !has_media {
        MediaResult::NoMedia
    } else if errored {
        MediaResult::Errored
    } else if media_outcome(present) {
        MediaResult::Downloaded
    } else {
        MediaResult::Failed
    }
}

/// The counts a backup run reports.
#[derive(Debug, PartialEq, Eq, Clone, Copy)]
pub struct BackupTally {
    /// Tweets whose media step ended without error.
    pub processed: u64,
    /// Tweets whose media were downloaded.
    pub succeeded: u64,
    /// Tweets whose media could not be had.
    pub failed: u64,
    /// Tweets whose content was saved.
    pub saved: u64,
}

impl BackupTally {
    /// All counts zero.
    pub fn new() -> (r: BackupTally)
        ensures
            r == (BackupTally { processed: 0, succeeded: 0, failed: 0, saved: 0 }),
    {
        BackupTally { processed: 0, succeeded: 0, failed: 0, saved: 0 }
    }

    /// Counts a tweet's media step; says whether its id is to be recorded as
    /// done (exactly when its media were downloaded).
    pub fn record_media(&mut self, result: MediaResult) -> (record: bool)
        requires
            old(self).processed < u64::MAX,
            old(self).succeeded < u64::MAX,
            old(self).failed < u64::MAX,
        ensures
            record == (result == MediaResult::Downloaded),
            final(self).saved == old(self).saved,
            final(self).processed == old(self).processed + if result == MediaResult::Errored {
                0int
            } else {
                1int
            },
            final(self).succeeded == old(self).succeeded + if result == MediaResult::Downloaded {
                1int
            } else {
                0int
            },
            final(self).failed == old(self).failed + if result == MediaResult::Failed {
                1int
            } else {
                0int
            },
    {
        match result {
            MediaResult::Downloaded => {
                self.processed = self.processed + 1;
                self.succeeded = self.succeeded + 1;
                true
            },
            MediaResult::Failed => {
                self.processed = self.processed + 1;
                self.failed = self.failed + 1;
                false
            },
            MediaResult::NoMedia => {
                self.processed = self.processed + 1;
                false
            },
            MediaResult::Errored => false,
        }
    }

    /// Counts a tweet whose content was saved.
    pub fn record_saved(&mut self)
        requires
            old(self).saved < u64::MAX,
        ensures
            *final(self) == (BackupTally { saved: (old(self).saved + 1) as u64, ..*old(self) }),
    {
        self.saved = self.saved + 1;
    }

    /// The summary printed at the end of a run over `total` tweets.
    pub fn summary_lines(&self, total: u64) -> (r: Vec<String>)
        ensures
            r@.len() == 7,
            r@[0]@ == "\n=== 处理总结 ==="@,
            r@[1]@ == "总tweet数量: "@ + decimal(total as nat),
            r@[2]@ == "已处理数量: "@ + decimal(self.processed as nat),
            r@[3]@ == "下载成功数量: "@ + decimal(self.succeeded as nat),
            r@[4]@ == "下载失败数量: "@ + decimal(self.failed as nat),
            r@[5]@ == "内容保存数量: "@ + decimal(self.saved as nat),
            r@[6]@ == "全部处理完成."@,
    {
        let mut out: Vec<String> = Vec::new();
        out.push(owned("\n=== 处理总结 ==="));
        let mut l = owned("总tweet数量: ");
        push_decimal(&mut l, total);
        out.push(l);
        let mut l = owned("已处理数量: ");
        push_decimal(&mut l, self.processed);
        out.push(l);
        let mut l = owned("下载成功数量: ");
        push_decimal(&mut l, self.succeeded);
        out.push(l);
        let mut l = owned("下载失败数量: ");
        push_decimal(&mut l, self.failed);
        out.push(l);
        let mut l = owned("内容保存数量: ");
        push_decimal(&mut l, self.saved);
        out.push(l);
        out.push(owned("全部处理完成."));
        out
    }
}

} // verus!

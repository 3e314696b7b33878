//! The X (Twitter) GraphQL API: the requests the backup makes and what it
//! reads out of the answers.
use vstd::prelude::*;
use vstd::hash_set::StringHashSet;

use crate::config::Config;
use crate::json::{at, get_at, items_of, own, str_at, str_view, text_of, Json};
use crate::text::{
    decimal, int_parse, owned, parse_i32, push_char, push_decimal, push_str, same_text,
    starts_with, starts_with_str, strip_leading, strip_leading_str, strip_prefix_str, IntError,
};
use crate::tweet_parser::opt_view;

verus! {

/// The values behind a list of references.
pub open spec fn derefs(v: Seq<&Json>) -> Seq<Json> {
    v.map_values(|r: &Json| *r)
}

/// The tweet result inside one item of a conversation module:
/// `item.itemContent.tweet_results.result`.
pub open spec fn item_result(item: Json) -> Option<Json> {
    at(at(at(item.field("item"@), "itemContent"@), "tweet_results"@), "result"@)
}

/// The tweet results of the items that have one, in order.
pub open spec fn results_of(items: Seq<Json>) -> Seq<Json>
    decreases items.len(),
{
    if items.len() == 0 {
        Seq::empty()
    } else {
        let prev = results_of(items.drop_last());
        match item_result(items.last()) {
            Some(r) => prev.push(r),
            None => prev,
        }
    }
}

/// The tweets of a conversation module entry (`content.items`).
pub open spec fn conversation_tweets(entry: Json) -> Seq<Json> {
    match items_of(at(entry.field("content"@), "items"@)) {
        Some(items) => results_of(items),
        None => Seq::empty(),
    }
}

/// What a timeline page gives: its tweets, and the cursor of the next page.
pub struct PageScan {
    pub tweets: Seq<Json>,
    pub cursor: Option<Seq<char>>,
}

/// The scan state that a list of tweets and a cursor stand for.
pub open spec fn scan_state(tweets: Seq<&Json>, cursor: Option<String>) -> PageScan {
    PageScan { tweets: derefs(tweets), cursor: opt_view(cursor) }
}

/// Reads one timeline entry: a conversation module adds its tweets, a tweet
/// entry adds itself, a bottom cursor entry sets the cursor (to its
/// `content.value`); other entries are skipped.
pub open spec fn entry_step(acc: PageScan, entry: Json) -> PageScan {
    match text_of(entry.field("entryId"@)) {
        Some(id) => if starts_with(id, "profile-conversation-"@) {
            PageScan { tweets: acc.tweets + conversation_tweets(entry), cursor: acc.cursor }
        } else if starts_with(id, "tweet-"@) {
            PageScan { tweets: acc.tweets.push(entry), cursor: acc.cursor }
        } else if starts_with(id, "cursor-bottom-"@) {
            PageScan { tweets: acc.tweets, cursor: text_of(at(entry.field("content"@), "value"@)) }
        } else {
            acc
        },
        None => acc,
    }
}

/// Reads timeline entries in order.
pub open spec fn entries_scan(acc: PageScan, entries: Seq<Json>) -> PageScan
    decreases entries.len(),
{
    if entries.len() == 0 {
        acc
    } else {
        entry_step(entries_scan(acc, entries.drop_last()), entries.last())
    }
}

/// Reads one timeline instruction: `TimelineAddEntries` reads its entries,
/// `TimelinePinEntry` adds its entry when that is a tweet; other
/// instructions are skipped.
pub open spec fn instruction_step(acc: PageScan, ins: Json) -> PageScan {
    let kind = text_of(ins.field("type"@));
    if kind == Some("TimelineAddEntries"@) {
        match items_of(ins.field("entries"@)) {
            Some(es) => entries_scan(acc, es),
            None => acc,
        }
    } else if kind == Some("TimelinePinEntry"@) {
        match ins.field("entry"@) {
            Some(e) => match text_of(e.field("entryId"@)) {
                Some(id) => if starts_with(id, "tweet-"@) {
                    PageScan { tweets: acc.tweets.push(e), cursor: acc.cursor }
                } else {
                    acc
                },
                None => acc,
            },
            None => acc,
        }
    } else {
        acc
    }
}

/// Reads timeline instructions in order.
pub open spec fn instructions_scan(acc: PageScan, inss: Seq<Json>) -> PageScan
    decreases inss.len(),
{
    if inss.len() == 0 {
        acc
    } else {
        instruction_step(instructions_scan(acc, inss.drop_last()), inss.last())
    }
}

/// What a `UserTweets` answer gives: the instructions under
/// `data.user.result.timeline.timeline.instructions`, read in order.
pub open spec fn timeline_page(data: Json) -> PageScan {
    let empty = PageScan { tweets: Seq::empty(), cursor: None };
    match items_of(
        at(
            at(at(at(at(data.field("data"@), "user"@), "result"@), "timeline"@), "timeline"@),
            "instructions"@,
        ),
    ) {
        Some(l) => instructions_scan(empty, l),
        None => empty,
    }
}

/// The id of a timeline tweet: `content.itemContent.tweet_results.result.rest_id`,
/// else the `entryId` after `tweet-`, else `rest_id`, else `tweet.rest_id`.
pub open spec fn tweet_entry_id(t: Json) -> Option<Seq<char>> {
    match text_of(
        at(at(at(at(t.field("content"@), "itemContent"@), "tweet_results"@), "result"@), "rest_id"@),
    ) {
        Some(id) => Some(id),
        None => match text_of(t.field("entryId"@)) {
            Some(e) if starts_with(e, "tweet-"@) => Some(e.skip("tweet-"@.len() as int)),
            _ => match text_of(t.field("rest_id"@)) {
                Some(id) => Some(id),
                None => text_of(at(t.field("tweet"@), "rest_id"@)),
            },
        },
    }
}

/// The id of a timeline tweet.
pub fn extract_tweet_id(tweet: &Json) -> (r: Option<String>)
    ensures
        opt_view(r) == tweet_entry_id(*tweet),
{
    match str_at(
        get_at(
            get_at(get_at(get_at(tweet.get("content"), "itemContent"), "tweet_results"), "result"),
            "rest_id",
        ),
    ) {
        Some(id) => {
            return Some(owned(id));
        },
        None => {},
    }
    match str_at(tweet.get("entryId")) {
        Some(e) => match strip_prefix_str(e, "tweet-") {
            Some(id) => {
                return Some(id);
            },
            None => {},
        },
        None => {},
    }
    match str_at(tweet.get("rest_id")) {
        Some(id) => Some(owned(id)),
        None => match str_at(get_at(tweet.get("tweet"), "rest_id")) {
            Some(id) => Some(owned(id)),
            None => None,
        },
    }
}

/// A user name without its leading `@`s.
pub fn clean_username(username: &str) -> (r: String)
    ensures
        r@ == strip_leading(username@, '@'),
{
    strip_leading_str(username, '@')
}

/// Why a request could not be made or its answer read.
#[derive(Debug, PartialEq, Eq)]
pub enum ApiError {
    /// The configured count is not a 32-bit integer; why, as `str::parse`
    /// says it.
    InvalidCount(IntError),
    /// The user lookup's answer names no user.
    UserNotFound(String),
    /// The user lookup was answered with a failure status (shown as the
    /// HTTP client shows it); the answer's text is kept when debugging.
    LookupFailed { username: String, status: String, detail: Option<String> },
    /// A timeline request was answered with a failure status; the answer's
    /// text is kept when debugging.
    RequestFailed { status: String, detail: Option<String> },
}

/// The text ` - detail` when there is a detail.
pub open spec fn detail_suffix(detail: Option<String>) -> Seq<char> {
    match detail {
        Some(d) => " - "@ + d@,
        None => Seq::empty(),
    }
}

impl ApiError {
    /// The message shown for this error.
    pub fn message(&self) -> (r: String)
        ensures
            r@ == match self {
                ApiError::InvalidCount(e) => match e {
                    IntError::Empty => "cannot parse integer from empty string"@,
                    IntError::InvalidDigit => "invalid digit found in string"@,
                    IntError::PosOverflow => "number too large to fit in target type"@,
                    IntError::NegOverflow => "number too small to fit in target type"@,
                },
                ApiError::UserNotFound(name) => "无法找到用户: @"@ + name@,
                ApiError::LookupFailed { username, status, detail } => "查询用户信息失败: "@
                    + username@ + " (状态码: "@ + status@ + ")"@ + detail_suffix(*detail),
                ApiError::RequestFailed { status, detail } => match detail {
                    Some(d) => "API 请求失败: "@ + status@ + " - "@ + d@,
                    None => "API 请求失败: 状态码 "@ + status@,
                },
            },
    {
        match self {
            ApiError::InvalidCount(e) => e.message(),
            ApiError::UserNotFound(name) => {
                let mut m = owned("无法找到用户: @");
                push_str(&mut m, name.as_str());
                m
            },
            ApiError::LookupFailed { username, status, detail } => {
                let mut m = owned("查询用户信息失败: ");
                push_str(&mut m, username.as_str());
                push_str(&mut m, " (状态码: ");
                push_str(&mut m, status.as_str());
                push_str(&mut m, ")");
                match detail {
                    Some(d) => {
                        push_str(&mut m, " - ");
                        push_str(&mut m, d.as_str());
                    },
                    None => {},
                }
                m
            },
            ApiError::RequestFailed { status, detail } => match detail {
                Some(d) => {
                    let mut m = owned("API 请求失败: ");
                    push_str(&mut m, status.as_str());
                    push_str(&mut m, " - ");
                    push_str(&mut m, d.as_str());
                    m
                },
                None => {
                    let mut m = owned("API 请求失败: 状态码 ");
                    push_str(&mut m, status.as_str());
                    m
                },
            },
        }
    }

    /// The error for a user lookup answered with failure `status` and text
    /// `body`: the user name without leading `@`s, and the text only when
    /// `debug` is set.
    pub fn lookup_failed(username: &str, status: &str, body: &str, debug: bool) -> (r: ApiError)
        ensures
            r matches ApiError::LookupFailed { username: u, status: s, detail: d } && u@
                == strip_leading(username@, '@') && s@ == status@ && (if debug {
                d matches Some(b) && b@ == body@
            } else {
                d is None
            }),
    {
        let detail = if debug {
            Some(owned(body))
        } else {
            None
        };
        ApiError::LookupFailed { username: clean_username(username), status: owned(status), detail }
    }

    /// The error for a timeline request answered with failure `status` and
    /// text `body`, the text kept only when `debug` is set.
    pub fn request_failed(status: &str, body: &str, debug: bool) -> (r: ApiError)
        ensures
            r matches ApiError::RequestFailed { status: s, detail: d } && s@ == status@ && (if debug {
                d matches Some(b) && b@ == body@
            } else {
                d is None
            }),
    {
        let detail = if debug {
            Some(owned(body))
        } else {
            None
        };
        ApiError::RequestFailed { status: owned(status), detail }
    }
}

/// The user id a `UserByScreenName` answer gives: `data.user.result.rest_id`.
pub open spec fn answered_user_id(data: Json) -> Option<Seq<char>> {
    text_of(at(at(at(data.field("data"@), "user"@), "result"@), "rest_id"@))
}

/// A hexadecimal digit in lower case.
pub open spec fn hex_lower(n: int) -> char {
    if n < 10 {
        (n + '0' as int) as char
    } else {
        (n - 10 + 'a' as int) as char
    }
}

/// A hexadecimal digit in upper case.
pub open spec fn hex_upper(n: int) -> char {
    if n < 10 {
        (n + '0' as int) as char
    } else {
        (n - 10 + 'A' as int) as char
    }
}

/// How `serde_json` writes one character inside a string: `"` and `\` and the
/// control characters escaped, everything else as it is.
pub open spec fn json_escape(c: char) -> Seq<char> {
    if c == '"' {
        seq!['\\', '"']
    } else if c == '\\' {
        seq!['\\', '\\']
    } else if c == '\u{8}' {
        seq!['\\', 'b']
    } else if c == '\t' {
        seq!['\\', 't']
    } else if c == '\n' {
        seq!['\\', 'n']
    } else if c == '\u{c}' {
        seq!['\\', 'f']
    } else if c == '\r' {
        seq!['\\', 'r']
    } else if (c as u32) < 0x20 {
        seq!['\\', 'u', '0', '0', hex_lower(((c as u32) / 16) as int), hex_lower(((c as u32) % 16) as int)]
    } else {
        seq![c]
    }
}

/// The escaped characters of `s`.
pub open spec fn json_escaped(s: Seq<char>) -> Seq<char>
    decreases s.len(),
{
    if s.len() == 0 {
        Seq::empty()
    } else {
        json_escaped(s.drop_last()) + json_escape(s.last())
    }
}

/// How `serde_json` writes a string: in double quotes, escaped.
pub open spec fn json_string(s: Seq<char>) -> Seq<char> {
    seq!['"'] + json_escaped(s) + seq!['"']
}

/// Calls `serde_json::to_string` on a string.  Claims that it succeeds (a
/// string is written into memory, where writing cannot fail) and gives the
/// string in double quotes with `"`, `\` and the control characters escaped
/// (`\b \t \n \f \r`, other controls as `\u00xx` in lower-case hex), as
/// `serde_json`'s serializer writes strings.
#[verifier::external_body]
fn json_quote(s: &str) -> (r: Option<String>)
    ensures
        r is Some,
        r matches Some(t) ==> t@ == json_string(s@),
{
    serde_json::to_string(s).ok()
}

/// A byte that URL encoding leaves as it is: an ASCII letter or digit, or
/// `-`, `.`, `_`, `~`.
pub open spec fn unreserved(b: u8) -> bool {
    ||| (48 <= b && b <= 57)
    ||| (65 <= b && b <= 90)
    ||| (97 <= b && b <= 122)
    ||| b == 45 || b == 46 || b == 95 || b == 126
}

/// Percent-encoding of bytes: unreserved bytes as they are, every other
/// byte as `%` and two upper-case hex digits.
pub open spec fn percent_encode(bytes: Seq<u8>) -> Seq<char>
    decreases bytes.len(),
{
    if bytes.len() == 0 {
        Seq::empty()
    } else {
        let b = bytes.last();
        percent_encode(bytes.drop_last()) + if unreserved(b) {
            seq![b as char]
        } else {
            seq!['%', hex_upper((b / 16) as int), hex_upper((b % 16) as int)]
        }
    }
}

/// Calls `urlencoding::encode`.  Claims what its documentation and source
/// say: every byte of the UTF-8 form of `s` except ASCII letters, digits and
/// `-`, `.`, `_`, `~` is written as `%XX`.
#[verifier::external_body]
fn url_encode(s: &str) -> (r: String)
    ensures
        r@ == percent_encode(vstd::utf8::encode_utf8(s@)),
{
    urlencoding::encode(s).into_owned()
}

/// The `features` parameter of the user lookup.
pub const USER_FEATURES: &'static str = r#"{"hidden_profile_subscriptions_enabled":true,"payments_enabled":false,"profile_label_improvements_pcf_label_in_post_enabled":true,"responsive_web_profile_redirect_enabled":false,"rweb_tipjar_consumption_enabled":true,"verified_phone_label_enabled":false,"subscriptions_verification_info_is_identity_verified_enabled":true,"subscriptions_verification_info_verified_since_enabled":true,"highlights_tweets_tab_ui_enabled":true,"responsive_web_twitter_article_notes_tab_enabled":true,"subscriptions_feature_can_gift_premium":true,"creator_subscriptions_tweet_preview_api_enabled":true,"responsive_web_graphql_skip_user_profile_image_extensions_enabled":false,"responsive_web_graphql_timeline_navigation_enabled":true}"#;

/// The `fieldToggles` parameter of the user lookup.
pub const USER_FIELD_TOGGLES: &'static str = r#"{"withAuxiliaryUserLabels":true}"#;

/// The `features` parameter of the timeline request.
pub const TWEETS_FEATURES: &'static str = r#"{"rweb_video_screen_enabled":false,"payments_enabled":false,"profile_label_improvements_pcf_label_in_post_enabled":true,"responsive_web_profile_redirect_enabled":false,"rweb_tipjar_consumption_enabled":true,"verified_phone_label_enabled":false,"creator_subscriptions_tweet_preview_api_enabled":true,"responsive_web_graphql_timeline_navigation_enabled":true,"responsive_web_graphql_skip_user_profile_image_extensions_enabled":false,"premium_content_api_read_enabled":false,"communities_web_enable_tweet_community_results_fetch":true,"c9s_tweet_anatomy_moderator_badge_enabled":true,"responsive_web_grok_analyze_button_fetch_trends_enabled":false,"responsive_web_grok_analyze_post_followups_enabled":true,"responsive_web_jetfuel_frame":true,"responsive_web_grok_share_attachment_enabled":true,"articles_preview_enabled":true,"responsive_web_edit_tweet_api_enabled":true,"graphql_is_translatable_rweb_tweet_is_translatable_enabled":true,"view_counts_everywhere_api_enabled":true,"longform_notetweets_consumption_enabled":true,"responsive_web_twitter_article_tweet_consumption_enabled":true,"tweet_awards_web_tipping_enabled":false,"responsive_web_grok_show_grok_translated_post":false,"responsive_web_grok_analysis_button_from_backend":true,"creator_subscriptions_quote_tweet_preview_enabled":false,"freedom_of_speech_not_reach_fetch_enabled":true,"standardized_nudges_misinfo":true,"tweet_with_visibility_results_prefer_gql_limited_actions_policy_enabled":true,"longform_notetweets_rich_text_read_enabled":true,"longform_notetweets_inline_media_enabled":true,"responsive_web_grok_image_annotation_enabled":true,"responsive_web_grok_imagine_annotation_enabled":true,"responsive_web_grok_community_note_auto_translation_is_enabled":false,"responsive_web_enhance_cards_enabled":false}"#;

/// The `fieldToggles` parameter of the timeline request.
pub const TWEETS_FIELD_TOGGLES: &'static str = r#"{"withArticlePlainText":false}"#;

/// The `variables` of the user lookup, as `serde_json` writes them (members
/// in key order).
pub open spec fn user_variables(name: Seq<char>) -> Seq<char> {
    "{\"screen_name\":"@ + json_string(name) + ",\"withGrokTranslatedBio\":false}"@
}

/// The URL of the user lookup for `name`.
pub open spec fn user_lookup_url(query_id: Seq<char>, name: Seq<char>) -> Seq<char> {
    "https://x.com/i/api/graphql/"@ + query_id + "/UserByScreenName?variables="@ + percent_encode(
        vstd::utf8::encode_utf8(user_variables(name)),
    ) + "&features="@ + percent_encode(vstd::utf8::encode_utf8(USER_FEATURES@))
        + "&fieldToggles="@ + percent_encode(vstd::utf8::encode_utf8(USER_FIELD_TOGGLES@))
}

/// A signed integer in decimal.
pub open spec fn signed_decimal(v: int) -> Seq<char> {
    if v < 0 {
        seq!['-'] + decimal((-v) as nat)
    } else {
        decimal(v as nat)
    }
}

/// The `variables` of a timeline request, as `serde_json` writes them
/// (members in key order; `cursor` only when there is one).
pub open spec fn tweets_variables(count: int, cursor: Option<Seq<char>>, user_id: Seq<char>) -> Seq<
    char,
> {
    "{\"count\":"@ + signed_decimal(count) + match cursor {
        Some(c) => ",\"cursor\":"@ + json_string(c),
        None => Seq::empty(),
    } + ",\"includePromotedContent\":true,\"userId\":"@ + json_string(user_id)
        + ",\"withQuickPromoteEligibilityTweetFields\":true,\"withVoice\":true}"@
}

/// The URL of a timeline request.
pub open spec fn user_tweets_url(
    query_id: Seq<char>,
    count: int,
    cursor: Option<Seq<char>>,
    user_id: Seq<char>,
) -> Seq<char> {
    "https://x.com/i/api/graphql/"@ + query_id + "/UserTweets?variables="@ + percent_encode(
        vstd::utf8::encode_utf8(tweets_variables(count, cursor, user_id)),
    ) + "&features="@ + percent_encode(vstd::utf8::encode_utf8(TWEETS_FEATURES@))
        + "&fieldToggles="@ + percent_encode(vstd::utf8::encode_utf8(TWEETS_FIELD_TOGGLES@))
}

/// The client for the API's logic: the settings requests are made with.
pub struct XApi {
    pub config: Config,
}

impl XApi {
    /// A client for the given settings.
    pub fn new(config: Config) -> (r: XApi)
        ensures
            r.config == config,
    {
        XApi { config }
    }

    /// The user whose timeline is read: the target user id when it is set,
    /// else the account's own.
    pub open spec fn timeline_user(&self) -> Seq<char> {
        if self.config.target_user_id@.len() > 0 {
            self.config.target_user_id@
        } else {
            self.config.user_id@
        }
    }

    /// The URL that looks `username` up, without leading `@`s.
    pub fn user_lookup_url(&self, username: &str) -> (r: String)
        ensures
            r@ == user_lookup_url(
                self.config.user_by_screen_name_query_id@,
                strip_leading(username@, '@'),
            ),
    {
        let name = clean_username(username);
        let quoted = match json_quote(name.as_str()) {
            Some(q) => q,
            None => String::new(),
        };
        let mut vars = owned("{\"screen_name\":");
        push_str(&mut vars, quoted.as_str());
        push_str(&mut vars, ",\"withGrokTranslatedBio\":false}");
        let mut url = owned("https://x.com/i/api/graphql/");
        push_str(&mut url, self.config.user_by_screen_name_query_id.as_str());
        push_str(&mut url, "/UserByScreenName?variables=");
        push_str(&mut url, url_encode(vars.as_str()).as_str());
        push_str(&mut url, "&features=");
        push_str(&mut url, url_encode(USER_FEATURES).as_str());
        push_str(&mut url, "&fieldToggles=");
        push_str(&mut url, url_encode(USER_FIELD_TOGGLES).as_str());
        url
    }

    /// The URL of the timeline page after `cursor` (the first page without
    /// one).  Fails when the configured count is not a 32-bit integer.
    pub fn user_tweets_url(&self, cursor: Option<&str>) -> (r: Result<String, ApiError>)
        ensures
            match int_parse(self.config.count@, true, i32::MIN as int, i32::MAX as int) {
                Err(e) => r == Err::<String, ApiError>(ApiError::InvalidCount(e)),
                Ok(count) => r matches Ok(u) && u@ == user_tweets_url(
                    self.config.user_tweets_query_id@,
                    count,
                    str_view(cursor),
                    self.timeline_user(),
                ),
            },
    {
        let count = match parse_i32(self.config.count.as_str()) {
            Ok(c) => c,
            Err(e) => {
                return Err(ApiError::InvalidCount(e));
            },
        };
        let user_id = if self.config.target_user_id.as_str().is_empty() {
            self.config.user_id.as_str()
        } else {
            self.config.target_user_id.as_str()
        };
        assert(user_id@ == self.timeline_user());
        let mut vars = owned("{\"count\":");
        if count < 0 {
            push_char(&mut vars, '-');
            push_decimal(&mut vars, (-(count as i64)) as u64);
        } else {
            push_decimal(&mut vars, count as u64);
        }
        let ghost head = "{\"count\":"@ + signed_decimal(count as int);
        assert(vars@ == head);
        let ghost middle: Seq<char> = match cursor {
            Some(c) => ",\"cursor\":"@ + json_string(c@),
            None => Seq::empty(),
        };
        match cursor {
            Some(c) => {
                let q = match json_quote(c) {
                    Some(q) => q,
                    None => String::new(),
                };
                push_str(&mut vars, ",\"cursor\":");
                push_str(&mut vars, q.as_str());
                assert(vars@ == head + middle);
            },
            None => {
                assert(vars@ == head + middle);
            },
        }
        let uq = match json_quote(user_id) {
            Some(q) => q,
            None => String::new(),
        };
        push_str(&mut vars, ",\"includePromotedContent\":true,\"userId\":");
        push_str(&mut vars, uq.as_str());
        push_str(&mut vars, ",\"withQuickPromoteEligibilityTweetFields\":true,\"withVoice\":true}");
        assert(vars@ == tweets_variables(count as int, str_view(cursor), self.timeline_user()));
        let mut url = owned("https://x.com/i/api/graphql/");
        push_str(&mut url, self.config.user_tweets_query_id.as_str());
        push_str(&mut url, "/UserTweets?variables=");
        push_str(&mut url, url_encode(vars.as_str()).as_str());
        push_str(&mut url, "&features=");
        push_str(&mut url, url_encode(TWEETS_FEATURES).as_str());
        push_str(&mut url, "&fieldToggles=");
        push_str(&mut url, url_encode(TWEETS_FIELD_TOGGLES).as_str());
        Ok(url)
    }

    /// The headers every request carries: the bearer token, the session
    /// cookies, the CSRF token and the user agent.
    pub fn request_headers(&self) -> (r: Vec<(String, String)>)
        ensures
            r@.len() == 4,
            r@[0].0@ == "Authorization"@ && r@[0].1@ == "Bearer "@ + self.config.bearer_token@,
            r@[1].0@ == "Cookie"@ && r@[1].1@ == "auth_token="@ + self.config.auth_token@
                + "; ct0="@ + self.config.ct0@,
            r@[2].0@ == "X-Csrf-Token"@ && r@[2].1@ == self.config.ct0@,
            r@[3].0@ == "User-Agent"@ && r@[3].1@ == self.config.user_agent@,
    {
        let mut auth = owned("Bearer ");
        push_str(&mut auth, self.config.bearer_token.as_str());
        let mut cookie = owned("auth_token=");
        push_str(&mut cookie, self.config.auth_token.as_str());
        push_str(&mut cookie, "; ct0=");
        push_str(&mut cookie, self.config.ct0.as_str());
        let mut h: Vec<(String, String)> = Vec::new();
        h.push((owned("Authorization"), auth));
        h.push((owned("Cookie"), cookie));
        h.push((owned("X-Csrf-Token"), self.config.ct0.clone()));
        h.push((owned("User-Agent"), self.config.user_agent.clone()));
        h
    }

    /// The user id in a user lookup's answer, or `UserNotFound` with the
    /// cleaned user name.
    pub fn parse_user_id_response(data: &Json, username: &str) -> (r: Result<String, ApiError>)
        ensures
            match answered_user_id(*data) {
                Some(id) => r matches Ok(v) && v@ == id,
                None => r matches Err(ApiError::UserNotFound(n)) && n@ == strip_leading(
                    username@,
                    '@',
                ),
            },
    {
        match str_at(get_at(get_at(get_at(data.get("data"), "user"), "result"), "rest_id")) {
            Some(id) => Ok(owned(id)),
            None => Err(ApiError::UserNotFound(clean_username(username))),
        }
    }

    /// The tweets of a conversation module entry.
    pub fn extract_tweets_from_conversation_module<'a>(&self, entry: &'a Json) -> (r: Vec<&'a Json>)
        ensures
            derefs(r@) == conversation_tweets(*entry),
    {
        let mut out: Vec<&'a Json> = Vec::new();
        match get_at(entry.get("content"), "items") {
            Some(v) => match v.as_array() {
                Some(items) => {
                    let mut i: usize = 0;
                    assert(items@.take(0) == Seq::<Json>::empty());
                    assert(derefs(out@) == Seq::<Json>::empty());
                    while i < items.len()
                        invariant
                            i <= items.len(),
                            derefs(out@) == results_of(items@.take(i as int)),
                        decreases items.len() - i,
                    {
                        assert(items@.take(i + 1).drop_last() == items@.take(i as int));
                        assert(items@.take(i + 1).last() == items@[i as int]);
                        let item = &items[i];
                        match get_at(
                            get_at(get_at(item.get("item"), "itemContent"), "tweet_results"),
                            "result",
                        ) {
                            Some(res) => {
                                let ghost before = out@;
                                out.push(res);
                                assert(derefs(out@) == derefs(before).push(*res));
                            },
                            None => {},
                        }
                        i = i + 1;
                    }
                    assert(items@.take(items@.len() as int) == items@);
                },
                None => {},
            },
            None => {},
        }
        out
    }

    /// Reads the entries of a `TimelineAddEntries` instruction into `tweets`
    /// and `cursor`.
    fn read_entries<'a>(&self, es: &'a Vec<Json>, tweets: &mut Vec<&'a Json>, cursor: &mut Option<String>)
        ensures
            scan_state(final(tweets)@, *final(cursor)) == entries_scan(
                scan_state(old(tweets)@, *old(cursor)),
                es@,
            ),
    {
        let ghost start = scan_state(tweets@, *cursor);
        let mut i: usize = 0;
        assert(es@.take(0) == Seq::<Json>::empty());
        while i < es.len()
            invariant
                i <= es.len(),
                scan_state(tweets@, *cursor) == entries_scan(start, es@.take(i as int)),
            decreases es.len() - i,
        {
            assert(es@.take(i + 1).drop_last() == es@.take(i as int));
            assert(es@.take(i + 1).last() == es@[i as int]);
            let entry = &es[i];
            match str_at(entry.get("entryId")) {
                Some(id) => {
                    if starts_with_str(id, "profile-conversation-") {
                        let mut conv = self.extract_tweets_from_conversation_module(entry);
                        let ghost before = tweets@;
                        let ghost added = conv@;
                        tweets.append(&mut conv);
                        assert(derefs(before + added) =~= derefs(before) + derefs(added));
                    } else if starts_with_str(id, "tweet-") {
                        let ghost before = tweets@;
                        tweets.push(entry);
                        assert(derefs(before.push(entry)) =~= derefs(before).push(*entry));
                    } else if starts_with_str(id, "cursor-bottom-") {
                        *cursor = match str_at(get_at(entry.get("content"), "value")) {
                            Some(v) => Some(owned(v)),
                            None => None,
                        };
                    }
                },
                None => {},
            }
            i = i + 1;
        }
        assert(es@.take(es@.len() as int) == es@);
    }

    /// The tweets of a `UserTweets` answer and the cursor of the next page.
    pub fn parse_user_tweets_response<'a>(&self, data: &'a Json) -> (r: (Vec<&'a Json>, Option<String>))
        ensures
            scan_state(r.0@, r.1) == timeline_page(*data),
    {
        let mut tweets: Vec<&'a Json> = Vec::new();
        let mut cursor: Option<String> = None;
        let ghost empty = PageScan { tweets: Seq::empty(), cursor: None };
        assert(derefs(tweets@) =~= Seq::<Json>::empty());
        assert(scan_state(tweets@, cursor) == empty);
        let list = get_at(
            get_at(get_at(get_at(get_at(data.get("data"), "user"), "result"), "timeline"), "timeline"),
            "instructions",
        );
        let inss = match list {
            Some(l) => match l.as_array() {
                Some(a) => a,
                None => {
                    return (tweets, cursor);
                },
            },
            None => {
                return (tweets, cursor);
            },
        };
        let mut i: usize = 0;
        assert(inss@.take(0) == Seq::<Json>::empty());
        while i < inss.len()
            invariant
                i <= inss.len(),
                scan_state(tweets@, cursor) == instructions_scan(empty, inss@.take(i as int)),
            decreases inss.len() - i,
        {
            assert(inss@.take(i + 1).drop_last() == inss@.take(i as int));
            assert(inss@.take(i + 1).last() == inss@[i as int]);
            let ins = &inss[i];
            let kind = str_at(ins.get("type"));
            let is_add = match kind {
                Some(k) => same_text(k, "TimelineAddEntries"),
                None => false,
            };
            let is_pin = match kind {
                Some(k) => same_text(k, "TimelinePinEntry"),
                None => false,
            };
            if is_add {
                match get_at(Some(ins), "entries") {
                    Some(e) => match e.as_array() {
                        Some(es) => {
                            self.read_entries(es, &mut tweets, &mut cursor);
                        },
                        None => {},
                    },
                    None => {},
                }
            } else if is_pin {
                match ins.get("entry") {
                    Some(e) => match str_at(e.get("entryId")) {
                        Some(id) => {
                            if starts_with_str(id, "tweet-") {
                                let ghost before = tweets@;
                                tweets.push(e);
                                assert(derefs(before.push(e)) =~= derefs(before).push(*e));
                            }
                        },
                        None => {},
                    },
                    None => {},
                }
            }
            i = i + 1;
        }
        assert(inss@.take(inss@.len() as int) == inss@);
        (tweets, cursor)
    }
}

/// Keeps the tweets whose id has not been seen, in order: a tweet without an
/// id is dropped, and a tweet whose id is in `seen` (or came earlier in `ts`)
/// is a duplicate.  Gives the ids seen afterwards and the tweets kept.
pub open spec fn fresh_tweets(seen: Set<Seq<char>>, ts: Seq<Json>) -> (Set<Seq<char>>, Seq<Json>)
    decreases ts.len(),
{
    if ts.len() == 0 {
        (seen, Seq::empty())
    } else {
        let (s, kept) = fresh_tweets(seen, ts.drop_last());
        match tweet_entry_id(ts.last()) {
            Some(id) => if s.contains(id) {
                (s, kept)
            } else {
                (s.insert(id), kept.push(ts.last()))
            },
            None => (s, kept),
        }
    }
}

/// No tweet is handed out twice: every tweet `fresh_tweets` keeps has an id
/// that was not seen before and is seen afterwards, the kept tweets' ids are
/// pairwise different, each kept tweet comes from `ts`, and the ids seen
/// afterwards are those seen before and those of the kept tweets.
pub proof fn lemma_fresh_tweets_distinct(seen: Set<Seq<char>>, ts: Seq<Json>)
    ensures
        ({
            let (after, kept) = fresh_tweets(seen, ts);
            &&& forall|i: int|
                0 <= i < kept.len() ==> ((#[trigger] tweet_entry_id(kept[i])) matches Some(id)
                    && !seen.contains(id) && after.contains(id))
            &&& forall|i: int, j: int|
                0 <= i < j < kept.len() ==> tweet_entry_id(#[trigger] kept[i]) != tweet_entry_id(
                    #[trigger] kept[j],
                )
            &&& forall|i: int| 0 <= i < kept.len() ==> ts.contains(#[trigger] kept[i])
            &&& forall|id: Seq<char>|
                #[trigger] after.contains(id) <==> (seen.contains(id) || exists|i: int|
                    0 <= i < kept.len() && tweet_entry_id(#[trigger] kept[i]) == Some(id))
        }),
    decreases ts.len(),
{
    if ts.len() > 0 {
        let prev = ts.drop_last();
        lemma_fresh_tweets_distinct(seen, prev);
        let (s, k) = fresh_tweets(seen, prev);
        let (after, kept) = fresh_tweets(seen, ts);
        assert forall|i: int| 0 <= i < k.len() implies ts.contains(#[trigger] k[i]) by {
            let j = choose|j: int| 0 <= j < prev.len() && prev[j] == k[i];
            assert(ts[j] == k[i]);
        }
        match tweet_entry_id(ts.last()) {
            Some(id) => {
                if !s.contains(id) {
                    assert(kept == k.push(ts.last()));
                    assert(ts[ts.len() - 1] == ts.last());
                    assert forall|x: Seq<char>|
                        #[trigger] after.contains(x) <==> (seen.contains(x) || exists|i: int|
                            0 <= i < kept.len() && tweet_entry_id(#[trigger] kept[i]) == Some(x)) by {
                        if after.contains(x) && !seen.contains(x) {
                            if x == id {
                                assert(tweet_entry_id(kept[k.len() as int]) == Some(x));
                            } else {
                                let i = choose|i: int|
                                    0 <= i < k.len() && tweet_entry_id(#[trigger] k[i]) == Some(x);
                                assert(kept[i] == k[i]);
                            }
                        }
                        if exists|i: int| 0 <= i < kept.len() && tweet_entry_id(#[trigger] kept[i]) == Some(x) {
                            let i = choose|i: int|
                                0 <= i < kept.len() && tweet_entry_id(#[trigger] kept[i]) == Some(x);
                            if i < k.len() {
                                assert(kept[i] == k[i]);
                            }
                        }
                    }
                }
            },
            None => {},
        }
    }
}

/// Across pages no tweet is handed out twice: the tweets kept from a later
/// page have ids different from those kept from an earlier one.
pub proof fn lemma_pages_disjoint(seen: Set<Seq<char>>, first: Seq<Json>, second: Seq<Json>)
    ensures
        ({
            let (after_first, kept_first) = fresh_tweets(seen, first);
            let (_, kept_second) = fresh_tweets(after_first, second);
            forall|i: int, j: int|
                0 <= i < kept_first.len() && 0 <= j < kept_second.len() ==> tweet_entry_id(
                    #[trigger] kept_first[i],
                ) != tweet_entry_id(#[trigger] kept_second[j])
        }),
{
    let (after_first, kept_first) = fresh_tweets(seen, first);
    let (_, kept_second) = fresh_tweets(after_first, second);
    lemma_fresh_tweets_distinct(seen, first);
    lemma_fresh_tweets_distinct(after_first, second);
    assert forall|i: int, j: int|
        0 <= i < kept_first.len() && 0 <= j < kept_second.len() implies tweet_entry_id(
        #[trigger] kept_first[i],
    ) != tweet_entry_id(#[trigger] kept_second[j]) by {
        let a = tweet_entry_id(kept_first[i]);
        let b = tweet_entry_id(kept_second[j]);
        assert(after_first.contains(a->0));
        assert(!after_first.contains(b->0));
    }
}

/// Whether reading stops after a page: when it held no tweet, none of its
/// tweets was new, only one page is read, there is no next cursor, or the
/// next cursor is the one just used.
pub open spec fn page_stops(
    page_len: int,
    kept_len: int,
    all: bool,
    new_cursor: Option<Seq<char>>,
    cursor: Option<Seq<char>>,
) -> bool {
    ||| page_len == 0
    ||| kept_len == 0
    ||| !all
    ||| new_cursor is None
    ||| new_cursor == cursor
}

/// The paging of a timeline read: which page to ask for next, and which
/// tweets of an answered page are new.
pub struct TweetPager {
    /// The ids of the tweets handed out so far.
    pub seen: StringHashSet,
    /// The cursor of the next page (none for the first).
    pub cursor: Option<String>,
    /// How many pages have been asked for.
    pub page_count: usize,
    /// How many pages may be asked for.
    pub max_pages: usize,
    /// Whether to read every page, or only the first.
    pub all: bool,
    /// Whether reading has stopped.
    pub finished: bool,
}

impl TweetPager {
    /// A pager that has read nothing yet, with the page limit and the `all`
    /// setting of `config`.
    pub fn new(config: &Config) -> (r: TweetPager)
        ensures
            r.seen@ == Set::<Seq<char>>::empty(),
            r.cursor is None,
            r.page_count == 0,
            r.max_pages == config.max_pages,
            r.all == config.all,
            !r.finished,
    {
        TweetPager {
            seen: StringHashSet::new(),
            cursor: None,
            page_count: 0,
            max_pages: config.max_pages,
            all: config.all,
            finished: false,
        }
    }

    /// The cursor of the next page to ask for (`Some(None)` for the first
    /// page), or `None` when reading has stopped or the page limit is
    /// reached; reaching the limit stops reading.
    pub fn next_request(&mut self) -> (r: Option<Option<String>>)
        ensures
            final(self).seen@ == old(self).seen@,
            final(self).cursor == old(self).cursor,
            final(self).max_pages == old(self).max_pages,
            final(self).all == old(self).all,
            old(self).finished ==> r is None && final(self).finished && final(self).page_count
                == old(self).page_count,
            !old(self).finished && old(self).page_count >= old(self).max_pages ==> r is None
                && final(self).finished && final(self).page_count == old(self).page_count,
            r is Some ==> final(self).page_count <= final(self).max_pages,
            !old(self).finished && old(self).page_count < old(self).max_pages ==> {
                &&& r matches Some(c) && opt_view(c) == opt_view(old(self).cursor)
                &&& !final(self).finished
                &&& final(self).page_count == old(self).page_count + 1
            },
    {
        if self.finished {
            return None;
        }
        if self.page_count >= self.max_pages {
            self.finished = true;
            return None;
        }
        self.page_count = self.page_count + 1;
        let c = match &self.cursor {
            Some(c) => Some(c.clone()),
            None => None,
        };
        Some(c)
    }

    /// Takes an answered page: hands out its tweets whose id is new (see
    /// `fresh_tweets`), remembers their ids, and either stops reading (see
    /// `page_stops`) or moves to `new_cursor`.
    pub fn accept_page<'a>(&mut self, tweets: &Vec<&'a Json>, new_cursor: Option<String>) -> (r: Vec<&'a Json>)
        ensures
            fresh_tweets(old(self).seen@, derefs(tweets@)) == (final(self).seen@, derefs(r@)),
            final(self).page_count == old(self).page_count,
            final(self).max_pages == old(self).max_pages,
            final(self).all == old(self).all,
            ({
                let stop = page_stops(
                    tweets@.len() as int,
                    r@.len() as int,
                    old(self).all,
                    opt_view(new_cursor),
                    opt_view(old(self).cursor),
                );
                &&& final(self).finished == (old(self).finished || stop)
                &&& stop ==> final(self).cursor == old(self).cursor
                &&& !stop ==> final(self).cursor == new_cursor
            }),
    {
        let ghost s0 = self.seen@;
        let mut kept: Vec<&'a Json> = Vec::new();
        let mut i: usize = 0;
        assert(derefs(tweets@).take(0) =~= Seq::<Json>::empty());
        assert(derefs(kept@) =~= Seq::<Json>::empty());
        while i < tweets.len()
            invariant
                i <= tweets.len(),
                (self.seen@, derefs(kept@)) == fresh_tweets(s0, derefs(tweets@).take(i as int)),
                s0 == old(self).seen@,
                self.cursor == old(self).cursor,
                self.page_count == old(self).page_count,
                self.max_pages == old(self).max_pages,
                self.all == old(self).all,
                self.finished == old(self).finished,
            decreases tweets.len() - i,
        {
            let ghost ts = derefs(tweets@);
            assert(ts.take(i + 1).drop_last() =~= ts.take(i as int));
            assert(ts.take(i + 1).last() == *tweets@[i as int]);
            let t = tweets[i];
            match extract_tweet_id(t) {
                Some(id) => {
                    if !self.seen.contains(id.as_str()) {
                        self.seen.insert(id);
                        let ghost before = kept@;
                        kept.push(t);
                        assert(derefs(before.push(t)) =~= derefs(before).push(*t));
                    }
                },
                None => {},
            }
            i = i + 1;
        }
        assert(derefs(tweets@).take(tweets@.len() as int) =~= derefs(tweets@));
        let same_cursor = match (&new_cursor, &self.cursor) {
            (Some(a), Some(b)) => same_text(a.as_str(), b.as_str()),
            (None, None) => true,
            _ => false,
        };
        if tweets.len() == 0 || kept.len() == 0 || !self.all || new_cursor.is_none() || same_cursor {
            self.finished = true;
            return kept;
        }
        self.cursor = new_cursor;
        kept
    }
}

} // verus!

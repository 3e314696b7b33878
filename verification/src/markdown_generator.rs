//! The Markdown backup of a user's tweets.
use vstd::prelude::*;

use crate::config::Config;
use crate::datetime::{
    format_timestamp, local_now_text, utc_representable, utc_text, BACKUP_TIME_FORMAT,
    TWEET_TIME_FORMAT,
};
use crate::json::{bool_of, str_at, text_of, Json};
use crate::downloader::{file_name_char, lemma_safe_file_name_keeps, media_prefix, safe_file_name};
use crate::setup::or_empty;
use crate::text::{
    chars_of, contains, contains_str, decimal, ends_with, find_char, owned, push_char,
    push_decimal, push_str, same_text, split_on, split_ranges, starts_with, starts_with_str,
    string_of_range,
};
use crate::tweet_parser::{
    extract_media_urls, extract_tweet_object, extract_tweet_timestamp_datetime, extract_user_info,
    opt_view, tweet_instant, tweet_media_urls, tweet_object, user_field, views,
};

verus! {

/// One tweet as the backup shows it.
#[derive(Debug, Clone)]
pub struct TweetContent {
    pub id: String,
    pub text: String,
    /// When it was posted, in seconds since the epoch (UTC).
    pub created_at: Option<i64>,
    pub username: Option<String>,
    pub display_name: Option<String>,
    pub media_urls: Vec<String>,
    pub is_retweet: bool,
    pub retweeted_by: Option<String>,
    pub reply_to: Option<String>,
    pub quote_tweet: Option<String>,
}

/// Collects tweets and writes them out as Markdown.
pub struct MarkdownGenerator {
    pub config: Config,
    pub tweets: Vec<TweetContent>,
}

/// The HTML escape of one character.
pub open spec fn escape_char(c: char) -> Seq<char> {
    if c == '&' {
        "&amp;"@
    } else if c == '<' {
        "&lt;"@
    } else if c == '>' {
        "&gt;"@
    } else if c == '"' {
        "&quot;"@
    } else if c == '\'' {
        "&#x27;"@
    } else {
        seq![c]
    }
}

/// `s` with `&`, `<`, `>`, `"` and `'` written as HTML character references.
pub open spec fn escape_html(s: Seq<char>) -> Seq<char>
    decreases s.len(),
{
    if s.len() == 0 {
        Seq::empty()
    } else {
        escape_html(s.drop_last()) + escape_char(s.last())
    }
}

/// Escaped text is safe inside a quoted HTML attribute: it holds no `<`,
/// `>`, `"` or `'`.
pub proof fn lemma_escape_html_safe(s: Seq<char>)
    ensures
        forall|k: int|
            0 <= k < escape_html(s).len() ==> {
                let c = #[trigger] escape_html(s)[k];
                c != '<' && c != '>' && c != '"' && c != '\''
            },
    decreases s.len(),
{
    if s.len() > 0 {
        lemma_escape_html_safe(s.drop_last());
        reveal_strlit("&amp;");
        reveal_strlit("&lt;");
        reveal_strlit("&gt;");
        reveal_strlit("&quot;");
        reveal_strlit("&#x27;");
        let prev = escape_html(s.drop_last());
        let e = escape_char(s.last());
        let r = escape_html(s);
        assert(r == prev + e);
        assert forall|k: int| 0 <= k < r.len() implies {
            let c = #[trigger] r[k];
            c != '<' && c != '>' && c != '"' && c != '\''
        } by {
            if k < prev.len() {
                assert(r[k] == prev[k]);
            } else {
                assert(r[k] == e[k - prev.len()]);
            }
        }
    }
}

/// Appends the HTML escape of `s` to `out`.
pub fn push_escaped(out: &mut String, s: &str)
    ensures
        final(out)@ == old(out)@ + escape_html(s@),
{
    let v = chars_of(s);
    let ghost start = out@;
    let mut i: usize = 0;
    assert(v@.take(0) == Seq::<char>::empty());
    assert(start + escape_html(Seq::<char>::empty()) == start);
    while i < v.len()
        invariant
            v@ == s@,
            i <= v.len(),
            out@ == start + escape_html(v@.take(i as int)),
        decreases v.len() - i,
    {
        assert(v@.take(i + 1).drop_last() == v@.take(i as int));
        assert(v@.take(i + 1).last() == v@[i as int]);
        let c = v[i];
        let ghost before = out@;
        if c == '&' {
            push_str(out, "&amp;");
        } else if c == '<' {
            push_str(out, "&lt;");
        } else if c == '>' {
            push_str(out, "&gt;");
        } else if c == '"' {
            push_str(out, "&quot;");
        } else if c == '\'' {
            push_str(out, "&#x27;");
        } else {
            push_char(out, c);
            assert(before.push(c) == before + seq![c]);
        }
        assert(start + escape_html(v@.take(i + 1)) == start + escape_html(v@.take(i as int))
            + escape_char(c));
        i = i + 1;
    }
    assert(v@.take(v@.len() as int) == v@);
}

/// What `std::path::Path::parent` gives for the path `p`, as text.
pub uninterp spec fn parent_path(p: Seq<char>) -> Option<Seq<char>>;

/// What `std::path::Path::file_name` gives for the path `p`, as text.
pub uninterp spec fn file_name_of(p: Seq<char>) -> Option<Seq<char>>;

/// What `pathdiff::diff_paths(path, base)` gives, as text; `None` also when
/// the path it gives is not valid UTF-8.
pub uninterp spec fn path_difference(path: Seq<char>, base: Seq<char>) -> Option<Seq<char>>;

/// Calls `Path::new(p).parent()`.  Claims only that the outcome is
/// `parent_path(p)`.
#[verifier::external_body]
fn path_parent(p: &str) -> (r: Option<String>)
    ensures
        opt_view(r) == parent_path(p@),
{
    std::path::Path::new(p).parent().map(|q| q.to_string_lossy().into_owned())
}

/// Calls `Path::new(p).file_name()` and keeps a name that is valid UTF-8.
/// Claims only that the outcome is `file_name_of(p)`.
#[verifier::external_body]
fn path_file_name(p: &str) -> (r: Option<String>)
    ensures
        opt_view(r) == file_name_of(p@),
{
    std::path::Path::new(p).file_name().and_then(|n| n.to_str()).map(|n| n.to_string())
}

/// Calls `pathdiff::diff_paths(path, base)` and keeps a result that is valid
/// UTF-8.  Claims only that the outcome is `path_difference(path, base)`.
#[verifier::external_body]
fn diff_paths(path: &str, base: &str) -> (r: Option<String>)
    ensures
        opt_view(r) == path_difference(path@, base@),
{
    pathdiff::diff_paths(path, base).and_then(|p| p.to_str().map(|s| s.to_string()))
}

/// The file name part of a media URL: the text after its last `/`, cut at
/// the first `?`.
pub open spec fn url_file_name(url: Seq<char>) -> Seq<char> {
    let last = split_on(url, '/').last();
    match find_char(last, '?') {
        Some(i) => last.take(i),
        None => last,
    }
}

/// The name a media file is saved under: `[username][id][file]`, or
/// `[id][file]` when there is no user name.
pub open spec fn local_file_name(username: Option<Seq<char>>, id: Seq<char>, url: Seq<char>) -> Seq<
    char,
> {
    let u = or_empty(username);
    let f = url_file_name(url);
    if u.len() == 0 {
        "["@ + id + "]["@ + f + "]"@
    } else {
        "["@ + u + "]["@ + id + "]["@ + f + "]"@
    }
}

/// A Markdown link names the file the downloader writes: when the file name
/// part of a media URL needs no cleaning (its characters are all kept, none
/// is a path separator, and it holds no `..`), the Markdown's name for the
/// file is the downloader's name for a URL whose last path segment is that
/// part (`media_steps_ok`), for the same user name and tweet; and the
/// Markdown's path ends in that name.
pub proof fn lemma_markdown_names_downloaded_file(
    markdown_output: Seq<char>,
    download_dir: Seq<char>,
    username: Option<Seq<char>>,
    id: Seq<char>,
    url: Seq<char>,
)
    requires
        forall|k: int|
            0 <= k < url_file_name(url).len() ==> file_name_char(#[trigger] url_file_name(url)[k])
                && url_file_name(url)[k] != '/' && url_file_name(url)[k] != '\\',
        forall|k: int|
            0 <= k < url_file_name(url).len() - 1 ==> !(#[trigger] url_file_name(url)[k] == '.'
                && url_file_name(url)[k + 1] == '.'),
    ensures
        local_file_name(username, id, url) == media_prefix(username, id) + "["@ + safe_file_name(
            url_file_name(url),
        ) + "]"@,
        ends_with(
            local_media_path(markdown_output, download_dir, username, id, url),
            "/"@ + local_file_name(username, id, url),
        ),
{
    reveal_strlit("[");
    reveal_strlit("]");
    reveal_strlit("][");
    let n = url_file_name(url);
    lemma_safe_file_name_keeps(n);
    let u = or_empty(username);
    if u.len() == 0 {
        assert(local_file_name(username, id, url) =~= ("["@ + id + "]"@) + "["@ + n + "]"@);
    } else {
        assert(local_file_name(username, id, url) =~= ("["@ + u + "]["@ + id + "]"@) + "["@ + n
            + "]"@);
    }
    let local = local_file_name(username, id, url);
    let path = local_media_path(markdown_output, download_dir, username, id, url);
    let tail = "/"@ + local;
    assert(exists|h: Seq<char>| path == h + tail) by {
        let parent = match parent_path(markdown_output) {
            Some(p) => p,
            None => "."@,
        };
        match path_difference(download_dir, parent) {
            Some(rel) => if starts_with(rel, ".."@) {
                assert(path =~= rel + tail);
            } else if rel == "."@ || rel.len() == 0 {
                assert(path =~= ("./"@ + download_dir_name(download_dir)) + tail);
            } else {
                assert(path =~= ("./"@ + rel) + tail);
            },
            None => {
                assert(path =~= ("./"@ + download_dir_name(download_dir)) + tail);
            },
        }
    }
    assert(path.subrange(path.len() - tail.len(), path.len() as int) =~= tail);
}

/// The last component of the download directory, or `downloads`.
pub open spec fn download_dir_name(download_dir: Seq<char>) -> Seq<char> {
    match file_name_of(download_dir) {
        Some(n) => n,
        None => "downloads"@,
    }
}

/// The path of a downloaded media file as seen from the Markdown file: the
/// download directory relative to the Markdown file's directory, then the
/// file's local name.
pub open spec fn local_media_path(
    markdown_output: Seq<char>,
    download_dir: Seq<char>,
    username: Option<Seq<char>>,
    id: Seq<char>,
    url: Seq<char>,
) -> Seq<char> {
    let local = local_file_name(username, id, url);
    let parent = match parent_path(markdown_output) {
        Some(p) => p,
        None => "."@,
    };
    match path_difference(download_dir, parent) {
        Some(rel) => if starts_with(rel, ".."@) {
            rel + "/"@ + local
        } else if rel == "."@ || rel.len() == 0 {
            "./"@ + download_dir_name(download_dir) + "/"@ + local
        } else {
            "./"@ + rel + "/"@ + local
        },
        None => "./"@ + download_dir_name(download_dir) + "/"@ + local,
    }
}

/// The file name part of a media URL.
fn media_file_name(url: &str) -> (r: String)
    ensures
        r@ == url_file_name(url@),
{
    let v = chars_of(url);
    let ranges = split_ranges(&v, '/');
    proof {
        crate::text::lemma_split_on_nonempty(v@, '/');
    }
    let (from, to) = ranges[ranges.len() - 1];
    assert(v@.subrange(from as int, to as int) == split_on(v@, '/').last());
    match crate::text::find_char_in(&v, from, to, '?') {
        Some(q) => {
            assert(v@.subrange(from as int, to as int).take(q - from) == v@.subrange(
                from as int,
                q as int,
            ));
            string_of_range(&v, from, q)
        },
        None => string_of_range(&v, from, to),
    }
}

/// The last component of the download directory, or `downloads`.
fn dir_name(download_dir: &str) -> (r: String)
    ensures
        r@ == download_dir_name(download_dir@),
{
    match path_file_name(download_dir) {
        Some(n) => n,
        None => owned("downloads"),
    }
}

/// A media URL that is shown as a video: one naming `.mp4`, `.mov` or `.webm`.
pub open spec fn is_video_url(url: Seq<char>) -> bool {
    contains(url, ".mp4"@) || contains(url, ".mov"@) || contains(url, ".webm"@)
}

/// The MIME type of a video URL: WebM, QuickTime, or else MP4.
pub open spec fn video_mime(url: Seq<char>) -> Seq<char> {
    if contains(url, ".webm"@) {
        "video/webm"@
    } else if contains(url, ".mov"@) {
        "video/quicktime"@
    } else {
        "video/mp4"@
    }
}

/// The opening tag of an embedded video.
pub open spec fn video_open() -> Seq<char> {
    "<video controls width=\"100%\" style=\"max-width: 600px;\">\n"@
}

/// The style and end of an embedded image's tag.
pub open spec fn image_tail() -> Seq<char> {
    "\" style=\"max-width: 100%; height: auto; border-radius: 8px; box-shadow: 0 2px 8px rgba(0,0,0,0.1);\">\n"@
}

/// The Markdown of media item `i` (counted from 0) with URL `url`, saved at
/// `path`: an HTML `<video>` for a video, an `<img>` otherwise, then links to
/// the local file and the original URL.
pub open spec fn media_block(i: nat, url: Seq<char>, path: Seq<char>) -> Seq<char> {
    if is_video_url(url) {
        "🎥 **视频 "@ + decimal(i + 1) + "**:\n"@ + video_open() + "  <source src=\""@
            + escape_html(path) + "\" type=\""@ + escape_html(video_mime(url)) + "\">\n"@
            + "  您的浏览器不支持视频播放。\n"@ + "</video>\n"@ + "<br/>\n"@ + "<small>📎 [下载视频]("@
            + escape_html(path) + ") | [原始链接]("@ + escape_html(url) + ")</small>\n\n"@
    } else {
        "🖼️ **图片 "@ + decimal(i + 1) + "**:\n"@ + "<img src=\""@ + escape_html(path)
            + "\" alt=\"推文图片 "@ + decimal(i + 1) + image_tail() + "<br/>\n"@
            + "<small>📎 [查看原图]("@ + escape_html(path) + ") | [原始链接]("@ + escape_html(url)
            + ")</small>\n\n"@
    }
}

/// The Markdown of the media items `urls`, in order.
pub open spec fn media_blocks(
    markdown_output: Seq<char>,
    download_dir: Seq<char>,
    username: Option<Seq<char>>,
    id: Seq<char>,
    urls: Seq<Seq<char>>,
) -> Seq<char>
    decreases urls.len(),
{
    if urls.len() == 0 {
        Seq::empty()
    } else {
        let k = (urls.len() - 1) as nat;
        media_blocks(markdown_output, download_dir, username, id, urls.drop_last()) + media_block(
            k,
            urls.last(),
            local_media_path(markdown_output, download_dir, username, id, urls.last()),
        )
    }
}

/// The line giving the time a tweet was posted, when `chrono` can show it.
pub open spec fn time_line(created_at: Option<i64>) -> Seq<char> {
    match created_at {
        Some(t) => if utc_representable(t) {
            "**发布时间**: "@ + utc_text(t, TWEET_TIME_FORMAT@) + "\n\n"@
        } else {
            Seq::empty()
        },
        None => Seq::empty(),
    }
}

/// A line `prefix value suffix` when there is a value.
pub open spec fn opt_line(prefix: Seq<char>, value: Option<Seq<char>>, suffix: Seq<char>) -> Seq<
    char,
> {
    match value {
        Some(v) => prefix + v + suffix,
        None => Seq::empty(),
    }
}

/// The line marking a retweet.
pub open spec fn retweet_line(is_retweet: bool, by: Option<Seq<char>>) -> Seq<char> {
    if is_retweet {
        match by {
            Some(u) => "*🔄 转推自 @"@ + u + "*\n\n"@,
            None => "*🔄 转推*\n\n"@,
        }
    } else {
        Seq::empty()
    }
}

/// The link to the tweet on x.com, with `unknown` for a missing user name.
pub open spec fn link_line(username: Option<Seq<char>>, id: Seq<char>) -> Seq<char> {
    let u = match username {
        Some(u) => u,
        None => "unknown"@,
    };
    "**推文链接**: [https://x.com/"@ + u + "/status/"@ + id + "](https://x.com/"@ + u + "/status/"@
        + id + ")\n\n"@
}

/// The Markdown of one tweet, numbered `index`.
pub open spec fn tweet_markdown(
    markdown_output: Seq<char>,
    download_dir: Seq<char>,
    t: TweetContent,
    index: nat,
) -> Seq<char> {
    let username = opt_view(t.username);
    let urls = views(t.media_urls@);
    "## 推文 #"@ + decimal(index) + "\n\n"@ + time_line(t.created_at) + opt_line(
        "**用户名**: @"@,
        username,
        "\n\n"@,
    ) + opt_line("**显示名**: "@, opt_view(t.display_name), "\n\n"@) + "**推文内容**:\n\n"@ + t.text@
        + "\n\n"@ + retweet_line(t.is_retweet, opt_view(t.retweeted_by)) + opt_line(
        "*💬 回复 @"@,
        opt_view(t.reply_to),
        "*\n\n"@,
    ) + opt_line("*💭 引用推文: "@, opt_view(t.quote_tweet), "*\n\n"@) + (if urls.len() == 0 {
        Seq::empty()
    } else {
        "**媒体文件**:\n\n"@ + media_blocks(markdown_output, download_dir, username, t.id@, urls)
    }) + link_line(username, t.id@)
}

/// `prefix value suffix` when there is a value, else nothing.
fn opt_line_text(prefix: &str, value: &Option<String>, suffix: &str) -> (r: String)
    ensures
        r@ == opt_line(prefix@, opt_view(*value), suffix@),
{
    match value {
        Some(v) => {
            let mut out = owned(prefix);
            push_str(&mut out, v.as_str());
            push_str(&mut out, suffix);
            out
        },
        None => String::new(),
    }
}

/// The HTML escape of `s`.
fn escaped(s: &str) -> (r: String)
    ensures
        r@ == escape_html(s@),
{
    let mut out = String::new();
    push_escaped(&mut out, s);
    assert(Seq::<char>::empty() + escape_html(s@) == escape_html(s@));
    out
}

/// The decimal digits of `n`.
fn decimal_text(n: u64) -> (r: String)
    ensures
        r@ == decimal(n as nat),
{
    let mut out = String::new();
    push_decimal(&mut out, n);
    assert(Seq::<char>::empty() + decimal(n as nat) == decimal(n as nat));
    out
}

/// The Markdown of video item `i`.
fn video_block(n: u64, url: &str, path: &str, mime: &str) -> (r: String)
    ensures
        r@ == "🎥 **视频 "@ + decimal(n as nat) + "**:\n"@ + video_open() + "  <source src=\""@
            + escape_html(path@) + "\" type=\""@ + escape_html(mime@) + "\">\n"@
            + "  您的浏览器不支持视频播放。\n"@ + "</video>\n"@ + "<br/>\n"@ + "<small>📎 [下载视频]("@
            + escape_html(path@) + ") | [原始链接]("@ + escape_html(url@) + ")</small>\n\n"@,
{
    let p = escaped(path);
    let mut out = owned("🎥 **视频 ");
    push_str(&mut out, decimal_text(n).as_str());
    push_str(&mut out, "**:\n");
    push_str(&mut out, "<video controls width=\"100%\" style=\"max-width: 600px;\">\n");
    push_str(&mut out, "  <source src=\"");
    push_str(&mut out, p.as_str());
    push_str(&mut out, "\" type=\"");
    push_str(&mut out, escaped(mime).as_str());
    push_str(&mut out, "\">\n");
    push_str(&mut out, "  您的浏览器不支持视频播放。\n");
    push_str(&mut out, "</video>\n");
    push_str(&mut out, "<br/>\n");
    push_str(&mut out, "<small>📎 [下载视频](");
    push_str(&mut out, p.as_str());
    push_str(&mut out, ") | [原始链接](");
    push_str(&mut out, escaped(url).as_str());
    push_str(&mut out, ")</small>\n\n");
    out
}

/// The Markdown of image item `i`.
fn image_block(n: u64, url: &str, path: &str) -> (r: String)
    ensures
        r@ == "🖼️ **图片 "@ + decimal(n as nat) + "**:\n"@ + "<img src=\""@ + escape_html(path@)
            + "\" alt=\"推文图片 "@ + decimal(n as nat) + image_tail() + "<br/>\n"@
            + "<small>📎 [查看原图]("@ + escape_html(path@) + ") | [原始链接]("@ + escape_html(url@)
            + ")</small>\n\n"@,
{
    let p = escaped(path);
    let d = decimal_text(n);
    let mut out = owned("🖼️ **图片 ");
    push_str(&mut out, d.as_str());
    push_str(&mut out, "**:\n");
    push_str(&mut out, "<img src=\"");
    push_str(&mut out, p.as_str());
    push_str(&mut out, "\" alt=\"推文图片 ");
    push_str(&mut out, d.as_str());
    push_str(
        &mut out,
        "\" style=\"max-width: 100%; height: auto; border-radius: 8px; box-shadow: 0 2px 8px rgba(0,0,0,0.1);\">\n",
    );
    push_str(&mut out, "<br/>\n");
    push_str(&mut out, "<small>📎 [查看原图](");
    push_str(&mut out, p.as_str());
    push_str(&mut out, ") | [原始链接](");
    push_str(&mut out, escaped(url).as_str());
    push_str(&mut out, ")</small>\n\n");
    out
}

/// The Markdown of media item `i`.
fn media_block_text(i: usize, url: &str, path: &str) -> (r: String)
    requires
        i < usize::MAX,
    ensures
        r@ == media_block(i as nat, url@, path@),
{
    let n = (i + 1) as u64;
    assert(n as nat == i as nat + 1);
    let mp4 = contains_str(url, ".mp4");
    let mov = contains_str(url, ".mov");
    let webm = contains_str(url, ".webm");
    if mp4 || mov || webm {
        let mime = if webm {
            "video/webm"
        } else if mov {
            "video/quicktime"
        } else {
            "video/mp4"
        };
        video_block(n, url, path, mime)
    } else {
        image_block(n, url, path)
    }
}

/// The time line of a tweet.
fn time_line_text(created_at: Option<i64>) -> (r: String)
    ensures
        r@ == time_line(created_at),
{
    match created_at {
        Some(t) => match format_timestamp(t, TWEET_TIME_FORMAT) {
            Some(text) => {
                let mut out = owned("**发布时间**: ");
                push_str(&mut out, text.as_str());
                push_str(&mut out, "\n\n");
                out
            },
            None => String::new(),
        },
        None => String::new(),
    }
}

/// The retweet line of a tweet.
fn retweet_line_text(is_retweet: bool, by: &Option<String>) -> (r: String)
    ensures
        r@ == retweet_line(is_retweet, opt_view(*by)),
{
    if is_retweet {
        match by {
            Some(u) => {
                let mut out = owned("*🔄 转推自 @");
                push_str(&mut out, u.as_str());
                push_str(&mut out, "*\n\n");
                out
            },
            None => owned("*🔄 转推*\n\n"),
        }
    } else {
        String::new()
    }
}

/// The link line of a tweet.
fn link_line_text(username: &Option<String>, id: &str) -> (r: String)
    ensures
        r@ == link_line(opt_view(*username), id@),
{
    let u = match username {
        Some(u) => u.as_str(),
        None => "unknown",
    };
    let mut out = owned("**推文链接**: [https://x.com/");
    push_str(&mut out, u);
    push_str(&mut out, "/status/");
    push_str(&mut out, id);
    push_str(&mut out, "](https://x.com/");
    push_str(&mut out, u);
    push_str(&mut out, "/status/");
    push_str(&mut out, id);
    push_str(&mut out, ")\n\n");
    out
}

/// `a` is shown before `b`: both have times and `a`'s is later, or only `a`
/// has one.
pub open spec fn shown_before(a: Option<i64>, b: Option<i64>) -> bool {
    match (a, b) {
        (Some(x), Some(y)) => x > y,
        (Some(_), None) => true,
        _ => false,
    }
}

/// The times of a list of tweets.
pub open spec fn times_of(ts: Seq<TweetContent>) -> Seq<Option<i64>> {
    ts.map_values(|t: TweetContent| t.created_at)
}

/// `order` with `i` placed before the first entry it is shown before.
pub open spec fn insert_in_order(order: Seq<usize>, times: Seq<Option<i64>>, i: usize) -> Seq<usize>
    decreases order.len(),
{
    if order.len() == 0 {
        seq![i]
    } else if shown_before(times[i as int], times[order[0] as int]) {
        seq![i] + order
    } else {
        seq![order[0]] + insert_in_order(order.drop_first(), times, i)
    }
}

/// The order in which the first `n` tweets are shown: newest first, tweets
/// without a time last, and tweets that tie in the order they were added.
pub open spec fn display_order(times: Seq<Option<i64>>, n: nat) -> Seq<usize>
    decreases n,
{
    if n == 0 {
        Seq::empty()
    } else {
        insert_in_order(display_order(times, (n - 1) as nat), times, (n - 1) as usize)
    }
}

/// Inserting before the first entry that `i` is shown before.
proof fn lemma_insert_at_first(order: Seq<usize>, times: Seq<Option<i64>>, i: usize, p: int)
    requires
        0 <= p <= order.len(),
        forall|k: int| 0 <= k < p ==> !shown_before(times[i as int], times[order[k] as int]),
        p < order.len() ==> shown_before(times[i as int], times[order[p] as int]),
    ensures
        insert_in_order(order, times, i) == order.take(p) + seq![i] + order.skip(p),
    decreases order.len(),
{
    if order.len() == 0 {
        assert(order.take(p) + seq![i] + order.skip(p) =~= seq![i]);
    } else if p == 0 {
        assert(order.take(p) + seq![i] + order.skip(p) =~= seq![i] + order);
    } else {
        let rest = order.drop_first();
        assert forall|k: int| 0 <= k < p - 1 implies !shown_before(
            times[i as int],
            times[rest[k] as int],
        ) by {
            assert(rest[k] == order[k + 1]);
        }
        if p < order.len() {
            assert(rest[p - 1] == order[p]);
        }
        lemma_insert_at_first(rest, times, i, p - 1);
        assert(seq![order[0]] + (rest.take(p - 1) + seq![i] + rest.skip(p - 1)) =~= order.take(p)
            + seq![i] + order.skip(p));
    }
}

/// No tweet in `order` is shown before one that comes earlier in it.
pub open spec fn newest_first(order: Seq<usize>, times: Seq<Option<i64>>) -> bool {
    forall|a: int, b: int|
        0 <= a < b < order.len() ==> !shown_before(
            times[#[trigger] order[b] as int],
            times[#[trigger] order[a] as int],
        )
}

/// Tweets that tie (neither is shown before the other) stay in the order
/// they were added.
pub open spec fn ties_in_added_order(order: Seq<usize>, times: Seq<Option<i64>>) -> bool {
    forall|a: int, b: int|
        0 <= a < b < order.len() && !shown_before(
            times[#[trigger] order[a] as int],
            times[#[trigger] order[b] as int],
        ) ==> order[a] < order[b]
}

/// Inserting `i`, larger than every entry of a sorted order, keeps it
/// sorted and adds exactly `i`.
proof fn lemma_insert_in_order(order: Seq<usize>, times: Seq<Option<i64>>, i: usize)
    requires
        forall|k: int| 0 <= k < order.len() ==> #[trigger] order[k] < i,
        order.no_duplicates(),
        newest_first(order, times),
        ties_in_added_order(order, times),
    ensures
        ({
            let r = insert_in_order(order, times, i);
            &&& r.len() == order.len() + 1
            &&& forall|x: usize| #[trigger] r.contains(x) <==> (order.contains(x) || x == i)
            &&& r.no_duplicates()
            &&& newest_first(r, times)
            &&& ties_in_added_order(r, times)
        }),
    decreases order.len(),
{
    let r = insert_in_order(order, times, i);
    if order.len() == 0 {
        assert(r == seq![i]);
        assert forall|x: usize| #[trigger] r.contains(x) <==> (order.contains(x) || x == i) by {
            if r.contains(x) {
                assert(r[0] == i);
            }
            if x == i {
                assert(r[0] == i);
            }
        }
    } else if shown_before(times[i as int], times[order[0] as int]) {
        assert(r == seq![i] + order);
        assert forall|x: usize| #[trigger] r.contains(x) <==> (order.contains(x) || x == i) by {
            if r.contains(x) {
                let k = choose|k: int| 0 <= k < r.len() && r[k] == x;
                if k > 0 {
                    assert(order[k - 1] == x);
                }
            }
            if order.contains(x) {
                let k = choose|k: int| 0 <= k < order.len() && order[k] == x;
                assert(r[k + 1] == x);
            }
            if x == i {
                assert(r[0] == i);
            }
        }
        assert forall|a: int, b: int| 0 <= a < b < r.len() && r[a] == r[b] implies false by {
            if a == 0 {
                assert(order[b - 1] < i);
            } else {
                assert(r[a] == order[a - 1] && r[b] == order[b - 1]);
            }
        }
        assert forall|a: int, b: int| 0 <= a < b < r.len() implies !shown_before(
            times[#[trigger] r[b] as int],
            times[#[trigger] r[a] as int],
        ) by {
            assert(r[b] == order[b - 1]);
            if a == 0 {
                if b - 1 > 0 {
                    assert(!shown_before(times[order[b - 1] as int], times[order[0] as int]));
                }
            } else {
                assert(r[a] == order[a - 1]);
            }
        }
        assert forall|a: int, b: int|
            0 <= a < b < r.len() && !shown_before(
                times[#[trigger] r[a] as int],
                times[#[trigger] r[b] as int],
            ) implies r[a] < r[b] by {
            assert(r[b] == order[b - 1]);
            if a == 0 {
                if b - 1 > 0 {
                    assert(!shown_before(times[order[b - 1] as int], times[order[0] as int]));
                }
            } else {
                assert(r[a] == order[a - 1]);
            }
        }
    } else {
        let rest = order.drop_first();
        assert forall|k: int| 0 <= k < rest.len() implies #[trigger] rest[k] < i by {
            assert(rest[k] == order[k + 1]);
        }
        assert forall|a: int, b: int| 0 <= a < b < rest.len() && rest[a] == rest[b] implies false by {
            assert(rest[a] == order[a + 1] && rest[b] == order[b + 1]);
        }
        assert forall|a: int, b: int| 0 <= a < b < rest.len() implies !shown_before(
            times[#[trigger] rest[b] as int],
            times[#[trigger] rest[a] as int],
        ) by {
            assert(rest[a] == order[a + 1] && rest[b] == order[b + 1]);
        }
        assert forall|a: int, b: int|
            0 <= a < b < rest.len() && !shown_before(
                times[#[trigger] rest[a] as int],
                times[#[trigger] rest[b] as int],
            ) implies rest[a] < rest[b] by {
            assert(rest[a] == order[a + 1] && rest[b] == order[b + 1]);
        }
        lemma_insert_in_order(rest, times, i);
        let t = insert_in_order(rest, times, i);
        assert(r == seq![order[0]] + t);
        assert forall|x: usize| #[trigger] rest.contains(x) <==> (order.contains(x) && x != order[0]) by {
            if rest.contains(x) {
                let k = choose|k: int| 0 <= k < rest.len() && rest[k] == x;
                assert(order[k + 1] == x);
            }
            if order.contains(x) && x != order[0] {
                let k = choose|k: int| 0 <= k < order.len() && order[k] == x;
                assert(rest[k - 1] == x);
            }
        }
        assert forall|x: usize| #[trigger] r.contains(x) <==> (order.contains(x) || x == i) by {
            if r.contains(x) {
                let k = choose|k: int| 0 <= k < r.len() && r[k] == x;
                if k > 0 {
                    assert(t[k - 1] == x);
                    assert(t.contains(x));
                } else {
                    assert(order[0] == x);
                }
            }
            if order.contains(x) || x == i {
                if x == order[0] {
                    assert(r[0] == x);
                } else {
                    assert(t.contains(x));
                    let k = choose|k: int| 0 <= k < t.len() && t[k] == x;
                    assert(r[k + 1] == x);
                }
            }
        }
        assert forall|a: int, b: int| 0 <= a < b < r.len() && r[a] == r[b] implies false by {
            if a == 0 {
                assert(t[b - 1] == r[b]);
                assert(t.contains(r[b]));
                assert(order[0] < i);
            } else {
                assert(r[a] == t[a - 1] && r[b] == t[b - 1]);
            }
        }
        assert forall|a: int, b: int| 0 <= a < b < r.len() implies !shown_before(
            times[#[trigger] r[b] as int],
            times[#[trigger] r[a] as int],
        ) by {
            assert(r[b] == t[b - 1]);
            if a == 0 {
                assert(t.contains(r[b]));
                if r[b] != i {
                    let k = choose|k: int| 0 <= k < order.len() && order[k] == r[b];
                    assert(k != 0);
                }
            } else {
                assert(r[a] == t[a - 1]);
            }
        }
        assert forall|a: int, b: int|
            0 <= a < b < r.len() && !shown_before(
                times[#[trigger] r[a] as int],
                times[#[trigger] r[b] as int],
            ) implies r[a] < r[b] by {
            assert(r[b] == t[b - 1]);
            if a == 0 {
                assert(t.contains(r[b]));
                if r[b] != i {
                    let k = choose|k: int| 0 <= k < order.len() && order[k] == r[b];
                    assert(k != 0);
                }
            } else {
                assert(r[a] == t[a - 1]);
            }
        }
    }
}

/// The Markdown lists every tweet exactly once, newest first, tweets without
/// a time last, and tweets that tie in the order they were added: the
/// display order of `n` tweets is a permutation of `0..n` that is sorted by
/// time and stable.
pub proof fn lemma_display_order(times: Seq<Option<i64>>, n: nat)
    requires
        n <= usize::MAX,
    ensures
        ({
            let r = display_order(times, n);
            &&& r.len() == n
            &&& forall|k: usize| k < n ==> #[trigger] r.contains(k)
            &&& forall|k: int| 0 <= k < n ==> #[trigger] r[k] < n
            &&& r.no_duplicates()
            &&& newest_first(r, times)
            &&& ties_in_added_order(r, times)
        }),
    decreases n,
{
    let r = display_order(times, n);
    if n == 0 {
        assert(r == Seq::<usize>::empty());
    } else {
        let prev = display_order(times, (n - 1) as nat);
        lemma_display_order(times, (n - 1) as nat);
        let i = (n - 1) as usize;
        assert forall|k: int| 0 <= k < prev.len() implies #[trigger] prev[k] < i by {}
        lemma_insert_in_order(prev, times, i);
        assert forall|k: usize| k < n implies #[trigger] r.contains(k) by {
            if k < n - 1 {
                assert(prev.contains(k));
            }
        }
        assert forall|k: int| 0 <= k < n implies #[trigger] r[k] < n by {
            assert(r.contains(r[k]));
            if r[k] != i {
                let j = choose|j: int| 0 <= j < prev.len() && prev[j] == r[k];
            }
        }
    }
}

/// The username shown in the title: the first tweet's, or `Unknown`.
pub open spec fn title_username(ts: Seq<TweetContent>) -> Seq<char> {
    match opt_view(ts[0].username) {
        Some(u) => u,
        None => "Unknown"@,
    }
}

/// The Markdown of the tweets `ts` taken in `order`, numbered from 1, each
/// followed by a rule.
pub open spec fn tweets_section(
    markdown_output: Seq<char>,
    download_dir: Seq<char>,
    ts: Seq<TweetContent>,
    order: Seq<usize>,
) -> Seq<char>
    decreases order.len(),
{
    if order.len() == 0 {
        Seq::empty()
    } else {
        tweets_section(markdown_output, download_dir, ts, order.drop_last()) + tweet_markdown(
            markdown_output,
            download_dir,
            ts[order.last() as int],
            order.len(),
        ) + "\n---\n\n"@
    }
}

/// The whole backup: empty when there are no tweets; otherwise a title with
/// the first tweet's user name, the backup time, the number of tweets, a
/// rule, and the tweets newest first.
pub open spec fn backup_markdown(
    markdown_output: Seq<char>,
    download_dir: Seq<char>,
    ts: Seq<TweetContent>,
    backup_time: Seq<char>,
) -> Seq<char> {
    if ts.len() == 0 {
        Seq::empty()
    } else {
        "# "@ + title_username(ts) + " 的推文备份\n\n"@ + "备份时间: "@ + backup_time + "\n"@
            + "推文总数: "@ + decimal(ts.len()) + "\n\n"@ + "---\n\n"@ + tweets_section(
            markdown_output,
            download_dir,
            ts,
            display_order(times_of(ts), ts.len()),
        )
    }
}

/// The backup names its user in its title: a backup of tweets whose first
/// tweet has the user name `u` begins `# u 的推文备份`, and with `Unknown`
/// in place of `u` when the first tweet has no user name; then come the
/// backup time, the number of tweets and a rule.
pub proof fn lemma_backup_title(
    markdown_output: Seq<char>,
    download_dir: Seq<char>,
    ts: Seq<TweetContent>,
    backup_time: Seq<char>,
)
    requires
        ts.len() > 0,
    ensures
        ({
            let who = match ts[0].username {
                Some(u) => u@,
                None => "Unknown"@,
            };
            starts_with(
                backup_markdown(markdown_output, download_dir, ts, backup_time),
                "# "@ + who + " 的推文备份\n\n"@ + "备份时间: "@ + backup_time + "\n"@ + "推文总数: "@
                    + decimal(ts.len()) + "\n\n"@ + "---\n\n"@,
            )
        }),
{
    let who = match ts[0].username {
        Some(u) => u@,
        None => "Unknown"@,
    };
    let head = "# "@ + who + " 的推文备份\n\n"@ + "备份时间: "@ + backup_time + "\n"@ + "推文总数: "@
        + decimal(ts.len()) + "\n\n"@ + "---\n\n"@;
    let doc = backup_markdown(markdown_output, download_dir, ts, backup_time);
    assert(title_username(ts) == who);
    let rest = tweets_section(
        markdown_output,
        download_dir,
        ts,
        display_order(times_of(ts), ts.len()),
    );
    assert(doc =~= head + rest);
    assert(doc.subrange(0, head.len() as int) =~= head);
}

/// A formatted tweet begins with its number: `## 推文 #<index>`.
pub proof fn lemma_tweet_heading(
    markdown_output: Seq<char>,
    download_dir: Seq<char>,
    t: TweetContent,
    index: nat,
)
    ensures
        starts_with(
            tweet_markdown(markdown_output, download_dir, t, index),
            "## 推文 #"@ + decimal(index) + "\n\n"@,
        ),
{
    let head = "## 推文 #"@ + decimal(index) + "\n\n"@;
    let doc = tweet_markdown(markdown_output, download_dir, t, index);
    assert(doc.subrange(0, head.len() as int) =~= head);
}

/// A formatted tweet ends with a link to the tweet on x.com: the address
/// `https://x.com/<user>/status/<id>` (user `unknown` when the tweet has no
/// user name), shown and linked.
pub proof fn lemma_tweet_link(
    markdown_output: Seq<char>,
    download_dir: Seq<char>,
    t: TweetContent,
    index: nat,
)
    ensures
        ({
            let user = match t.username {
                Some(u) => u@,
                None => "unknown"@,
            };
            let address = "https://x.com/"@ + user + "/status/"@ + t.id@;
            ends_with(
                tweet_markdown(markdown_output, download_dir, t, index),
                "**推文链接**: ["@ + address + "]("@ + address + ")\n\n"@,
            )
        }),
{
    reveal_strlit("**推文链接**: [https://x.com/");
    reveal_strlit("**推文链接**: [");
    reveal_strlit("https://x.com/");
    reveal_strlit("](https://x.com/");
    reveal_strlit("](");
    let user = match t.username {
        Some(u) => u@,
        None => "unknown"@,
    };
    let address = "https://x.com/"@ + user + "/status/"@ + t.id@;
    let tail = "**推文链接**: ["@ + address + "]("@ + address + ")\n\n"@;
    let link = link_line(opt_view(t.username), t.id@);
    assert(link =~= tail);
    let doc = tweet_markdown(markdown_output, download_dir, t, index);
    let front = doc.subrange(0, doc.len() - link.len());
    assert(doc =~= front + link);
    assert(doc.subrange(doc.len() - tail.len(), doc.len() as int) =~= tail);
}

/// The value of an optional JSON member, or `Null`.
pub open spec fn or_null(o: Option<Json>) -> Json {
    match o {
        Some(j) => j,
        None => Json::Null,
    }
}

/// Whether a tweet is a retweet (`retweeted`), and by whom; the API's tweet
/// object does not say by whom.
pub open spec fn retweet_info(legacy: Json) -> (bool, Option<Seq<char>>) {
    (
        match bool_of(legacy.field("retweeted"@)) {
            Some(b) => b,
            None => false,
        },
        None,
    )
}

/// Whether `c` is the content read out of the timeline entry `data`.
pub open spec fn content_of(c: TweetContent, data: Json) -> bool {
    let obj = tweet_object(data);
    let legacy = or_null(obj.field("legacy"@));
    &&& c.id@ == match text_of(obj.field("rest_id"@)) {
        Some(i) => i,
        None => "unknown"@,
    }
    &&& c.text@ == match text_of(legacy.field("full_text"@)) {
        Some(t) => t,
        None => Seq::empty(),
    }
    &&& c.created_at == tweet_instant(obj)
    &&& opt_view(c.username) == user_field(obj, "screen_name"@)
    &&& opt_view(c.display_name) == user_field(obj, "name"@)
    &&& views(c.media_urls@) == tweet_media_urls(obj)
    &&& c.is_retweet == retweet_info(legacy).0
    &&& opt_view(c.retweeted_by) == retweet_info(legacy).1
    &&& opt_view(c.reply_to) == text_of(legacy.field("in_reply_to_screen_name"@))
    &&& opt_view(c.quote_tweet) == text_of(legacy.field("quoted_status_id"@))
}

/// The text of an optional string slice, as an owned string.
fn owned_opt(o: Option<&str>) -> (r: Option<String>)
    ensures
        opt_view(r) == crate::json::str_view(o),
{
    match o {
        Some(s) => Some(owned(s)),
        None => None,
    }
}

/// The order in which tweets are shown.
pub fn display_order_of(tweets: &Vec<TweetContent>) -> (r: Vec<usize>)
    ensures
        r@ == display_order(times_of(tweets@), tweets@.len()),
        r@.len() == tweets@.len(),
        forall|k: int| 0 <= k < r@.len() ==> #[trigger] r@[k] < tweets@.len(),
{
    let ghost times = times_of(tweets@);
    let mut order: Vec<usize> = Vec::new();
    let mut i: usize = 0;
    while i < tweets.len()
        invariant
            i <= tweets.len(),
            times == times_of(tweets@),
            order@ == display_order(times, i as nat),
            forall|k: int| 0 <= k < order@.len() ==> #[trigger] order@[k] < i,
            order@.len() == i,
        decreases tweets.len() - i,
    {
        let t = tweets[i].created_at;
        assert(t == times[i as int]);
        let mut p: usize = 0;
        while p < order.len()
            invariant
                p <= order.len(),
                order@.len() == i < tweets.len(),
                forall|k: int| 0 <= k < order@.len() ==> #[trigger] order@[k] < i,
                times == times_of(tweets@),
                t == times[i as int],
                forall|k: int|
                    0 <= k < p ==> !shown_before(times[i as int], #[trigger] times[order@[k] as int]),
            ensures
                p <= order.len(),
                forall|k: int|
                    0 <= k < p ==> !shown_before(times[i as int], #[trigger] times[order@[k] as int]),
                p < order.len() ==> shown_before(times[i as int], times[order@[p as int] as int]),
            decreases order.len() - p,
        {
            let e = tweets[order[p]].created_at;
            assert(e == times[order@[p as int] as int]);
            let before = match (t, e) {
                (Some(x), Some(y)) => x > y,
                (Some(_), None) => true,
                _ => false,
            };
            if before {
                break;
            }
            p = p + 1;
        }
        proof {
            lemma_insert_at_first(order@, times, i, p as int);
        }
        let ghost prev = order@;
        order.insert(p, i);
        assert(order@ == prev.take(p as int) + seq![i] + prev.skip(p as int));
        assert(order@ == display_order(times, (i + 1) as nat));
        assert forall|k: int| 0 <= k < order@.len() implies #[trigger] order@[k] < i + 1 by {
            if k < p {
                assert(order@[k] == prev[k]);
            } else if k > p {
                assert(order@[k] == prev[k - 1]);
            }
        }
        i = i + 1;
    }
    order
}

impl MarkdownGenerator {
    /// A generator with no tweets yet.
    pub fn new(config: Config) -> (r: MarkdownGenerator)
        ensures
            r.config == config,
            r.tweets@.len() == 0,
    {
        MarkdownGenerator { config, tweets: Vec::new() }
    }

    /// Adds a tweet after those already added.
    pub fn add_tweet(&mut self, tweet: TweetContent)
        ensures
            final(self).config == old(self).config,
            final(self).tweets@ == old(self).tweets@.push(tweet),
    {
        self.tweets.push(tweet);
    }

    /// The path the Markdown uses for media `media_url` of `tweet`.
    pub fn generate_local_media_path(
        &self,
        tweet: &TweetContent,
        media_index: usize,
        media_url: &str,
    ) -> (r: String)
        ensures
            r@ == local_media_path(
                self.config.markdown_output@,
                self.config.download_dir@,
                opt_view(tweet.username),
                tweet.id@,
                media_url@,
            ),
    {
        let clean = media_file_name(media_url);
        let mut local = owned("[");
        match &tweet.username {
            Some(u) => {
                if u.as_str().is_empty() {
                } else {
                    push_str(&mut local, u.as_str());
                    push_str(&mut local, "][");
                }
            },
            None => {},
        }
        push_str(&mut local, tweet.id.as_str());
        push_str(&mut local, "][");
        push_str(&mut local, clean.as_str());
        push_str(&mut local, "]");
        assert(local@ == local_file_name(opt_view(tweet.username), tweet.id@, media_url@));
        let parent = match path_parent(self.config.markdown_output.as_str()) {
            Some(p) => p,
            None => owned("."),
        };
        let download_dir = self.config.download_dir.as_str();
        let mut out = String::new();
        match diff_paths(download_dir, parent.as_str()) {
            Some(rel) => {
                if starts_with_str(rel.as_str(), "..") {
                    push_str(&mut out, rel.as_str());
                } else if same_text(rel.as_str(), ".") || rel.as_str().is_empty() {
                    push_str(&mut out, "./");
                    let n = dir_name(download_dir);
                    push_str(&mut out, n.as_str());
                } else {
                    push_str(&mut out, "./");
                    push_str(&mut out, rel.as_str());
                }
            },
            None => {
                push_str(&mut out, "./");
                let n = dir_name(download_dir);
                push_str(&mut out, n.as_str());
            },
        }
        push_str(&mut out, "/");
        push_str(&mut out, local.as_str());
        out
    }
    /// The media section of a tweet.
    fn media_section(&self, tweet: &TweetContent) -> (r: String)
        ensures
            r@ == (if tweet.media_urls@.len() == 0 {
                Seq::empty()
            } else {
                "**媒体文件**:\n\n"@ + media_blocks(
                    self.config.markdown_output@,
                    self.config.download_dir@,
                    opt_view(tweet.username),
                    tweet.id@,
                    views(tweet.media_urls@),
                )
            }),
    {
        if tweet.media_urls.len() == 0 {
            return String::new();
        }
        let ghost urls = views(tweet.media_urls@);
        let ghost username = opt_view(tweet.username);
        let ghost md = self.config.markdown_output@;
        let ghost dd = self.config.download_dir@;
        let mut out = owned("**媒体文件**:\n\n");
        let mut i: usize = 0;
        assert(urls.take(0) == Seq::<Seq<char>>::empty());
        assert(out@ + Seq::<char>::empty() == out@);
        while i < tweet.media_urls.len()
            invariant
                i <= tweet.media_urls.len(),
                urls == views(tweet.media_urls@),
                username == opt_view(tweet.username),
                md == self.config.markdown_output@,
                dd == self.config.download_dir@,
                out@ == "**媒体文件**:\n\n"@ + media_blocks(md, dd, username, tweet.id@, urls.take(i as int)),
            decreases tweet.media_urls.len() - i,
        {
            assert(urls.take(i + 1).drop_last() == urls.take(i as int));
            assert(urls.take(i + 1).last() == tweet.media_urls@[i as int]@);
            let url = tweet.media_urls[i].as_str();
            let path = self.generate_local_media_path(tweet, i, url);
            let block = media_block_text(i, url, path.as_str());
            let ghost before = out@;
            push_str(&mut out, block.as_str());
            assert(out@ == "**媒体文件**:\n\n"@ + media_blocks(md, dd, username, tweet.id@, urls.take(i + 1)))
                by {
                assert(before + block@ == "**媒体文件**:\n\n"@ + (media_blocks(md, dd, username, tweet.id@, urls.take(i as int)) + block@));
            }
            i = i + 1;
        }
        assert(urls.take(urls.len() as int) == urls);
        out
    }

    /// The Markdown of one tweet, numbered `index`.
    pub fn format_single_tweet(&self, tweet: &TweetContent, index: usize) -> (r: String)
        ensures
            r@ == tweet_markdown(
                self.config.markdown_output@,
                self.config.download_dir@,
                *tweet,
                index as nat,
            ),
    {
        let mut out = owned("## 推文 #");
        push_str(&mut out, decimal_text(index as u64).as_str());
        push_str(&mut out, "\n\n");
        push_str(&mut out, time_line_text(tweet.created_at).as_str());
        push_str(&mut out, opt_line_text("**用户名**: @", &tweet.username, "\n\n").as_str());
        push_str(&mut out, opt_line_text("**显示名**: ", &tweet.display_name, "\n\n").as_str());
        push_str(&mut out, "**推文内容**:\n\n");
        push_str(&mut out, tweet.text.as_str());
        push_str(&mut out, "\n\n");
        push_str(&mut out, retweet_line_text(tweet.is_retweet, &tweet.retweeted_by).as_str());
        push_str(&mut out, opt_line_text("*💬 回复 @", &tweet.reply_to, "*\n\n").as_str());
        push_str(&mut out, opt_line_text("*💭 引用推文: ", &tweet.quote_tweet, "*\n\n").as_str());
        push_str(&mut out, self.media_section(tweet).as_str());
        push_str(&mut out, link_line_text(&tweet.username, tweet.id.as_str()).as_str());
        out
    }
    /// The whole backup, with `backup_time` as the time it was made.
    pub fn render_markdown(&self, backup_time: &str) -> (r: String)
        ensures
            r@ == backup_markdown(
                self.config.markdown_output@,
                self.config.download_dir@,
                self.tweets@,
                backup_time@,
            ),
    {
        if self.tweets.len() == 0 {
            return String::new();
        }
        let ghost md = self.config.markdown_output@;
        let ghost dd = self.config.download_dir@;
        let ghost ts = self.tweets@;
        let mut out = owned("# ");
        match &self.tweets[0].username {
            Some(u) => push_str(&mut out, u.as_str()),
            None => push_str(&mut out, "Unknown"),
        }
        push_str(&mut out, " 的推文备份\n\n");
        push_str(&mut out, "备份时间: ");
        push_str(&mut out, backup_time);
        push_str(&mut out, "\n");
        push_str(&mut out, "推文总数: ");
        push_str(&mut out, decimal_text(self.tweets.len() as u64).as_str());
        push_str(&mut out, "\n\n");
        push_str(&mut out, "---\n\n");
        let ghost head = out@;
        let order = display_order_of(&self.tweets);
        let ghost ord = order@;
        let mut k: usize = 0;
        assert(ord.take(0) == Seq::<usize>::empty());
        assert(head + Seq::<char>::empty() == head);
        while k < order.len()
            invariant
                k <= order.len(),
                ord == order@,
                ts == self.tweets@,
                md == self.config.markdown_output@,
                dd == self.config.download_dir@,
                order@.len() == self.tweets@.len(),
                forall|j: int| 0 <= j < order@.len() ==> #[trigger] order@[j] < self.tweets@.len(),
                out@ == head + tweets_section(md, dd, ts, ord.take(k as int)),
            decreases order.len() - k,
        {
            assert(ord.take(k + 1).drop_last() == ord.take(k as int));
            assert(ord.take(k + 1).last() == ord[k as int]);
            let idx = order[k];
            let part = self.format_single_tweet(&self.tweets[idx], k + 1);
            let ghost before = out@;
            push_str(&mut out, part.as_str());
            push_str(&mut out, "\n---\n\n");
            assert(out@ == head + tweets_section(md, dd, ts, ord.take(k + 1))) by {
                assert(before + part@ + "\n---\n\n"@ == head + (tweets_section(
                    md,
                    dd,
                    ts,
                    ord.take(k as int),
                ) + part@ + "\n---\n\n"@));
            }
            k = k + 1;
        }
        assert(ord.take(ord.len() as int) == ord);
        out
    }

    /// The whole backup, stamped with the present local time.  The time line
    /// depends on the clock; everything else is `render_markdown`'s.
    pub fn generate_markdown(&self) -> (r: String)
        ensures
            exists|t: Seq<char>|
                r@ == backup_markdown(
                    self.config.markdown_output@,
                    self.config.download_dir@,
                    self.tweets@,
                    t,
                ),
    {
        let now = local_now_text(BACKUP_TIME_FORMAT);
        self.render_markdown(now.as_str())
    }

    /// Whether a tweet is a retweet, and by whom.
    pub fn extract_retweet_info(legacy: &Json) -> (r: (bool, Option<String>))
        ensures
            r.0 == retweet_info(*legacy).0,
            opt_view(r.1) == retweet_info(*legacy).1,
    {
        let is_retweet = match legacy.get("retweeted") {
            Some(v) => match v.as_bool() {
                Some(b) => b,
                None => false,
            },
            None => false,
        };
        (is_retweet, None)
    }

    /// The user a tweet replies to (`in_reply_to_screen_name`).
    pub fn extract_reply_info(legacy: &Json) -> (r: Option<String>)
        ensures
            opt_view(r) == text_of(legacy.field("in_reply_to_screen_name"@)),
    {
        owned_opt(str_at(legacy.get("in_reply_to_screen_name")))
    }

    /// The id of the tweet a tweet quotes (`quoted_status_id`).
    pub fn extract_quote_tweet_info(legacy: &Json) -> (r: Option<String>)
        ensures
            opt_view(r) == text_of(legacy.field("quoted_status_id"@)),
    {
        owned_opt(str_at(legacy.get("quoted_status_id")))
    }

    /// Reads the content of a tweet out of a timeline entry.
    pub fn extract_tweet_content(tweet_data: &Json) -> (r: TweetContent)
        ensures
            content_of(r, *tweet_data),
    {
        let tweet_obj = match extract_tweet_object(tweet_data) {
            Some(o) => o,
            None => tweet_data,
        };
        let id = match str_at(tweet_obj.get("rest_id")) {
            Some(i) => owned(i),
            None => owned("unknown"),
        };
        let null = Json::Null;
        let legacy = match tweet_obj.get("legacy") {
            Some(l) => l,
            None => &null,
        };
        let text = match str_at(legacy.get("full_text")) {
            Some(t) => owned(t),
            None => String::new(),
        };
        let created_at = extract_tweet_timestamp_datetime(tweet_obj);
        let (username, display_name) = extract_user_info(tweet_obj);
        let media_urls = extract_media_urls(tweet_obj);
        let (is_retweet, retweeted_by) = Self::extract_retweet_info(legacy);
        let reply_to = Self::extract_reply_info(legacy);
        let quote_tweet = Self::extract_quote_tweet_info(legacy);
        TweetContent {
            id,
            text,
            created_at,
            username,
            display_name,
            media_urls,
            is_retweet,
            retweeted_by,
            reply_to,
            quote_tweet,
        }
    }
}

} // verus!

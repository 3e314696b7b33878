//! Which media files to download, under which names, and the record of
//! tweets whose media are done.
use vstd::prelude::*;
use vstd::hash_set::StringHashSet;

use crate::config::Config;
use crate::json::Json;
use crate::setup::or_empty;
use crate::text::{
    alphanumeric, chars_of, ends_with, ends_with_str, is_alphanumeric_char, lemma_split_on_extend,
    lemma_split_on_nonempty, owned, pieces, push_char, push_str, same_text, split_on, split_ranges,
    trim, trim_range, trim_start,
};
use crate::tweet_parser::{
    extract_media_urls, extract_tweet_object, extract_tweet_timestamp_seconds, extract_username,
    opt_view, tweet_media_urls, tweet_object, tweet_seconds, user_field, views,
};

verus! {

/// What `url::Host::parse` makes of a host name: `None` when it refuses it,
/// `Some(None)` for an IP address, `Some(Some(d))` for the domain `d` it
/// normalises it to.
pub uninterp spec fn parsed_host(host: Seq<char>) -> Option<Option<Seq<char>>>;

/// What `url::Url::parse` makes of a URL: `None` when it refuses it, else its
/// host (`host_str`) and the last segment of its path (`path_segments().last()`).
pub uninterp spec fn parsed_url(url: Seq<char>) -> Option<(Option<Seq<char>>, Option<Seq<char>>)>;

/// Calls `url::Host::parse(host)` and tells a domain from an IP address.
/// Claims only that the outcome is `parsed_host(host)`.
#[verifier::external_body]
fn parse_host(host: &str) -> (r: Option<Option<String>>)
    ensures
        match r {
            Some(Some(d)) => parsed_host(host@) == Some(Some(d@)),
            Some(None) => parsed_host(host@) == Some(None::<Seq<char>>),
            None => parsed_host(host@) is None,
        },
{
    match url::Host::parse(host) {
        Ok(url::Host::Domain(d)) => Some(Some(d)),
        Ok(url::Host::Ipv4(_)) => Some(None),
        Ok(url::Host::Ipv6(_)) => Some(None),
        Err(_) => None,
    }
}

/// Calls `url::Url::parse(url)` and takes its host and the last segment of
/// its path.  Claims only that the outcome is `parsed_url(url)`.
#[verifier::external_body]
fn parse_url(url: &str) -> (r: Option<(Option<String>, Option<String>)>)
    ensures
        match r {
            Some((h, s)) => parsed_url(url@) == Some((opt_view(h), opt_view(s))),
            None => parsed_url(url@) is None,
        },
{
    let u = url::Url::parse(url).ok()?;
    let host = u.host_str().map(|h| h.to_string());
    let last = u.path_segments().and_then(|s| s.last()).map(|s| s.to_string());
    Some((host, last))
}

/// A domain media may be downloaded from: `twimg.com`, `twitter.com`, or a
/// subdomain of either.
pub open spec fn allowed_domain(d: Seq<char>) -> bool {
    ||| d == "twimg.com"@
    ||| d == "twitter.com"@
    ||| ends_with(d, ".twimg.com"@)
    ||| ends_with(d, ".twitter.com"@)
}

/// A host media may be downloaded from: one `url` reads as an allowed domain.
pub open spec fn valid_twitter_host(host: Seq<char>) -> bool {
    match parsed_host(host) {
        Some(Some(d)) => allowed_domain(d),
        _ => false,
    }
}

/// A character kept in a saved file name.
pub open spec fn file_name_char(c: char) -> bool {
    alphanumeric(c) || c == '.' || c == '-' || c == '_'
}

/// `/` and `\` turned into `_`.
pub open spec fn unslash(c: char) -> char {
    if c == '/' || c == '\\' {
        '_'
    } else {
        c
    }
}

/// A URL's file name made safe to save: every `..` removed (left to right),
/// `/` and `\` turned into `_`, and then only letters, digits, `.`, `-` and `_`
/// kept.
pub open spec fn safe_file_name(s: Seq<char>) -> Seq<char>
    decreases s.len(),
{
    if s.len() >= 2 && s[0] == '.' && s[1] == '.' {
        safe_file_name(s.skip(2))
    } else if s.len() == 0 {
        s
    } else {
        let c = unslash(s[0]);
        let rest = safe_file_name(s.drop_first());
        if file_name_char(c) {
            seq![c] + rest
        } else {
            rest
        }
    }
}

/// A saved file name holds no path separator: each of its characters is a
/// letter, a digit, `.`, `-` or `_`, and none is `/` or `\`.
pub proof fn lemma_safe_file_name_chars(s: Seq<char>)
    ensures
        forall|k: int|
            0 <= k < safe_file_name(s).len() ==> file_name_char(#[trigger] safe_file_name(s)[k])
                && safe_file_name(s)[k] != '/' && safe_file_name(s)[k] != '\\',
    decreases s.len(),
{
    if s.len() >= 2 && s[0] == '.' && s[1] == '.' {
        lemma_safe_file_name_chars(s.skip(2));
        let r = safe_file_name(s);
        assert(r == safe_file_name(s.skip(2)));
        assert forall|k: int| 0 <= k < r.len() implies file_name_char(#[trigger] r[k]) && r[k]
            != '/' && r[k] != '\\' by {
            assert(r[k] == safe_file_name(s.skip(2))[k]);
        }
    } else if s.len() > 0 {
        lemma_safe_file_name_chars(s.drop_first());
        let c = unslash(s[0]);
        let rest = safe_file_name(s.drop_first());
        let r = safe_file_name(s);
        if file_name_char(c) {
            assert(r == seq![c] + rest);
            assert forall|k: int| 0 <= k < r.len() implies file_name_char(#[trigger] r[k])
                && r[k] != '/' && r[k] != '\\' by {
                if k > 0 {
                    assert(r[k] == rest[k - 1]);
                }
            }
        } else {
            assert(r == rest);
        }
    } else {
        assert(safe_file_name(s) == s);
    }
}

/// A name that needs no cleaning is kept as it is: one whose characters are
/// all kept, none a path separator, and that holds no `..`.
pub proof fn lemma_safe_file_name_keeps(s: Seq<char>)
    requires
        forall|k: int|
            0 <= k < s.len() ==> file_name_char(#[trigger] s[k]) && s[k] != '/' && s[k] != '\\',
        forall|k: int| 0 <= k < s.len() - 1 ==> !(#[trigger] s[k] == '.' && s[k + 1] == '.'),
    ensures
        safe_file_name(s) == s,
    decreases s.len(),
{
    if s.len() > 0 {
        let rest = s.drop_first();
        assert forall|k: int| 0 <= k < rest.len() implies file_name_char(#[trigger] rest[k])
            && rest[k] != '/' && rest[k] != '\\' by {
            assert(rest[k] == s[k + 1]);
        }
        assert forall|k: int| 0 <= k < rest.len() - 1 implies !(#[trigger] rest[k] == '.' && rest[k
            + 1] == '.') by {
            assert(rest[k] == s[k + 1] && rest[k + 1] == s[k + 2]);
        }
        lemma_safe_file_name_keeps(rest);
        if s.len() >= 2 {
            assert(!(s[0] == '.' && s[1] == '.'));
        }
        assert(s[0] == unslash(s[0]));
        assert(seq![s[0]] + rest =~= s);
    }
}

/// The ids recorded in the given lines: each line trimmed, empty ones left out.
pub open spec fn ids_of_lines(lines: Seq<Seq<char>>) -> Set<Seq<char>>
    decreases lines.len(),
{
    if lines.len() == 0 {
        Set::empty()
    } else {
        let s = ids_of_lines(lines.drop_last());
        let id = trim(lines.last());
        if id.len() == 0 {
            s
        } else {
            s.insert(id)
        }
    }
}

/// The ids a download record holds, one per line.
pub open spec fn recorded_ids(content: Seq<char>) -> Set<Seq<char>> {
    ids_of_lines(split_on(content, '\n'))
}

/// The ids of a list of lines are finite.
proof fn lemma_ids_of_lines_finite(lines: Seq<Seq<char>>)
    ensures
        ids_of_lines(lines).finite(),
    decreases lines.len(),
{
    if lines.len() > 0 {
        lemma_ids_of_lines_finite(lines.drop_last());
    }
}

/// The line a download record gets for a tweet: its id and a line break.
pub open spec fn record_entry(id: Seq<char>) -> Seq<char> {
    id.push('\n')
}

/// What is saved to the download record is read back: appending the line of
/// `id` to a record that is empty or ends in a line break, and reading the
/// record, gives the ids read before and `id` trimmed (unless that is
/// empty, when nothing is added).
pub proof fn lemma_record_round_trip(content: Seq<char>, id: Seq<char>)
    requires
        content.len() == 0 || content.last() == '\n',
        forall|k: int| 0 <= k < id.len() ==> id[k] != '\n',
    ensures
        recorded_ids(content + record_entry(id)) == if trim(id).len() > 0 {
            recorded_ids(content).insert(trim(id))
        } else {
            recorded_ids(content)
        },
{
    let base = split_on(content, '\n');
    lemma_split_on_nonempty(content, '\n');
    if content.len() > 0 {
        lemma_split_on_nonempty(content.drop_last(), '\n');
    }
    assert(base.last() == Seq::<char>::empty());
    lemma_split_on_extend(content, id, '\n');
    let grown = split_on(content + id, '\n');
    assert(base.last() + id =~= id);
    assert((content + record_entry(id)).drop_last() =~= content + id);
    assert((content + record_entry(id)).last() == '\n');
    assert(split_on(content + record_entry(id), '\n') == grown.push(Seq::<char>::empty()));
    assert(trim_start(Seq::<char>::empty()) == Seq::<char>::empty());
    assert(trim(Seq::<char>::empty()) == Seq::<char>::empty());
    assert(grown.push(Seq::<char>::empty()).drop_last() =~= grown);
    assert(grown.drop_last() =~= base.drop_last());
    assert(grown.last() == id);
    let whole = split_on(content + record_entry(id), '\n');
    assert(ids_of_lines(whole) == ids_of_lines(grown));
    assert(ids_of_lines(base) == ids_of_lines(base.drop_last()));
    assert(ids_of_lines(grown) == if trim(id).len() > 0 {
        ids_of_lines(base.drop_last()).insert(trim(id))
    } else {
        ids_of_lines(base.drop_last())
    });
}

/// Recording a tweet makes it count as downloaded, leaves every other tweet
/// as it was, and grows the count by one exactly when it was not recorded
/// before.
pub proof fn lemma_record_download(ids: Set<Seq<char>>, id: Seq<char>, other: Seq<char>)
    requires
        ids.finite(),
    ensures
        ids.insert(id).contains(id),
        other != id ==> (ids.insert(id).contains(other) == ids.contains(other)),
        ids.insert(id).len() == ids.len() + if ids.contains(id) {
            0int
        } else {
            1int
        },
{
    if ids.contains(id) {
        assert(ids.insert(id) =~= ids);
    }
}

/// The file name prefix of a tweet's media: `[username][id]`, or `[id]`
/// without a user name.
pub open spec fn media_prefix(username: Option<Seq<char>>, id: Seq<char>) -> Seq<char> {
    let u = or_empty(username);
    if u.len() == 0 {
        "["@ + id + "]"@
    } else {
        "["@ + u + "]["@ + id + "]"@
    }
}

/// What to do with one media URL.
#[derive(Debug)]
pub enum MediaStep {
    /// Download `url` into the download directory as `file_name`.
    Fetch { url: String, file_name: String },
    /// Skip a URL that has no host.
    NoHost { url: String },
    /// Skip a URL whose host is not Twitter's.
    ForeignHost { url: String },
    /// A URL that does not parse; the tweet's processing stops with an error.
    Invalid { url: String },
}

/// The steps for a tweet's media URLs, from `urls[from..]`: each URL in turn,
/// stopping after the first that does not parse.
pub open spec fn media_steps_ok(steps: Seq<MediaStep>, prefix: Seq<char>, urls: Seq<Seq<char>>) -> bool
    decreases urls.len(),
{
    if urls.len() == 0 {
        steps.len() == 0
    } else {
        let u = urls[0];
        steps.len() >= 1 && (match parsed_url(u) {
            None => steps.len() == 1 && (steps[0] matches MediaStep::Invalid { url } && url@ == u),
            Some((None, _)) => (steps[0] matches MediaStep::NoHost { url } && url@ == u)
                && media_steps_ok(steps.drop_first(), prefix, urls.drop_first()),
            Some((Some(h), seg)) => if !valid_twitter_host(h) {
                (steps[0] matches MediaStep::ForeignHost { url } && url@ == u) && media_steps_ok(
                    steps.drop_first(),
                    prefix,
                    urls.drop_first(),
                )
            } else {
                (steps[0] matches MediaStep::Fetch { url, file_name } && url@ == u && file_name@
                    == prefix + "["@ + safe_file_name(
                    match seg {
                        Some(s) => s,
                        None => "unknown"@,
                    },
                ) + "]"@) && media_steps_ok(steps.drop_first(), prefix, urls.drop_first())
            },
        })
    }
}

/// What to download for one tweet.
#[derive(Debug)]
pub struct MediaPlan {
    /// When the tweet was posted, to stamp the files with.
    pub timestamp: Option<i64>,
    /// The user name the files are named after.
    pub username: Option<String>,
    /// One step per media URL, in order.
    pub steps: Vec<MediaStep>,
}

/// The record of tweets whose media are done, with the settings to download by.
pub struct Downloader {
    config: Config,
    downloaded_ids: StringHashSet,
}

/// Reads a download record: one id per line, trimmed, empty lines skipped.
pub fn load_downloaded_ids(content: &str) -> (r: StringHashSet)
    ensures
        r@ == recorded_ids(content@),
{
    let v = chars_of(content);
    let ranges = split_ranges(&v, '\n');
    let mut ids = StringHashSet::new();
    let ghost lines = split_on(v@, '\n');
    let mut k: usize = 0;
    assert(lines.take(0) == Seq::<Seq<char>>::empty());
    while k < ranges.len()
        invariant
            v@ == content@,
            lines == split_on(v@, '\n'),
            crate::text::ranges_in(ranges@, v@.len() as int),
            pieces(v@, ranges@) == lines,
            k <= ranges.len(),
            ids@ == ids_of_lines(lines.take(k as int)),
        decreases ranges.len() - k,
    {
        let (from, to) = ranges[k];
        assert(v@.subrange(from as int, to as int) == lines[k as int]);
        assert(lines.take(k + 1).drop_last() == lines.take(k as int));
        assert(lines.take(k + 1).last() == lines[k as int]);
        let id = trim_range(&v, from, to);
        if !id.as_str().is_empty() {
            ids.insert(id);
        }
        k = k + 1;
    }
    assert(lines.take(lines.len() as int) == lines);
    ids
}

/// A URL's file name made safe to save.
pub fn sanitize_file_name(name: &str) -> (r: String)
    ensures
        r@ == safe_file_name(name@),
{
    let v = chars_of(name);
    let mut out = String::new();
    let mut i: usize = 0;
    assert(v@.skip(0) == v@);
    while i < v.len()
        invariant
            v@ == name@,
            i <= v.len(),
            safe_file_name(name@) == out@ + safe_file_name(v@.skip(i as int)),
        decreases v.len() - i,
    {
        let ghost rest = v@.skip(i as int);
        if i + 1 < v.len() && v[i] == '.' && v[i + 1] == '.' {
            assert(rest.skip(2) == v@.skip(i + 2));
            i = i + 2;
        } else {
            assert(rest.drop_first() == v@.skip(i + 1));
            let c0 = v[i];
            let c = if c0 == '/' || c0 == '\\' {
                '_'
            } else {
                c0
            };
            if is_alphanumeric_char(c) || c == '.' || c == '-' || c == '_' {
                let ghost before = out@;
                push_char(&mut out, c);
                assert(before + (seq![c] + safe_file_name(v@.skip(i + 1))) =~= before.push(c)
                    + safe_file_name(v@.skip(i + 1)));
            }
            i = i + 1;
        }
    }
    assert(v@.skip(v@.len() as int) == Seq::<char>::empty());
    assert(out@ + Seq::<char>::empty() == out@);
    out
}

/// Whether the media is done: every count that was learnt agrees with the
/// bytes received, the announced length and the size of the written file.
pub fn download_complete(expected: Option<u64>, received: u64, written: Option<u64>) -> (r: bool)
    ensures
        r == ((expected matches Some(e) ==> e == received) && (written matches Some(w) ==> w
            == received)),
{
    match expected {
        Some(e) => if e != received {
            return false;
        },
        None => {},
    }
    match written {
        Some(w) => if w != received {
            return false;
        },
        None => {},
    }
    true
}

/// The line to append to the download record for `tweet_id`.
pub fn record_line(tweet_id: &str) -> (r: String)
    ensures
        r@ == record_entry(tweet_id@),
{
    let mut r = owned(tweet_id);
    push_char(&mut r, '\n');
    r
}

/// The name a download is written under until it is complete: the file's
/// name and `.tmp`.
pub fn temp_file_name(file_name: &str) -> (r: String)
    ensures
        r@ == file_name@ + ".tmp"@,
{
    let mut r = owned(file_name);
    push_str(&mut r, ".tmp");
    r
}

/// The result of a tweet's downloads: `true` when at least one file is
/// present, whether it was there already or has been downloaded.
pub fn media_outcome(present: usize) -> (r: bool)
    ensures
        r == (present > 0),
{
    present > 0
}

impl Downloader {
    /// A downloader's record is finite.
    #[verifier::type_invariant]
    spec fn record_is_finite(&self) -> bool {
        self.downloaded_ids@.finite()
    }

    /// The settings the downloader works by.
    pub closed spec fn settings(&self) -> Config {
        self.config
    }

    /// The ids of the tweets recorded as done.
    pub closed spec fn recorded(&self) -> Set<Seq<char>> {
        self.downloaded_ids@
    }

    /// A downloader with the record read from `record` (the text of the
    /// record file, empty when there is none).
    pub fn new(config: Config, record: &str) -> (r: Downloader)
        ensures
            r.settings() == config,
            r.recorded() == recorded_ids(record@),
            r.recorded().finite(),
    {
        proof {
            lemma_ids_of_lines_finite(split_on(record@, '\n'));
        }
        Downloader { config, downloaded_ids: load_downloaded_ids(record) }
    }

    /// Whether `host` is Twitter's: `twimg.com`, `twitter.com` or a subdomain
    /// of either, as the `url` crate reads the host name; IP addresses and
    /// host names it refuses are not.
    pub fn is_valid_twitter_domain(host: &str) -> (r: bool)
        ensures
            r == valid_twitter_host(host@),
    {
        let domain = match parse_host(host) {
            Some(Some(d)) => d,
            _ => {
                return false;
            },
        };
        let d = domain.as_str();
        if same_text(d, "twimg.com") || same_text(d, "twitter.com") {
            return true;
        }
        ends_with_str(d, ".twimg.com") || ends_with_str(d, ".twitter.com")
    }

    /// Records that the media of `tweet_id` are done: it counts as
    /// downloaded afterwards, every other tweet is as it was, and the count
    /// grows by one exactly when it was not recorded before.
    pub fn save_downloaded_id(&mut self, tweet_id: &str)
        ensures
            final(self).settings() == old(self).settings(),
            final(self).recorded() == old(self).recorded().insert(tweet_id@),
            final(self).recorded().contains(tweet_id@),
            final(self).recorded().len() == old(self).recorded().len() + if old(
                self,
            ).recorded().contains(tweet_id@) {
                0int
            } else {
                1int
            },
    {
        proof {
            use_type_invariant(&*self);
            lemma_record_download(self.downloaded_ids@, tweet_id@, tweet_id@);
        }
        let mut ids = StringHashSet::new();
        std::mem::swap(&mut ids, &mut self.downloaded_ids);
        ids.insert(owned(tweet_id));
        self.downloaded_ids = ids;
    }

    /// Whether the media of `tweet_id` are recorded as done.
    pub fn is_downloaded(&self, tweet_id: &str) -> (r: bool)
        ensures
            r == self.recorded().contains(tweet_id@),
    {
        self.downloaded_ids.contains(tweet_id)
    }

    /// How many tweets are recorded as done.
    pub fn downloaded_count(&self) -> (r: usize)
        ensures
            r == self.recorded().len(),
            self.recorded().finite(),
    {
        proof {
            use_type_invariant(self);
        }
        self.downloaded_ids.len()
    }

    /// The user name a tweet's files are named after: its author's, or else
    /// the configured target user's when that is not empty.
    pub open spec fn file_owner(&self, obj: Json) -> Option<Seq<char>> {
        match user_field(obj, "screen_name"@) {
            Some(u) => Some(u),
            None => if self.settings().target_username@.len() > 0 {
                Some(self.settings().target_username@)
            } else {
                None
            },
        }
    }

    /// What to download for a tweet: `None` when it has no media; else its
    /// time, the user name its files are named after, and one step per media
    /// URL (see `media_steps_ok`).
    pub fn plan_media(&self, tweet: &Json, tweet_id: &str) -> (r: Option<MediaPlan>)
        ensures
            ({
                let obj = tweet_object(*tweet);
                match r {
                    None => tweet_media_urls(obj).len() == 0,
                    Some(p) => {
                        &&& tweet_media_urls(obj).len() > 0
                        &&& p.timestamp == tweet_seconds(obj)
                        &&& opt_view(p.username) == self.file_owner(obj)
                        &&& media_steps_ok(
                            p.steps@,
                            media_prefix(self.file_owner(obj), tweet_id@),
                            tweet_media_urls(obj),
                        )
                    },
                }
            }),
    {
        let obj = match extract_tweet_object(tweet) {
            Some(o) => o,
            None => tweet,
        };
        let timestamp = extract_tweet_timestamp_seconds(obj);
        let username = match extract_username(obj) {
            Some(u) => Some(u),
            None => if self.config.target_username.as_str().is_empty() {
                None
            } else {
                Some(self.config.target_username.clone())
            },
        };
        let urls = extract_media_urls(obj);
        if urls.len() == 0 {
            return None;
        }
        let mut prefix = owned("[");
        match &username {
            Some(u) => if !u.as_str().is_empty() {
                push_str(&mut prefix, u.as_str());
                push_str(&mut prefix, "][");
            },
            None => {},
        }
        push_str(&mut prefix, tweet_id);
        push_str(&mut prefix, "]");
        let ghost all = views(urls@);
        let ghost pre = prefix@;
        assert(pre == media_prefix(opt_view(username), tweet_id@));
        let mut steps: Vec<MediaStep> = Vec::new();
        let mut i: usize = 0;
        assert(all.skip(0) == all);
        assert(forall|s: Seq<MediaStep>| Seq::<MediaStep>::empty() + s == s);
        while i < urls.len()
            invariant
                i <= urls.len(),
                all == views(urls@),
                pre == prefix@,
                all == tweet_media_urls(tweet_object(*tweet)),
                all.len() > 0,
                timestamp == tweet_seconds(tweet_object(*tweet)),
                opt_view(username) == self.file_owner(tweet_object(*tweet)),
                pre == media_prefix(self.file_owner(tweet_object(*tweet)), tweet_id@),
                forall|s: Seq<MediaStep>|
                    media_steps_ok(s, pre, all.skip(i as int)) ==> media_steps_ok(
                        steps@ + s,
                        pre,
                        all,
                    ),
            decreases urls.len() - i,
        {
            let url = urls[i].as_str();
            let ghost rest = all.skip(i as int);
            assert(rest[0] == url@);
            assert(rest.drop_first() == all.skip(i + 1));
            let (step, stop) = match parse_url(url) {
                None => (MediaStep::Invalid { url: owned(url) }, true),
                Some((None, _)) => (MediaStep::NoHost { url: owned(url) }, false),
                Some((Some(h), seg)) => if !Self::is_valid_twitter_domain(h.as_str()) {
                    (MediaStep::ForeignHost { url: owned(url) }, false)
                } else {
                    let original = match &seg {
                        Some(s) => sanitize_file_name(s.as_str()),
                        None => sanitize_file_name("unknown"),
                    };
                    let mut file_name = prefix.clone();
                    push_str(&mut file_name, "[");
                    push_str(&mut file_name, original.as_str());
                    push_str(&mut file_name, "]");
                    (MediaStep::Fetch { url: owned(url), file_name }, false)
                },
            };
            let ghost g = step;
            let ghost old_steps = steps@;
            steps.push(step);
            if stop {
                proof {
                    assert(media_steps_ok(seq![g], pre, rest));
                    assert(old_steps + seq![g] == steps@);
                }
                return Some(MediaPlan { timestamp, username, steps });
            }
            proof {
                assert forall|s2: Seq<MediaStep>|
                    media_steps_ok(s2, pre, all.skip(i + 1)) implies media_steps_ok(
                    steps@ + s2,
                    pre,
                    all,
                ) by {
                    let s1 = seq![g] + s2;
                    assert(s1.drop_first() == s2);
                    assert(s1[0] == g);
                    assert(media_steps_ok(s1, pre, rest));
                    assert(old_steps + s1 == steps@ + s2);
                }
            }
            i = i + 1;
        }
        assert(all.skip(urls.len() as int) == Seq::<Seq<char>>::empty());
        assert(steps@ + Seq::<MediaStep>::empty() == steps@);
        assert(media_steps_ok(Seq::<MediaStep>::empty(), pre, all.skip(urls.len() as int)));
        Some(MediaPlan { timestamp, username, steps })
    }
}

} // verus!

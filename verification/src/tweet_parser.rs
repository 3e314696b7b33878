//! Reading the parts of a tweet out of the API's JSON.
use vstd::prelude::*;

use crate::datetime::{
    parse_timestamp, parsed_timestamp, timestamp_representable, utc_representable,
};
use crate::json::{at, get_at, i64_of, items_of, own, str_at, text_of, u64_of, Json};
use crate::text::{integer_in, parse_integer, same_text};

verus! {

/// The format of the `created_at` field, such as `Thu Apr 06 15:24:15 +0000 2017`.
pub const CREATED_AT_FORMAT: &'static str = "%a %b %d %H:%M:%S %z %Y";

/// The tweet object inside a timeline entry: the first of
/// `content.itemContent.tweet_results.result.tweet`, `tweet`, and the entry itself.
pub open spec fn tweet_object(tweet: Json) -> Json {
    let nested = at(
        at(at(at(at(Some(tweet), "content"@), "itemContent"@), "tweet_results"@), "result"@),
        "tweet"@,
    );
    match nested {
        Some(t) => t,
        None => match tweet.field("tweet"@) {
            Some(t) => t,
            None => tweet,
        },
    }
}

/// Finds the tweet object inside a timeline entry; there always is one.
pub fn extract_tweet_object(tweet: &Json) -> (r: Option<&Json>)
    ensures
        own(r) == Some(tweet_object(*tweet)),
{
    let nested = get_at(
        get_at(get_at(get_at(tweet.get("content"), "itemContent"), "tweet_results"), "result"),
        "tweet",
    );
    if nested.is_some() {
        return nested;
    }
    let direct = tweet.get("tweet");
    if direct.is_some() {
        return direct;
    }
    Some(tweet)
}

/// The part of a tweet object that holds its text, times and media: its
/// `legacy` member, or the object itself when it has none.
pub open spec fn legacy_part(obj: Json) -> Json {
    match obj.field("legacy"@) {
        Some(l) => l,
        None => obj,
    }
}

/// Finds the part of a tweet object that holds its text, times and media.
fn find_legacy(obj: &Json) -> (r: &Json)
    ensures
        *r == legacy_part(*obj),
{
    match obj.get("legacy") {
        Some(l) => l,
        None => obj,
    }
}

/// The media list of a tweet object: `extended_entities.media`, or else
/// `entities.media`, of its legacy part, when it is an array.
pub open spec fn media_list(obj: Json) -> Option<Seq<Json>> {
    let legacy = Some(legacy_part(obj));
    match items_of(at(at(legacy, "extended_entities"@), "media"@)) {
        Some(l) => Some(l),
        None => items_of(at(at(legacy, "entities"@), "media"@)),
    }
}

/// The bitrate a video variant is ranked by: its `bitrate` as an unsigned
/// integer, or 0.
pub open spec fn bitrate_rank(v: Json) -> u64 {
    match u64_of(v.field("bitrate"@)) {
        Some(b) => b,
        None => 0,
    }
}

/// Among the variants that have a `bitrate` member, the one of highest rank;
/// of equal ranks the last.
pub open spec fn best_variant(vs: Seq<Json>) -> Option<Json>
    decreases vs.len(),
{
    if vs.len() == 0 {
        None
    } else {
        let prev = best_variant(vs.drop_last());
        let v = vs.last();
        if v.field("bitrate"@) is Some {
            match prev {
                Some(b) => if bitrate_rank(v) >= bitrate_rank(b) {
                    Some(v)
                } else {
                    prev
                },
                None => Some(v),
            }
        } else {
            prev
        }
    }
}

/// The best variant is the one of highest bitrate: there is one exactly
/// when some variant has a `bitrate`, it is one of those variants, and no
/// variant with a `bitrate` ranks higher.
pub proof fn lemma_best_variant_highest(vs: Seq<Json>)
    ensures
        best_variant(vs) is Some <==> exists|i: int|
            0 <= i < vs.len() && (#[trigger] vs[i]).field("bitrate"@) is Some,
        best_variant(vs) matches Some(b) ==> {
            &&& vs.contains(b)
            &&& b.field("bitrate"@) is Some
            &&& forall|i: int|
                0 <= i < vs.len() && (#[trigger] vs[i]).field("bitrate"@) is Some ==> bitrate_rank(
                    vs[i],
                ) <= bitrate_rank(b)
        },
    decreases vs.len(),
{
    if vs.len() > 0 {
        let prev = vs.drop_last();
        lemma_best_variant_highest(prev);
        assert forall|i: int| 0 <= i < prev.len() implies prev[i] == vs[i] by {}
        if best_variant(prev) is Some {
            let i = choose|i: int| 0 <= i < prev.len() && (#[trigger] prev[i]).field("bitrate"@) is Some;
            assert(vs[i] == prev[i]);
        }
        if exists|i: int| 0 <= i < vs.len() && (#[trigger] vs[i]).field("bitrate"@) is Some {
            let i = choose|i: int| 0 <= i < vs.len() && (#[trigger] vs[i]).field("bitrate"@) is Some;
            if i < vs.len() - 1 {
                assert(prev[i] == vs[i]);
            }
        }
        match best_variant(vs) {
            Some(b) => {
                if b == vs.last() {
                    assert(vs[vs.len() - 1] == b);
                } else {
                    let k = choose|k: int| 0 <= k < prev.len() && prev[k] == b;
                    assert(vs[k] == b);
                }
                assert forall|i: int|
                    0 <= i < vs.len() && (#[trigger] vs[i]).field("bitrate"@) is Some implies bitrate_rank(
                    vs[i],
                ) <= bitrate_rank(b) by {
                    if i < vs.len() - 1 {
                        assert(prev[i] == vs[i]);
                    }
                }
            },
            None => {},
        }
    }
}

/// The URL taken from one media item: for a video, the `url` of its best
/// variant; for a photo, its `media_url_https`; for anything else none.
pub open spec fn media_url(media: Json) -> Option<Seq<char>> {
    let kind = text_of(media.field("type"@));
    if kind == Some("video"@) {
        match items_of(at(media.field("video_info"@), "variants"@)) {
            Some(vs) => match best_variant(vs) {
                Some(b) => text_of(b.field("url"@)),
                None => None,
            },
            None => None,
        }
    } else if kind == Some("photo"@) {
        text_of(media.field("media_url_https"@))
    } else {
        None
    }
}

/// The URLs of a media list, in order, skipping items that give none.
pub open spec fn media_urls_of(list: Seq<Json>) -> Seq<Seq<char>>
    decreases list.len(),
{
    if list.len() == 0 {
        Seq::empty()
    } else {
        let prev = media_urls_of(list.drop_last());
        match media_url(list.last()) {
            Some(u) => prev.push(u),
            None => prev,
        }
    }
}

/// All media URLs of a tweet object.
pub open spec fn tweet_media_urls(obj: Json) -> Seq<Seq<char>> {
    match media_list(obj) {
        Some(l) => media_urls_of(l),
        None => Seq::empty(),
    }
}

/// The media are read from `extended_entities.media` whenever that is a
/// list, and from `entities.media` only when it is not.
pub proof fn lemma_media_from_extended_entities(obj: Json)
    ensures
        ({
            let legacy = Some(legacy_part(obj));
            let extended = items_of(at(at(legacy, "extended_entities"@), "media"@));
            let plain = items_of(at(at(legacy, "entities"@), "media"@));
            &&& extended matches Some(l) ==> tweet_media_urls(obj) == media_urls_of(l)
            &&& extended is None ==> match plain {
                Some(l) => tweet_media_urls(obj) == media_urls_of(l),
                None => tweet_media_urls(obj).len() == 0,
            }
        }),
{
}

/// The views of a list of strings.
pub open spec fn views(v: Seq<String>) -> Seq<Seq<char>> {
    v.map_values(|s: String| s@)
}

/// The best variant of a list of video variants.
fn pick_best_variant(vs: &Vec<Json>) -> (r: Option<&Json>)
    ensures
        own(r) == best_variant(vs@),
{
    let mut best: Option<&Json> = None;
    let mut i: usize = 0;
    assert(vs@.take(0) == Seq::<Json>::empty());
    while i < vs.len()
        invariant
            i <= vs.len(),
            own(best) == best_variant(vs@.take(i as int)),
        decreases vs.len() - i,
    {
        let v = &vs[i];
        let ghost pre = vs@.take(i as int);
        assert(vs@.take(i + 1).drop_last() == pre);
        assert(vs@.take(i + 1).last() == *v);
        if v.get("bitrate").is_some() {
            let rank = match get_at(Some(v), "bitrate") {
                Some(b) => match b.as_u64() {
                    Some(n) => n,
                    None => 0,
                },
                None => 0,
            };
            match best {
                Some(b) => {
                    let brank = match b.get("bitrate") {
                        Some(x) => match x.as_u64() {
                            Some(n) => n,
                            None => 0,
                        },
                        None => 0,
                    };
                    if rank >= brank {
                        best = Some(v);
                    }
                },
                None => {
                    best = Some(v);
                },
            }
        }
        i = i + 1;
    }
    assert(vs@.take(vs@.len() as int) == vs@);
    best
}

/// The URL taken from one media item.
fn media_item_url(media: &Json) -> (r: Option<String>)
    ensures
        match r {
            Some(u) => media_url(*media) == Some(u@),
            None => media_url(*media) is None,
        },
{
    let kind = str_at(media.get("type"));
    let (is_video, is_photo) = match kind {
        Some(k) => (same_text(k, "video"), same_text(k, "photo")),
        None => (false, false),
    };
    if is_video {
        match get_at(media.get("video_info"), "variants") {
            Some(vi) => match vi.as_array() {
                Some(vs) => match pick_best_variant(vs) {
                    Some(b) => match str_at(b.get("url")) {
                        Some(u) => Some(crate::text::owned(u)),
                        None => None,
                    },
                    None => None,
                },
                None => None,
            },
            None => None,
        }
    } else if is_photo {
        match str_at(media.get("media_url_https")) {
            Some(u) => Some(crate::text::owned(u)),
            None => None,
        }
    } else {
        None
    }
}

/// The media list of a tweet object.
fn find_media_list(obj: &Json) -> (r: Option<&Vec<Json>>)
    ensures
        match r {
            Some(l) => media_list(*obj) == Some(l@),
            None => media_list(*obj) is None,
        },
{
    let legacy = Some(find_legacy(obj));
    match get_at(get_at(legacy, "extended_entities"), "media") {
        Some(m) => match m.as_array() {
            Some(l) => {
                return Some(l);
            },
            None => {},
        },
        None => {},
    }
    match get_at(get_at(legacy, "entities"), "media") {
        Some(m) => m.as_array(),
        None => None,
    }
}

/// The media URLs of a tweet object: photos by `media_url_https`, videos by
/// the URL of the variant of highest bitrate, in the order of the media list.
pub fn extract_media_urls(tweet_obj: &Json) -> (r: Vec<String>)
    ensures
        views(r@) == tweet_media_urls(*tweet_obj),
{
    let mut out: Vec<String> = Vec::new();
    match find_media_list(tweet_obj) {
        Some(list) => {
            let mut i: usize = 0;
            assert(list@.take(0) == Seq::<Json>::empty());
            assert(views(out@) == Seq::<Seq<char>>::empty());
            while i < list.len()
                invariant
                    i <= list.len(),
                    views(out@) == media_urls_of(list@.take(i as int)),
                decreases list.len() - i,
            {
                let ghost pre = list@.take(i as int);
                assert(list@.take(i + 1).drop_last() == pre);
                assert(list@.take(i + 1).last() == list@[i as int]);
                match media_item_url(&list[i]) {
                    Some(u) => {
                        let ghost before = out@;
                        out.push(u);
                        assert(views(out@) == views(before).push(u@));
                    },
                    None => {},
                }
                i = i + 1;
            }
            assert(list@.take(list@.len() as int) == list@);
        },
        None => {},
    }
    out
}

/// `ms / 1000` rounded toward zero, as integer division does.
pub open spec fn millis_to_secs(ms: int) -> int {
    if ms >= 0 {
        ms / 1000
    } else {
        -((-ms) / 1000)
    }
}

/// Whole seconds of a millisecond count, rounded toward zero.
fn secs_of_millis(ms: i64) -> (r: i64)
    ensures
        r as int == millis_to_secs(ms as int),
{
    if ms >= 0 {
        ms / 1000
    } else {
        let m = ms as i128;
        let q = (-m) / 1000;
        (-q) as i64
    }
}

/// Where a tweet object's time is written, and what it says there.
pub enum TweetTime {
    /// `created_at_ms` of the legacy part as text of a millisecond count.
    MillisText(i64),
    /// `created_at_ms` of the legacy part as a JSON integer.
    MillisNumber(i64),
    /// `created_at` of the legacy part in the API's date format, read as seconds.
    Parsed(Option<i64>),
    /// None of these.
    Missing,
}

/// Where a tweet object's time is written: the first of the millisecond text,
/// the millisecond number and the date text that is present and readable.
pub open spec fn tweet_time(obj: Json) -> TweetTime {
    let legacy = Some(legacy_part(obj));
    let ms = at(legacy, "created_at_ms"@);
    let from_text = match text_of(ms) {
        Some(t) => integer_in(t, true, i64::MIN as int, i64::MAX as int),
        None => None,
    };
    match from_text {
        Some(v) => TweetTime::MillisText(v as i64),
        None => match i64_of(ms) {
            Some(v) => TweetTime::MillisNumber(v),
            None => match text_of(at(legacy, "created_at"@)) {
                Some(t) => TweetTime::Parsed(parsed_timestamp(t, CREATED_AT_FORMAT@)),
                None => TweetTime::Missing,
            },
        },
    }
}

/// The time of a tweet object in seconds since the epoch: a millisecond count
/// divided by 1000, or the parsed date; `None` when there is neither, or the
/// date does not parse.
pub open spec fn tweet_seconds(obj: Json) -> Option<i64> {
    match tweet_time(obj) {
        TweetTime::MillisText(ms) => Some(millis_to_secs(ms as int) as i64),
        TweetTime::MillisNumber(ms) => Some(millis_to_secs(ms as int) as i64),
        TweetTime::Parsed(p) => p,
        TweetTime::Missing => None,
    }
}

/// The time of a tweet object as an instant `chrono` can hold: as
/// `tweet_seconds`, except that a millisecond count whose seconds `chrono`
/// cannot represent gives `None`.
pub open spec fn tweet_instant(obj: Json) -> Option<i64> {
    match tweet_time(obj) {
        TweetTime::MillisText(ms) => {
            let s = millis_to_secs(ms as int) as i64;
            if utc_representable(s) {
                Some(s)
            } else {
                None
            }
        },
        TweetTime::MillisNumber(ms) => {
            let s = millis_to_secs(ms as int) as i64;
            if utc_representable(s) {
                Some(s)
            } else {
                None
            }
        },
        TweetTime::Parsed(p) => p,
        TweetTime::Missing => None,
    }
}

/// Reads where a tweet object's time is written.
fn read_tweet_time(tweet_obj: &Json) -> (r: TweetTime)
    ensures
        r == tweet_time(*tweet_obj),
        r matches TweetTime::Parsed(Some(t)) ==> utc_representable(t),
{
    let legacy = Some(find_legacy(tweet_obj));
    let ms = get_at(legacy, "created_at_ms");
    match str_at(ms) {
        Some(t) => match parse_integer(t, true, -0x8000_0000_0000_0000, 0x7fff_ffff_ffff_ffff) {
            Some(v) => {
                return TweetTime::MillisText(v as i64);
            },
            None => {},
        },
        None => {},
    }
    match ms {
        Some(m) => match m.as_i64() {
            Some(v) => {
                return TweetTime::MillisNumber(v);
            },
            None => {},
        },
        None => {},
    }
    match str_at(get_at(legacy, "created_at")) {
        Some(t) => TweetTime::Parsed(parse_timestamp(t, CREATED_AT_FORMAT)),
        None => TweetTime::Missing,
    }
}

/// The time of a tweet object in seconds since the epoch.
pub fn extract_tweet_timestamp_seconds(tweet_obj: &Json) -> (r: Option<i64>)
    ensures
        r == tweet_seconds(*tweet_obj),
{
    match read_tweet_time(tweet_obj) {
        TweetTime::MillisText(ms) => Some(secs_of_millis(ms)),
        TweetTime::MillisNumber(ms) => Some(secs_of_millis(ms)),
        TweetTime::Parsed(p) => p,
        TweetTime::Missing => None,
    }
}

/// The time of a tweet object as an instant in UTC, in seconds since the
/// epoch: the seconds reading whenever `chrono` can represent it (a date read
/// from text always can), and nothing otherwise.
pub fn extract_tweet_timestamp_datetime(tweet_obj: &Json) -> (r: Option<i64>)
    ensures
        r == tweet_instant(*tweet_obj),
        r == match tweet_seconds(*tweet_obj) {
            Some(s) => if utc_representable(s) {
                Some(s)
            } else {
                None
            },
            None => None,
        },
{
    match read_tweet_time(tweet_obj) {
        TweetTime::MillisText(ms) | TweetTime::MillisNumber(ms) => {
            let s = secs_of_millis(ms);
            if timestamp_representable(s) {
                Some(s)
            } else {
                None
            }
        },
        TweetTime::Parsed(p) => p,
        TweetTime::Missing => None,
    }
}

/// The author's user object under `core.user_results.result`.
pub open spec fn user_result(obj: Json) -> Option<Json> {
    at(at(obj.field("core"@), "user_results"@), "result"@)
}

/// A user field looked up in turn under `core.user_results.result.legacy`,
/// directly under `core`, and under `core.user_results.result.core`.
pub open spec fn user_field(obj: Json, name: Seq<char>) -> Option<Seq<char>> {
    match text_of(at(at(user_result(obj), "legacy"@), name)) {
        Some(v) => Some(v),
        None => match text_of(at(obj.field("core"@), name)) {
            Some(v) => Some(v),
            None => text_of(at(at(user_result(obj), "core"@), name)),
        },
    }
}

/// An optional string's characters.
pub open spec fn opt_view(o: Option<String>) -> Option<Seq<char>> {
    match o {
        Some(s) => Some(s@),
        None => None,
    }
}

/// Looks a user field up along the three paths of `user_field`.
fn read_user_field(tweet_obj: &Json, name: &str) -> (r: Option<String>)
    ensures
        opt_view(r) == user_field(*tweet_obj, name@),
{
    let core = tweet_obj.get("core");
    let result = get_at(get_at(core, "user_results"), "result");
    match str_at(get_at(get_at(result, "legacy"), name)) {
        Some(v) => {
            return Some(crate::text::owned(v));
        },
        None => {},
    }
    match str_at(get_at(core, name)) {
        Some(v) => {
            return Some(crate::text::owned(v));
        },
        None => {},
    }
    match str_at(get_at(get_at(result, "core"), name)) {
        Some(v) => Some(crate::text::owned(v)),
        None => None,
    }
}

/// The author's user name (`screen_name`) and display name (`name`).
pub fn extract_user_info(tweet_obj: &Json) -> (r: (Option<String>, Option<String>))
    ensures
        opt_view(r.0) == user_field(*tweet_obj, "screen_name"@),
        opt_view(r.1) == user_field(*tweet_obj, "name"@),
{
    let username = read_user_field(tweet_obj, "screen_name");
    let display_name = read_user_field(tweet_obj, "name");
    (username, display_name)
}

/// The author's user name (`screen_name`).
pub fn extract_username(tweet_obj: &Json) -> (r: Option<String>)
    ensures
        opt_view(r) == user_field(*tweet_obj, "screen_name"@),
{
    let (username, _) = extract_user_info(tweet_obj);
    username
}

} // verus!

//! First-time setup: reading the account's tokens out of a `curl` command
//! copied from the browser.
use vstd::prelude::*;
use vstd::hash_map::StringHashMap;

use crate::config::map_view;
use crate::text::{
    chars_of, find_char, join_lines, owned, pieces, push_char, push_str, split_on, split_ranges,
    starts_with, starts_with_no_case, starts_with_no_case_str, strip_both, strip_both_str,
    strip_prefix_str, trim, trim_range,
};

verus! {

/// The arguments of the `setup` command.
#[derive(Debug, Clone)]
pub struct SetupArgs {
    /// The file holding the `curl` command.
    pub curl_file: String,
}

impl SetupArgs {
    /// The arguments when none are given: the command is read from
    /// `curl_command.txt`.
    pub fn with_default_file() -> (r: SetupArgs)
        ensures
            r.curl_file@ == "curl_command.txt"@,
    {
        SetupArgs { curl_file: owned("curl_command.txt") }
    }
}

/// Why the tokens could not be read.
#[derive(Debug, PartialEq, Eq)]
pub enum SetupError {
    /// A pattern that the `regex` crate refused.
    InvalidPattern,
    /// The command has no `-b '...'` cookie argument.
    CookieNotFound,
    /// No `Authorization: Bearer ...` header.
    BearerNotFound,
    /// The cookies lack the named field.
    MissingCookie(String),
}

impl SetupError {
    /// The message shown for this error.
    pub fn message(&self) -> (r: String)
        ensures
            r@ == match self {
                SetupError::InvalidPattern => "无法编译正则表达式"@,
                SetupError::CookieNotFound => "无法找到cookie参数"@,
                SetupError::BearerNotFound => "无法解析Bearer Token"@,
                SetupError::MissingCookie(key) => "Cookie中缺少必需的字段: "@ + key@,
            },
    {
        match self {
            SetupError::InvalidPattern => owned("无法编译正则表达式"),
            SetupError::CookieNotFound => owned("无法找到cookie参数"),
            SetupError::BearerNotFound => owned("无法解析Bearer Token"),
            SetupError::MissingCookie(key) => {
                let mut m = owned("Cookie中缺少必需的字段: ");
                push_str(&mut m, key.as_str());
                m
            },
        }
    }
}

/// The first capture group of every match of `pattern` in `text`, in order;
/// `None` when the pattern does not compile.
pub uninterp spec fn group_one_of_all(pattern: Seq<char>, text: Seq<char>) -> Option<
    Seq<Option<Seq<char>>>,
>;

/// The first capture group of the first match of `pattern` in `text`;
/// `None` when the pattern does not compile, `Some(None)` when nothing
/// matches.
pub uninterp spec fn group_one_of_first(pattern: Seq<char>, text: Seq<char>) -> Option<
    Option<Option<Seq<char>>>,
>;

/// The views of a list of optional strings.
pub open spec fn opt_views(v: Seq<Option<String>>) -> Seq<Option<Seq<char>>> {
    v.map_values(|o: Option<String>| crate::tweet_parser::opt_view(o))
}

/// Compiles `pattern` with `regex::Regex::new` and runs `captures_iter` over
/// `text`, keeping capture group 1 of each match.  Claims only that the
/// outcome is `group_one_of_all(pattern, text)`.
#[verifier::external_body]
fn captures_all(pattern: &str, text: &str) -> (r: Option<Vec<Option<String>>>)
    ensures
        match r {
            Some(v) => group_one_of_all(pattern@, text@) == Some(opt_views(v@)),
            None => group_one_of_all(pattern@, text@) is None,
        },
{
    let re = regex::Regex::new(pattern).ok()?;
    Some(re.captures_iter(text).map(|c| c.get(1).map(|m| m.as_str().to_string())).collect())
}

/// Compiles `pattern` with `regex::Regex::new` and runs `captures` on `text`,
/// keeping capture group 1.  Claims only that the outcome is
/// `group_one_of_first(pattern, text)`.
#[verifier::external_body]
fn captures_first(pattern: &str, text: &str) -> (r: Option<Option<Option<String>>>)
    ensures
        match r {
            Some(Some(g)) => group_one_of_first(pattern@, text@) == Some(
                Some(crate::tweet_parser::opt_view(g)),
            ),
            Some(None) => group_one_of_first(pattern@, text@) == Some(None::<Option<Seq<char>>>),
            None => group_one_of_first(pattern@, text@) is None,
        },
{
    let re = regex::Regex::new(pattern).ok()?;
    Some(re.captures(text).map(|c| c.get(1).map(|m| m.as_str().to_string())))
}

/// A header argument `-H '...'`.
pub const HEADER_PATTERN: &'static str = r#"-H\s+'([^']+)'"#;

/// The cookie argument `-b '...'`.
pub const COOKIE_PATTERN: &'static str = r#"-b\s+'([^']+)'"#;

/// The token of a `Bearer` credential.
pub const BEARER_PATTERN: &'static str = r#"Bearer\s+(\S+)"#;

/// What a `curl` command gives.
#[derive(Debug)]
pub struct ParsedCurl {
    pub bearer_token: String,
    pub cookie_str: String,
    pub user_agent: Option<String>,
    pub x_client_uuid: Option<String>,
    pub x_client_transaction_id: Option<String>,
}

/// The state of reading the headers: the bearer token and the three client
/// headers seen so far.
pub struct HeaderScan {
    pub bearer: Option<Seq<char>>,
    pub user_agent: Option<Seq<char>>,
    pub uuid: Option<Seq<char>>,
    pub transaction_id: Option<Seq<char>>,
}

/// The trimmed text after the first `:` of a header.
pub open spec fn header_value(h: Seq<char>) -> Seq<char> {
    match find_char(h, ':') {
        Some(i) => trim(h.skip(i + 1)),
        None => h,
    }
}

/// Reads one header: an `authorization` header sets the bearer token when
/// `Bearer <token>` occurs in it; `user-agent`, `x-client-uuid` and
/// `x-client-transaction-id` set their values.  Header names are compared
/// without regard to case.
pub open spec fn scan_header(s: HeaderScan, h: Seq<char>) -> HeaderScan {
    if starts_with_no_case(h, "authorization:"@) {
        match group_one_of_first(BEARER_PATTERN@, h) {
            Some(Some(Some(t))) => HeaderScan { bearer: Some(t), ..s },
            _ => s,
        }
    } else if starts_with_no_case(h, "user-agent:"@) {
        HeaderScan { user_agent: Some(header_value(h)), ..s }
    } else if starts_with_no_case(h, "x-client-uuid:"@) {
        HeaderScan { uuid: Some(header_value(h)), ..s }
    } else if starts_with_no_case(h, "x-client-transaction-id:"@) {
        HeaderScan { transaction_id: Some(header_value(h)), ..s }
    } else {
        s
    }
}

/// `h` begins with `name`, each small letter of `name` written small or
/// capital.
pub open spec fn begins_any_case(h: Seq<char>, name: Seq<char>) -> bool {
    &&& h.len() >= name.len()
    &&& forall|i: int|
        0 <= i < name.len() ==> (#[trigger] h[i] == name[i] || ('a' <= name[i] <= 'z' && (h[i]
            as int) + 32 == (name[i] as int)))
}

/// A name given in any case is found by the case-blind comparison.
proof fn lemma_begins_any_case(h: Seq<char>, name: Seq<char>)
    requires
        begins_any_case(h, name),
        forall|i: int| 0 <= i < name.len() ==> !('A' <= #[trigger] name[i] <= 'Z'),
    ensures
        starts_with_no_case(h, name),
{
    assert forall|i: int| 0 <= i < name.len() implies crate::text::ascii_lower(#[trigger] h[i])
        == name[i] by {
        let c = h[i];
        let l = name[i];
        if c != l {
            assert('a' <= l <= 'z' && (c as int) + 32 == (l as int));
            assert(65 <= (c as int) <= 90);
            assert('A' <= c <= 'Z');
            assert(((c as u32) + 32) as char == l);
        }
    }
}

/// Header names are read without regard to ASCII case: a header that starts
/// with `authorization:`, each letter small or capital, sets the bearer
/// token to the token that follows `Bearer` in it.
pub proof fn lemma_authorization_any_case(s: HeaderScan, h: Seq<char>, token: Seq<char>)
    requires
        begins_any_case(h, "authorization:"@),
        group_one_of_first(BEARER_PATTERN@, h) == Some(Some(Some(token))),
    ensures
        scan_header(s, h).bearer == Some(token),
        scan_header(s, h).user_agent == s.user_agent,
        scan_header(s, h).uuid == s.uuid,
        scan_header(s, h).transaction_id == s.transaction_id,
{
    reveal_strlit("authorization:");
    lemma_begins_any_case(h, "authorization:"@);
}

/// A header that starts with `user-agent:` in any case sets the user agent
/// to the trimmed text after its first `:`, and nothing else.
pub proof fn lemma_user_agent_any_case(s: HeaderScan, h: Seq<char>)
    requires
        begins_any_case(h, "user-agent:"@),
    ensures
        scan_header(s, h) == (HeaderScan { user_agent: Some(header_value(h)), ..s }),
{
    reveal_strlit("user-agent:");
    reveal_strlit("authorization:");
    lemma_begins_any_case(h, "user-agent:"@);
    assert(crate::text::ascii_lower(h[0]) == 'u');
}

/// A header that starts with `x-client-uuid:` in any case sets the client
/// uuid to the trimmed text after its first `:`, and nothing else.
pub proof fn lemma_uuid_any_case(s: HeaderScan, h: Seq<char>)
    requires
        begins_any_case(h, "x-client-uuid:"@),
    ensures
        scan_header(s, h) == (HeaderScan { uuid: Some(header_value(h)), ..s }),
{
    reveal_strlit("x-client-uuid:");
    reveal_strlit("authorization:");
    reveal_strlit("user-agent:");
    lemma_begins_any_case(h, "x-client-uuid:"@);
    assert(crate::text::ascii_lower(h[0]) == 'x');
}

/// A header that starts with `x-client-transaction-id:` in any case sets the
/// transaction id to the trimmed text after its first `:`, and nothing else.
pub proof fn lemma_transaction_id_any_case(s: HeaderScan, h: Seq<char>)
    requires
        begins_any_case(h, "x-client-transaction-id:"@),
    ensures
        scan_header(s, h) == (HeaderScan { transaction_id: Some(header_value(h)), ..s }),
{
    reveal_strlit("x-client-transaction-id:");
    reveal_strlit("x-client-uuid:");
    reveal_strlit("authorization:");
    reveal_strlit("user-agent:");
    lemma_begins_any_case(h, "x-client-transaction-id:"@);
    assert(crate::text::ascii_lower(h[0]) == 'x');
    assert(crate::text::ascii_lower(h[9]) == 't');
}

/// Reads the headers in order; a header without a captured text is skipped.
pub open spec fn scan_headers(hs: Seq<Option<Seq<char>>>) -> HeaderScan
    decreases hs.len(),
{
    if hs.len() == 0 {
        HeaderScan { bearer: None, user_agent: None, uuid: None, transaction_id: None }
    } else {
        let s = scan_headers(hs.drop_last());
        match hs.last() {
            Some(h) => scan_header(s, h),
            None => s,
        }
    }
}

/// What a `curl` command gives, or why it gives nothing: the headers are read
/// first, then the cookie argument must be present, then a bearer token.
pub open spec fn curl_result(cmd: Seq<char>) -> Result<(HeaderScan, Seq<char>), SetupError> {
    match group_one_of_all(HEADER_PATTERN@, cmd) {
        None => Err(SetupError::InvalidPattern),
        Some(hs) => {
            let s = scan_headers(hs);
            match group_one_of_first(COOKIE_PATTERN@, cmd) {
                None => Err(SetupError::InvalidPattern),
                Some(Some(Some(c))) => if s.bearer is Some {
                    Ok((s, c))
                } else {
                    Err(SetupError::BearerNotFound)
                },
                Some(_) => Err(SetupError::CookieNotFound),
            }
        },
    }
}

/// Whether `r` is what a `curl` command gives.
pub open spec fn curl_matches(r: Result<ParsedCurl, SetupError>, cmd: Seq<char>) -> bool {
    match (r, curl_result(cmd)) {
        (Ok(p), Ok((s, c))) => {
            &&& s.bearer == Some(p.bearer_token@)
            &&& p.cookie_str@ == c
            &&& crate::tweet_parser::opt_view(p.user_agent) == s.user_agent
            &&& crate::tweet_parser::opt_view(p.x_client_uuid) == s.uuid
            &&& crate::tweet_parser::opt_view(p.x_client_transaction_id) == s.transaction_id
        },
        (Err(e), Err(f)) => e == f,
        _ => false,
    }
}

/// The trimmed text after the first `:` of a header.
fn value_after_colon(h: &str) -> (r: String)
    ensures
        r@ == header_value(h@),
{
    let v = chars_of(h);
    match crate::text::find_char_in(&v, 0, v.len(), ':') {
        Some(i) => {
            assert(v@.subrange(0, v@.len() as int) == v@);
            assert(v@.skip(i + 1) == v@.subrange(i + 1, v@.len() as int));
            trim_range(&v, i + 1, v.len())
        },
        None => {
            assert(v@.subrange(0, v@.len() as int) == v@);
            owned(h)
        },
    }
}

/// Reads the bearer token, the cookie string and the client headers out of a
/// `curl` command.
pub fn parse_curl_command(curl_command: &str) -> (r: Result<ParsedCurl, SetupError>)
    ensures
        curl_matches(r, curl_command@),
{
    let headers = match captures_all(HEADER_PATTERN, curl_command) {
        Some(h) => h,
        None => {
            return Err(SetupError::InvalidPattern);
        },
    };
    let mut bearer_token: Option<String> = None;
    let mut user_agent: Option<String> = None;
    let mut x_client_uuid: Option<String> = None;
    let mut x_client_transaction_id: Option<String> = None;
    let ghost hs = opt_views(headers@);
    let mut i: usize = 0;
    assert(hs.take(0) == Seq::<Option<Seq<char>>>::empty());
    while i < headers.len()
        invariant
            i <= headers.len(),
            hs == opt_views(headers@),
            ({
                let s = scan_headers(hs.take(i as int));
                &&& crate::tweet_parser::opt_view(bearer_token) == s.bearer
                &&& crate::tweet_parser::opt_view(user_agent) == s.user_agent
                &&& crate::tweet_parser::opt_view(x_client_uuid) == s.uuid
                &&& crate::tweet_parser::opt_view(x_client_transaction_id) == s.transaction_id
            }),
        decreases headers.len() - i,
    {
        assert(hs.take(i + 1).drop_last() == hs.take(i as int));
        assert(hs.take(i + 1).last() == hs[i as int]);
        match &headers[i] {
            Some(h) => {
                if starts_with_no_case_str(h.as_str(), "authorization:") {
                    match captures_first(BEARER_PATTERN, h.as_str()) {
                        Some(Some(Some(t))) => {
                            bearer_token = Some(t);
                        },
                        _ => {},
                    }
                } else if starts_with_no_case_str(h.as_str(), "user-agent:") {
                    user_agent = Some(value_after_colon(h.as_str()));
                } else if starts_with_no_case_str(h.as_str(), "x-client-uuid:") {
                    x_client_uuid = Some(value_after_colon(h.as_str()));
                } else if starts_with_no_case_str(h.as_str(), "x-client-transaction-id:") {
                    x_client_transaction_id = Some(value_after_colon(h.as_str()));
                }
            },
            None => {},
        }
        i = i + 1;
    }
    assert(hs.take(hs.len() as int) == hs);
    let cookie_str = match captures_first(COOKIE_PATTERN, curl_command) {
        None => {
            return Err(SetupError::InvalidPattern);
        },
        Some(Some(Some(c))) => c,
        Some(_) => {
            return Err(SetupError::CookieNotFound);
        },
    };
    match bearer_token {
        Some(bearer_token) => Ok(
            ParsedCurl {
                bearer_token,
                cookie_str,
                user_agent,
                x_client_uuid,
                x_client_transaction_id,
            },
        ),
        None => Err(SetupError::BearerNotFound),
    }
}

/// The four cookies the account needs.
#[derive(Debug)]
pub struct ParsedCookies {
    pub twid: String,
    pub auth_token: String,
    pub ct0: String,
    pub personalization_id: String,
}

/// The name and value of a `name=value` cookie: the text before the first
/// `=`, trimmed, and the text after it, trimmed and without surrounding `"`.
pub open spec fn cookie_pair(part: Seq<char>) -> Option<(Seq<char>, Seq<char>)> {
    match find_char(part, '=') {
        Some(i) => Some((trim(part.take(i)), strip_both(trim(part.skip(i + 1)), '"'))),
        None => None,
    }
}

/// The cookies of the given parts, a later one replacing an earlier one of
/// the same name.
pub open spec fn cookies_of_parts(parts: Seq<Seq<char>>) -> Map<Seq<char>, Seq<char>>
    decreases parts.len(),
{
    if parts.len() == 0 {
        Map::empty()
    } else {
        let m = cookies_of_parts(parts.drop_last());
        match cookie_pair(parts.last()) {
            Some((k, v)) => m.insert(k, v),
            None => m,
        }
    }
}

/// The cookies of a `;`-separated cookie string.
pub open spec fn cookie_map(s: Seq<char>) -> Map<Seq<char>, Seq<char>> {
    cookies_of_parts(split_on(s, ';'))
}

/// The user id in a `twid` cookie: without a leading `u=`, and then without
/// a leading `u%3D`.
pub open spec fn twid_user(v: Seq<char>) -> Seq<char> {
    let a = if starts_with(v, "u="@) {
        v.skip("u="@.len() as int)
    } else {
        v
    };
    if starts_with(a, "u%3D"@) {
        a.skip("u%3D"@.len() as int)
    } else {
        a
    }
}

/// The first of the required cookies `twid`, `auth_token`, `ct0` and
/// `personalization_id` that `m` lacks, if any.
pub open spec fn missing_cookie(m: Map<Seq<char>, Seq<char>>) -> Option<Seq<char>> {
    if !m.contains_key("twid"@) {
        Some("twid"@)
    } else if !m.contains_key("auth_token"@) {
        Some("auth_token"@)
    } else if !m.contains_key("ct0"@) {
        Some("ct0"@)
    } else if !m.contains_key("personalization_id"@) {
        Some("personalization_id"@)
    } else {
        None
    }
}

/// Whether `r` is what the cookie string `s` gives: the first of `twid`,
/// `auth_token`, `ct0`, `personalization_id` that is missing is reported;
/// when none is, their values, with the `twid` value reduced to the user id.
pub open spec fn cookies_match(r: Result<ParsedCookies, SetupError>, s: Seq<char>) -> bool {
    let m = cookie_map(s);
    match missing_cookie(m) {
        Some(key) => r matches Err(SetupError::MissingCookie(k)) && k@ == key,
        None => {
            &&& r is Ok
            &&& r->Ok_0.twid@ == twid_user(m["twid"@])
            &&& r->Ok_0.auth_token@ == m["auth_token"@]
            &&& r->Ok_0.ct0@ == m["ct0"@]
            &&& r->Ok_0.personalization_id@ == m["personalization_id"@]
        },
    }
}

/// The parts that carry cookie `k`, in order.
pub open spec fn keyed_parts(parts: Seq<Seq<char>>, k: Seq<char>) -> Seq<Seq<char>>
    decreases parts.len(),
{
    if parts.len() == 0 {
        Seq::empty()
    } else {
        let prev = keyed_parts(parts.drop_last(), k);
        match cookie_pair(parts.last()) {
            Some((key, _)) => if key == k {
                prev.push(parts.last())
            } else {
                prev
            },
            None => prev,
        }
    }
}

/// A cookie is present exactly when some part carries it, and its value is
/// that of the last part that does.
proof fn lemma_cookie_is_last_keyed_part(parts: Seq<Seq<char>>, k: Seq<char>)
    ensures
        cookies_of_parts(parts).contains_key(k) == (keyed_parts(parts, k).len() > 0),
        keyed_parts(parts, k).len() > 0 ==> (cookie_pair(keyed_parts(parts, k).last()) matches Some(
            (key, v),
        ) && key == k && cookies_of_parts(parts)[k] == v),
    decreases parts.len(),
{
    if parts.len() > 0 {
        lemma_cookie_is_last_keyed_part(parts.drop_last(), k);
    }
}

/// The cookies read from a string depend only on the parts that carry the
/// required cookies: two strings whose parts carrying each of `twid`,
/// `auth_token`, `ct0` and `personalization_id` are the same read alike.
/// So the parts may be reordered, and parts without `=` or with other names
/// added, as long as no required cookie is given twice.
pub proof fn lemma_cookies_by_keyed_parts(s1: Seq<char>, s2: Seq<char>)
    requires
        keyed_parts(split_on(s1, ';'), "twid"@) == keyed_parts(split_on(s2, ';'), "twid"@),
        keyed_parts(split_on(s1, ';'), "auth_token"@) == keyed_parts(
            split_on(s2, ';'),
            "auth_token"@,
        ),
        keyed_parts(split_on(s1, ';'), "ct0"@) == keyed_parts(split_on(s2, ';'), "ct0"@),
        keyed_parts(split_on(s1, ';'), "personalization_id"@) == keyed_parts(
            split_on(s2, ';'),
            "personalization_id"@,
        ),
    ensures
        forall|r1: Result<ParsedCookies, SetupError>, r2: Result<ParsedCookies, SetupError>|
            #[trigger] cookies_match(r1, s1) && #[trigger] cookies_match(r2, s2) ==> match (
                r1,
                r2,
            ) {
                (Ok(a), Ok(b)) => a.twid@ == b.twid@ && a.auth_token@ == b.auth_token@ && a.ct0@
                    == b.ct0@ && a.personalization_id@ == b.personalization_id@,
                (Err(SetupError::MissingCookie(x)), Err(SetupError::MissingCookie(y))) => x@ == y@,
                _ => false,
            },
{
    let p1 = split_on(s1, ';');
    let p2 = split_on(s2, ';');
    lemma_cookie_is_last_keyed_part(p1, "twid"@);
    lemma_cookie_is_last_keyed_part(p2, "twid"@);
    lemma_cookie_is_last_keyed_part(p1, "auth_token"@);
    lemma_cookie_is_last_keyed_part(p2, "auth_token"@);
    lemma_cookie_is_last_keyed_part(p1, "ct0"@);
    lemma_cookie_is_last_keyed_part(p2, "ct0"@);
    lemma_cookie_is_last_keyed_part(p1, "personalization_id"@);
    lemma_cookie_is_last_keyed_part(p2, "personalization_id"@);
}

/// The cookies of a `;`-separated cookie string.
fn read_cookie_map(cookie_str: &str) -> (r: StringHashMap<String>)
    ensures
        map_view(r@) == cookie_map(cookie_str@),
{
    let v = chars_of(cookie_str);
    let ranges = split_ranges(&v, ';');
    let mut m: StringHashMap<String> = StringHashMap::new();
    let ghost parts = split_on(v@, ';');
    assert(map_view(m@) =~= Map::<Seq<char>, Seq<char>>::empty());
    let mut k: usize = 0;
    assert(parts.take(0) == Seq::<Seq<char>>::empty());
    while k < ranges.len()
        invariant
            v@ == cookie_str@,
            parts == split_on(v@, ';'),
            crate::text::ranges_in(ranges@, v@.len() as int),
            pieces(v@, ranges@) == parts,
            k <= ranges.len(),
            map_view(m@) == cookies_of_parts(parts.take(k as int)),
        decreases ranges.len() - k,
    {
        let (from, to) = ranges[k];
        let ghost part = v@.subrange(from as int, to as int);
        assert(part == parts[k as int]);
        assert(parts.take(k + 1).drop_last() == parts.take(k as int));
        assert(parts.take(k + 1).last() == part);
        match crate::text::find_char_in(&v, from, to, '=') {
            Some(eq) => {
                let key = trim_range(&v, from, eq);
                let raw = trim_range(&v, eq + 1, to);
                let value = strip_both_str(raw.as_str(), '"');
                assert(part.take(eq - from) == v@.subrange(from as int, eq as int));
                assert(part.skip(eq - from + 1) == v@.subrange(eq + 1, to as int));
                let ghost before = m@;
                m.insert(key, value);
                assert(map_view(m@) =~= map_view(before).insert(key@, value@));
            },
            None => {},
        }
        k = k + 1;
    }
    assert(parts.take(parts.len() as int) == parts);
    m
}

/// The value of a required cookie.
fn required(m: &StringHashMap<String>, key: &str) -> (r: Result<String, SetupError>)
    ensures
        match r {
            Ok(v) => map_view(m@).contains_key(key@) && v@ == map_view(m@)[key@],
            Err(e) => !map_view(m@).contains_key(key@) && (e matches SetupError::MissingCookie(k)
                && k@ == key@),
        },
{
    match m.get(key) {
        Some(v) => Ok(v.clone()),
        None => Err(SetupError::MissingCookie(owned(key))),
    }
}

/// Reads the four cookies the account needs out of a cookie string.
pub fn parse_cookies(cookie_str: &str) -> (r: Result<ParsedCookies, SetupError>)
    ensures
        cookies_match(r, cookie_str@),
{
    let m = read_cookie_map(cookie_str);
    let twid_raw = match required(&m, "twid") {
        Ok(v) => v,
        Err(e) => {
            return Err(e);
        },
    };
    let auth_token = match required(&m, "auth_token") {
        Ok(v) => v,
        Err(e) => {
            return Err(e);
        },
    };
    let ct0 = match required(&m, "ct0") {
        Ok(v) => v,
        Err(e) => {
            return Err(e);
        },
    };
    let personalization_id = match required(&m, "personalization_id") {
        Ok(v) => v,
        Err(e) => {
            return Err(e);
        },
    };
    let first = match strip_prefix_str(twid_raw.as_str(), "u=") {
        Some(t) => t,
        None => twid_raw,
    };
    let twid = match strip_prefix_str(first.as_str(), "u%3D") {
        Some(t) => t,
        None => first,
    };
    Ok(ParsedCookies { twid, auth_token, ct0, personalization_id })
}

/// A line `KEY=value` of the token file.
pub open spec fn token_line(key: Seq<char>, value: Seq<char>) -> Seq<char> {
    key.push('=') + value
}

/// The lines of the token file, one per token.
pub open spec fn token_lines(
    user_id: Seq<char>,
    bearer_token: Seq<char>,
    auth_token: Seq<char>,
    ct0: Seq<char>,
    personalization_id: Seq<char>,
    user_agent: Seq<char>,
    x_client_uuid: Seq<char>,
    x_client_transaction_id: Seq<char>,
) -> Seq<Seq<char>> {
    seq![
        token_line("USER_ID"@, user_id),
        token_line("BEARER_TOKEN"@, bearer_token),
        token_line("AUTH_TOKEN"@, auth_token),
        token_line("CT0"@, ct0),
        token_line("PERSONALIZATION_ID"@, personalization_id),
        token_line("USER_AGENT"@, user_agent),
        token_line("X_CLIENT_UUID"@, x_client_uuid),
        token_line("X_CLIENT_TRANSACTION_ID"@, x_client_transaction_id),
    ]
}

/// The text of the token file: its lines, each ended by a line break.
pub open spec fn tokens_file_text(
    user_id: Seq<char>,
    bearer_token: Seq<char>,
    auth_token: Seq<char>,
    ct0: Seq<char>,
    personalization_id: Seq<char>,
    user_agent: Seq<char>,
    x_client_uuid: Seq<char>,
    x_client_transaction_id: Seq<char>,
) -> Seq<char> {
    join_lines(
        token_lines(
            user_id,
            bearer_token,
            auth_token,
            ct0,
            personalization_id,
            user_agent,
            x_client_uuid,
            x_client_transaction_id,
        ),
    )
}

/// Appends the line `key=value` and a line break.
fn push_token_line(s: &mut String, key: &str, value: &str)
    ensures
        final(s)@ == old(s)@ + token_line(key@, value@).push('\n'),
{
    let ghost start = s@;
    push_str(s, key);
    push_char(s, '=');
    push_str(s, value);
    push_char(s, '\n');
    assert(s@ =~= start + token_line(key@, value@).push('\n'));
}

/// The text of the token file: one `KEY=value` line per token.
pub fn private_tokens_content(
    user_id: &str,
    bearer_token: &str,
    auth_token: &str,
    ct0: &str,
    personalization_id: &str,
    user_agent: &str,
    x_client_uuid: &str,
    x_client_transaction_id: &str,
) -> (r: String)
    ensures
        r@ == tokens_file_text(
            user_id@,
            bearer_token@,
            auth_token@,
            ct0@,
            personalization_id@,
            user_agent@,
            x_client_uuid@,
            x_client_transaction_id@,
        ),
{
    let ghost lines = token_lines(
        user_id@,
        bearer_token@,
        auth_token@,
        ct0@,
        personalization_id@,
        user_agent@,
        x_client_uuid@,
        x_client_transaction_id@,
    );
    let mut s = String::new();
    assert(s@ == Seq::<char>::empty());
    assert(join_lines(Seq::<Seq<char>>::empty()) == Seq::<char>::empty());
    push_token_line(&mut s, "USER_ID", user_id);
    assert(lines.take(1).drop_last() =~= Seq::<Seq<char>>::empty());
    assert(lines.take(1).last() == lines[0]);
    assert(s@ =~= join_lines(lines.take(1)));
    push_token_line(&mut s, "BEARER_TOKEN", bearer_token);
    assert(lines.take(2).drop_last() =~= lines.take(1));
    assert(lines.take(2).last() == lines[1]);
    assert(s@ =~= join_lines(lines.take(2)));
    push_token_line(&mut s, "AUTH_TOKEN", auth_token);
    assert(lines.take(3).drop_last() =~= lines.take(2));
    assert(lines.take(3).last() == lines[2]);
    assert(s@ =~= join_lines(lines.take(3)));
    push_token_line(&mut s, "CT0", ct0);
    assert(lines.take(4).drop_last() =~= lines.take(3));
    assert(lines.take(4).last() == lines[3]);
    assert(s@ =~= join_lines(lines.take(4)));
    push_token_line(&mut s, "PERSONALIZATION_ID", personalization_id);
    assert(lines.take(5).drop_last() =~= lines.take(4));
    assert(lines.take(5).last() == lines[4]);
    assert(s@ =~= join_lines(lines.take(5)));
    push_token_line(&mut s, "USER_AGENT", user_agent);
    assert(lines.take(6).drop_last() =~= lines.take(5));
    assert(lines.take(6).last() == lines[5]);
    assert(s@ =~= join_lines(lines.take(6)));
    push_token_line(&mut s, "X_CLIENT_UUID", x_client_uuid);
    assert(lines.take(7).drop_last() =~= lines.take(6));
    assert(lines.take(7).last() == lines[6]);
    assert(s@ =~= join_lines(lines.take(7)));
    push_token_line(&mut s, "X_CLIENT_TRANSACTION_ID", x_client_transaction_id);
    assert(lines.take(8).drop_last() =~= lines.take(7));
    assert(lines.take(8).last() == lines[7]);
    assert(lines.take(8) =~= lines);
    assert(s@ =~= join_lines(lines));
    s
}

/// The characters of an optional string, or nothing.
pub open spec fn or_empty(o: Option<Seq<char>>) -> Seq<char> {
    match o {
        Some(s) => s,
        None => Seq::empty(),
    }
}

/// An optional string, or the empty string.
fn text_or_empty(o: &Option<String>) -> (r: String)
    ensures
        r@ == or_empty(crate::tweet_parser::opt_view(*o)),
{
    match o {
        Some(s) => s.clone(),
        None => String::new(),
    }
}

/// The token file for a `curl` command: its bearer token and client headers
/// and the four cookies, the user id taken from `twid`; an absent client
/// header gives an empty value.
pub fn setup_tokens(curl_command: &str) -> (r: Result<String, SetupError>)
    ensures
        match curl_result(curl_command@) {
            Err(e) => r == Err::<String, SetupError>(e),
            Ok((s, c)) => {
                let m = cookie_map(c);
                match missing_cookie(m) {
                    Some(key) => r matches Err(SetupError::MissingCookie(k)) && k@ == key,
                    None => r is Ok && r->Ok_0@ == tokens_file_text(
                        twid_user(m["twid"@]),
                        s.bearer->0,
                        m["auth_token"@],
                        m["ct0"@],
                        m["personalization_id"@],
                        or_empty(s.user_agent),
                        or_empty(s.uuid),
                        or_empty(s.transaction_id),
                    ),
                }
            },
        },
{
    let parsed = match parse_curl_command(curl_command) {
        Ok(p) => p,
        Err(e) => {
            return Err(e);
        },
    };
    let cookies = match parse_cookies(parsed.cookie_str.as_str()) {
        Ok(c) => c,
        Err(e) => {
            return Err(e);
        },
    };
    let ua = text_or_empty(&parsed.user_agent);
    let uuid = text_or_empty(&parsed.x_client_uuid);
    let tid = text_or_empty(&parsed.x_client_transaction_id);
    Ok(
        private_tokens_content(
            cookies.twid.as_str(),
            parsed.bearer_token.as_str(),
            cookies.auth_token.as_str(),
            cookies.ct0.as_str(),
            cookies.personalization_id.as_str(),
            ua.as_str(),
            uuid.as_str(),
            tid.as_str(),
        ),
    )
}

} // verus!

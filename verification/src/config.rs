//! The settings of a backup run: the account's tokens and the options read
//! from the environment.
use vstd::prelude::*;
use vstd::hash_map::StringHashMap;

use crate::setup::{token_line, token_lines, tokens_file_text};
use crate::text::{
    alphanumeric, chars_of, find_char, integer_in, is_alphanumeric_char, is_true_text,
    is_true_word, lemma_find_char, lemma_split_joined_lines, owned, parse_integer, pieces,
    push_char, split_on, split_ranges, strip_leading, strip_leading_str, trim, trim_range,
    trim_str,
};

verus! {

/// The settings of a backup run.
#[derive(Debug, Clone)]
pub struct Config {
    // the account's tokens
    pub user_id: String,
    pub bearer_token: String,
    pub auth_token: String,
    pub ct0: String,
    pub personalization_id: String,
    pub user_agent: String,
    pub x_client_uuid: String,
    pub x_client_transaction_id: String,
    // what to download
    pub count: String,
    pub all: bool,
    pub download_dir: String,
    pub download_record: String,
    pub file_format: String,
    // whose tweets
    pub target_user_id: String,
    pub target_username: String,
    // filtering
    pub only_self: bool,
    // Markdown output
    pub save_markdown: bool,
    pub markdown_output: String,
    // diagnostics
    pub debug_logs: bool,
    // GraphQL query ids
    pub user_by_screen_name_query_id: String,
    pub user_tweets_query_id: String,
    // limits
    pub max_pages: usize,
    pub download_timeout_secs: u64,
}

/// The characters of the values of a map of strings.
pub open spec fn map_view(m: Map<Seq<char>, String>) -> Map<Seq<char>, Seq<char>> {
    m.map_values(|s: String| s@)
}

/// The key and value a `KEY=value` line holds: the text before the first `=`
/// and the text after it, each trimmed; none for a line without `=`.
pub open spec fn line_pair(line: Seq<char>) -> Option<(Seq<char>, Seq<char>)> {
    match find_char(line, '=') {
        Some(i) => Some((trim(line.take(i)), trim(line.skip(i + 1)))),
        None => None,
    }
}

/// The pairs of the given lines, a later line with the same key replacing
/// the value of an earlier one.
pub open spec fn pairs_of_lines(lines: Seq<Seq<char>>) -> Map<Seq<char>, Seq<char>>
    decreases lines.len(),
{
    if lines.len() == 0 {
        Map::empty()
    } else {
        let m = pairs_of_lines(lines.drop_last());
        match line_pair(lines.last()) {
            Some((k, v)) => m.insert(k, v),
            None => m,
        }
    }
}

/// The tokens a `KEY=value` file holds, line by line.
pub open spec fn private_tokens(content: Seq<char>) -> Map<Seq<char>, Seq<char>> {
    pairs_of_lines(split_on(content, '\n'))
}

/// A line `key=value` whose key holds no `=` reads as the trimmed key and
/// the trimmed value.
proof fn lemma_token_line_pair(key: Seq<char>, value: Seq<char>)
    requires
        forall|k: int| 0 <= k < key.len() ==> key[k] != '=',
    ensures
        line_pair(token_line(key, value)) == Some((trim(key), trim(value))),
{
    let line = token_line(key, value);
    assert(line[key.len() as int] == '=');
    assert forall|j: int| 0 <= j < key.len() implies line[j] != '=' by {
        assert(line[j] == key[j]);
    }
    lemma_find_char(line, '=', key.len() as int);
    assert(line.take(key.len() as int) =~= key);
    assert(line.skip(key.len() as int + 1) =~= value);
}

/// Reading one more line of a token file.
proof fn lemma_pairs_step(lines: Seq<Seq<char>>, n: int)
    requires
        0 <= n < lines.len(),
    ensures
        pairs_of_lines(lines.take(n + 1)) == match line_pair(lines[n]) {
            Some((k, v)) => pairs_of_lines(lines.take(n)).insert(k, v),
            None => pairs_of_lines(lines.take(n)),
        },
{
    assert(lines.take(n + 1).drop_last() =~= lines.take(n));
    assert(lines.take(n + 1).last() == lines[n]);
}

/// What setup writes, the settings read back: the token file that setup
/// writes gives each of its eight tokens, trimmed, under its key.
pub proof fn lemma_tokens_read_back(
    user_id: Seq<char>,
    bearer_token: Seq<char>,
    auth_token: Seq<char>,
    ct0: Seq<char>,
    personalization_id: Seq<char>,
    user_agent: Seq<char>,
    x_client_uuid: Seq<char>,
    x_client_transaction_id: Seq<char>,
)
    requires
        !user_id.contains('\n'),
        !bearer_token.contains('\n'),
        !auth_token.contains('\n'),
        !ct0.contains('\n'),
        !personalization_id.contains('\n'),
        !user_agent.contains('\n'),
        !x_client_uuid.contains('\n'),
        !x_client_transaction_id.contains('\n'),
    ensures
        private_tokens(
            tokens_file_text(
                user_id,
                bearer_token,
                auth_token,
                ct0,
                personalization_id,
                user_agent,
                x_client_uuid,
                x_client_transaction_id,
            ),
        ) == map![
            "USER_ID"@ => trim(user_id),
            "BEARER_TOKEN"@ => trim(bearer_token),
            "AUTH_TOKEN"@ => trim(auth_token),
            "CT0"@ => trim(ct0),
            "PERSONALIZATION_ID"@ => trim(personalization_id),
            "USER_AGENT"@ => trim(user_agent),
            "X_CLIENT_UUID"@ => trim(x_client_uuid),
            "X_CLIENT_TRANSACTION_ID"@ => trim(x_client_transaction_id),
        ],
{
    reveal_strlit("USER_ID");
    reveal_strlit("BEARER_TOKEN");
    reveal_strlit("AUTH_TOKEN");
    reveal_strlit("CT0");
    reveal_strlit("PERSONALIZATION_ID");
    reveal_strlit("USER_AGENT");
    reveal_strlit("X_CLIENT_UUID");
    reveal_strlit("X_CLIENT_TRANSACTION_ID");
    let keys = seq![
        "USER_ID"@,
        "BEARER_TOKEN"@,
        "AUTH_TOKEN"@,
        "CT0"@,
        "PERSONALIZATION_ID"@,
        "USER_AGENT"@,
        "X_CLIENT_UUID"@,
        "X_CLIENT_TRANSACTION_ID"@,
    ];
    let values = seq![
        user_id,
        bearer_token,
        auth_token,
        ct0,
        personalization_id,
        user_agent,
        x_client_uuid,
        x_client_transaction_id,
    ];
    let lines = token_lines(
        user_id,
        bearer_token,
        auth_token,
        ct0,
        personalization_id,
        user_agent,
        x_client_uuid,
        x_client_transaction_id,
    );
    assert forall|i: int| 0 <= i < 8 implies #[trigger] lines[i] == token_line(keys[i], values[i])
        && !values[i].contains('\n') && (forall|k: int| 0 <= k < keys[i].len() ==> keys[i][k] != '='
        && keys[i][k] != '\n') && trim(keys[i]) == keys[i] by {
        if i == 0 {
        } else if i == 1 {
        } else if i == 2 {
        } else if i == 3 {
        } else if i == 4 {
        } else if i == 5 {
        } else if i == 6 {
        } else {
        }
    }
    assert forall|i: int, k: int|
        0 <= i < lines.len() && 0 <= k < lines[i].len() implies #[trigger] lines[i][k] != '\n' by {
        let key = keys[i];
        let value = values[i];
        assert(lines[i] == token_line(key, value));
        if k > key.len() {
            assert(lines[i][k] == value[k - key.len() - 1]);
            assert(value.contains(value[k - key.len() - 1]));
        } else if k < key.len() {
            assert(lines[i][k] == key[k]);
        }
    }
    lemma_split_joined_lines(lines);
    let all = lines.push(Seq::<char>::empty());
    assert(find_char(Seq::<char>::empty(), '=') is None);
    assert(all.drop_last() =~= lines);
    assert(pairs_of_lines(all) == pairs_of_lines(lines));
    assert forall|i: int| 0 <= i < 8 implies #[trigger] line_pair(lines[i]) == Some(
        (keys[i], trim(values[i])),
    ) by {
        lemma_token_line_pair(keys[i], values[i]);
    }
    assert(pairs_of_lines(lines.take(0)) == Map::<Seq<char>, Seq<char>>::empty());
    lemma_pairs_step(lines, 0);
    lemma_pairs_step(lines, 1);
    lemma_pairs_step(lines, 2);
    lemma_pairs_step(lines, 3);
    lemma_pairs_step(lines, 4);
    lemma_pairs_step(lines, 5);
    lemma_pairs_step(lines, 6);
    lemma_pairs_step(lines, 7);
    assert(lines.take(8) =~= lines);
    assert(line_pair(lines[0]) == Some((keys[0], trim(values[0]))));
    assert(line_pair(lines[1]) == Some((keys[1], trim(values[1]))));
    assert(line_pair(lines[2]) == Some((keys[2], trim(values[2]))));
    assert(line_pair(lines[3]) == Some((keys[3], trim(values[3]))));
    assert(line_pair(lines[4]) == Some((keys[4], trim(values[4]))));
    assert(line_pair(lines[5]) == Some((keys[5], trim(values[5]))));
    assert(line_pair(lines[6]) == Some((keys[6], trim(values[6]))));
    assert(line_pair(lines[7]) == Some((keys[7], trim(values[7]))));
}

/// The value of `key`, or `default` when there is none.
pub open spec fn value_or(
    m: Map<Seq<char>, Seq<char>>,
    key: Seq<char>,
    default: Seq<char>,
) -> Seq<char> {
    if m.contains_key(key) {
        m[key]
    } else {
        default
    }
}

/// The characters of a user name that are kept: letters, digits and `_`.
pub open spec fn name_chars(s: Seq<char>) -> Seq<char>
    decreases s.len(),
{
    if s.len() == 0 {
        s
    } else {
        let prev = name_chars(s.drop_last());
        let c = s.last();
        if alphanumeric(c) || c == '_' {
            prev.push(c)
        } else {
            prev
        }
    }
}

/// A target user name as given in the environment, cleaned: trimmed,
/// without leading `@`, and only letters, digits and `_`.
pub open spec fn clean_target(s: Seq<char>) -> Seq<char> {
    name_chars(strip_leading(trim(s), '@'))
}

/// A cleaned target user name holds only letters, digits and `_`, and no
/// `@`, white space or other punctuation that could reach a request.
pub proof fn lemma_clean_target_chars(s: Seq<char>)
    ensures
        forall|k: int|
            0 <= k < clean_target(s).len() ==> alphanumeric(#[trigger] clean_target(s)[k])
                || clean_target(s)[k] == '_',
{
    lemma_name_chars(strip_leading(trim(s), '@'));
}

/// Every character `name_chars` keeps is a letter, a digit or `_`.
proof fn lemma_name_chars(s: Seq<char>)
    ensures
        forall|k: int|
            0 <= k < name_chars(s).len() ==> alphanumeric(#[trigger] name_chars(s)[k])
                || name_chars(s)[k] == '_',
    decreases s.len(),
{
    if s.len() > 0 {
        lemma_name_chars(s.drop_last());
        let prev = name_chars(s.drop_last());
        let r = name_chars(s);
        assert forall|k: int| 0 <= k < r.len() implies alphanumeric(#[trigger] r[k]) || r[k]
            == '_' by {
            if k < prev.len() {
                assert(r[k] == prev[k]);
            }
        }
    }
}

/// A count written in decimal, or `default` when the text is not one.
pub open spec fn count_or(text: Seq<char>, max: int, default: int) -> int {
    match integer_in(text, false, 0, max) {
        Some(v) => v,
        None => default,
    }
}

/// Reads the lines `KEY=value` of a token file into a map.  A line without
/// `=` is skipped; key and value are trimmed; a later line replaces an
/// earlier one with the same key.
pub fn parse_private_tokens(content: &str) -> (r: StringHashMap<String>)
    ensures
        map_view(r@) == private_tokens(content@),
{
    let v = chars_of(content);
    let ranges = split_ranges(&v, '\n');
    let mut m: StringHashMap<String> = StringHashMap::new();
    let ghost lines = split_on(v@, '\n');
    assert(map_view(m@) =~= Map::<Seq<char>, Seq<char>>::empty());
    let mut k: usize = 0;
    assert(lines.take(0) == Seq::<Seq<char>>::empty());
    while k < ranges.len()
        invariant
            v@ == content@,
            lines == split_on(v@, '\n'),
            crate::text::ranges_in(ranges@, v@.len() as int),
            pieces(v@, ranges@) == lines,
            k <= ranges.len(),
            map_view(m@) == pairs_of_lines(lines.take(k as int)),
        decreases ranges.len() - k,
    {
        let (from, to) = ranges[k];
        let ghost line = v@.subrange(from as int, to as int);
        assert(line == lines[k as int]);
        assert(lines.take(k + 1).drop_last() == lines.take(k as int));
        assert(lines.take(k + 1).last() == line);
        match crate::text::find_char_in(&v, from, to, '=') {
            Some(eq) => {
                let key = trim_range(&v, from, eq);
                let value = trim_range(&v, eq + 1, to);
                assert(line.take(eq - from) == v@.subrange(from as int, eq as int));
                assert(line.skip(eq - from + 1) == v@.subrange(eq + 1, to as int));
                let ghost before = m@;
                m.insert(key, value);
                assert(map_view(m@) =~= map_view(before).insert(key@, value@));
            },
            None => {},
        }
        k = k + 1;
    }
    assert(lines.take(lines.len() as int) == lines);
    m
}

/// The value of `key` in `m`, or `default`.
fn lookup_or(m: &StringHashMap<String>, key: &str, default: &str) -> (r: String)
    ensures
        r@ == value_or(map_view(m@), key@, default@),
{
    match m.get(key) {
        Some(v) => v.clone(),
        None => owned(default),
    }
}

/// Keeps the letters, digits and `_` of `s`.
fn keep_name_chars(s: &str) -> (r: String)
    ensures
        r@ == name_chars(s@),
{
    let v = chars_of(s);
    let mut out = String::new();
    let mut i: usize = 0;
    assert(v@.take(0) == Seq::<char>::empty());
    while i < v.len()
        invariant
            v@ == s@,
            i <= v.len(),
            out@ == name_chars(v@.take(i as int)),
        decreases v.len() - i,
    {
        assert(v@.take(i + 1).drop_last() == v@.take(i as int));
        assert(v@.take(i + 1).last() == v@[i as int]);
        let c = v[i];
        if is_alphanumeric_char(c) || c == '_' {
            push_char(&mut out, c);
        }
        i = i + 1;
    }
    assert(v@.take(v@.len() as int) == v@);
    out
}

/// The settings read from the token file's map `t` and the environment's
/// variables `e`: each setting takes its variable's value, or its default
/// when the variable is absent; flags are true when the value reads `true`
/// in any case; counts that do not parse take their default; the target
/// user is cleaned.
pub open spec fn settings_from(
    t: Map<Seq<char>, Seq<char>>,
    e: Map<Seq<char>, Seq<char>>,
    r: Config,
) -> bool {
    &&& r.user_id@ == value_or(t, "USER_ID"@, ""@)
    &&& r.bearer_token@ == value_or(t, "BEARER_TOKEN"@, ""@)
    &&& r.auth_token@ == value_or(t, "AUTH_TOKEN"@, ""@)
    &&& r.ct0@ == value_or(t, "CT0"@, ""@)
    &&& r.personalization_id@ == value_or(t, "PERSONALIZATION_ID"@, ""@)
    &&& r.user_agent@ == value_or(t, "USER_AGENT"@, ""@)
    &&& r.x_client_uuid@ == value_or(t, "X_CLIENT_UUID"@, ""@)
    &&& r.x_client_transaction_id@ == value_or(t, "X_CLIENT_TRANSACTION_ID"@, ""@)
    &&& r.count@ == value_or(e, "COUNT"@, "20"@)
    &&& r.all == is_true_word(value_or(e, "ALL"@, "true"@))
    &&& r.download_dir@ == value_or(e, "DOWNLOAD_DIR"@, "data/downloads"@)
    &&& r.download_record@ == value_or(e, "DOWNLOAD_RECORD"@, "data/downloaded_tweet_ids.txt"@)
    &&& r.file_format@ == value_or(e, "FILE_FORMAT"@, "{USERNAME} {ID}"@)
    &&& r.target_user_id@ == clean_target(value_or(e, "TARGET_USER_ID"@, ""@))
    &&& r.target_username@ == Seq::<char>::empty()
    &&& r.only_self == is_true_word(value_or(e, "ONLY_SELF"@, "false"@))
    &&& r.save_markdown == is_true_word(value_or(e, "SAVE_MARKDOWN"@, "true"@))
    &&& r.markdown_output@ == value_or(e, "MARKDOWN_OUTPUT"@, "data/tweets_backup.md"@)
    &&& r.debug_logs == is_true_word(value_or(e, "DEBUG_LOGS"@, "false"@))
    &&& r.user_by_screen_name_query_id@ ==
        value_or(e, "USER_BY_SCREEN_NAME_QUERY_ID"@, "6ND0OKRCgPajU_yJbcWSVw"@)
    &&& r.user_tweets_query_id@ == value_or(e, "USER_TWEETS_QUERY_ID"@, "V3vRrAJh5U6n9m1ZJ8xYQw"@)
    &&& r.max_pages as int == count_or(value_or(e, "MAX_PAGES"@, "50"@), usize::MAX as int, 50)
    &&& r.download_timeout_secs as int ==
        count_or(value_or(e, "DOWNLOAD_TIMEOUT_SECS"@, "30"@), u64::MAX as int, 30)
}

/// The variables of a list of `(name, value)` pairs, a later pair replacing
/// an earlier one with the same name.
pub open spec fn env_pairs(pairs: Seq<(String, String)>) -> Map<Seq<char>, Seq<char>>
    decreases pairs.len(),
{
    if pairs.len() == 0 {
        Map::empty()
    } else {
        env_pairs(pairs.drop_last()).insert(pairs.last().0@, pairs.last().1@)
    }
}

impl Config {
    /// Builds the settings from the token file's map and the environment's
    /// variables (see `settings_from`).
    fn from_maps(tokens: &StringHashMap<String>, env: &StringHashMap<String>) -> (r: Config)
        ensures
            settings_from(map_view(tokens@), map_view(env@), r),
    {
        let target = lookup_or(env, "TARGET_USER_ID", "");
        let trimmed = trim_str(target.as_str());
        let stripped = strip_leading_str(trimmed.as_str(), '@');
        let max_pages_text = lookup_or(env, "MAX_PAGES", "50");
        let max_pages = match parse_integer(max_pages_text.as_str(), false, 0, usize::MAX as i128) {
            Some(v) => v as usize,
            None => 50,
        };
        let timeout_text = lookup_or(env, "DOWNLOAD_TIMEOUT_SECS", "30");
        let download_timeout_secs = match parse_integer(
            timeout_text.as_str(),
            false,
            0,
            0xffff_ffff_ffff_ffff,
        ) {
            Some(v) => v as u64,
            None => 30,
        };
        Config {
            user_id: lookup_or(tokens, "USER_ID", ""),
            bearer_token: lookup_or(tokens, "BEARER_TOKEN", ""),
            auth_token: lookup_or(tokens, "AUTH_TOKEN", ""),
            ct0: lookup_or(tokens, "CT0", ""),
            personalization_id: lookup_or(tokens, "PERSONALIZATION_ID", ""),
            user_agent: lookup_or(tokens, "USER_AGENT", ""),
            x_client_uuid: lookup_or(tokens, "X_CLIENT_UUID", ""),
            x_client_transaction_id: lookup_or(tokens, "X_CLIENT_TRANSACTION_ID", ""),
            count: lookup_or(env, "COUNT", "20"),
            all: is_true_text(lookup_or(env, "ALL", "true").as_str()),
            download_dir: lookup_or(env, "DOWNLOAD_DIR", "data/downloads"),
            download_record: lookup_or(env, "DOWNLOAD_RECORD", "data/downloaded_tweet_ids.txt"),
            file_format: lookup_or(env, "FILE_FORMAT", "{USERNAME} {ID}"),
            target_user_id: keep_name_chars(stripped.as_str()),
            target_username: String::new(),
            only_self: is_true_text(lookup_or(env, "ONLY_SELF", "false").as_str()),
            save_markdown: is_true_text(lookup_or(env, "SAVE_MARKDOWN", "true").as_str()),
            markdown_output: lookup_or(env, "MARKDOWN_OUTPUT", "data/tweets_backup.md"),
            debug_logs: is_true_text(lookup_or(env, "DEBUG_LOGS", "false").as_str()),
            user_by_screen_name_query_id: lookup_or(
                env,
                "USER_BY_SCREEN_NAME_QUERY_ID",
                "6ND0OKRCgPajU_yJbcWSVw",
            ),
            user_tweets_query_id: lookup_or(env, "USER_TWEETS_QUERY_ID", "V3vRrAJh5U6n9m1ZJ8xYQw"),
            max_pages,
            download_timeout_secs,
        }
    }
    /// Builds the settings from the text of the token file and the
    /// environment's variables (see `settings_from`).
    pub fn from_sources(token_file: &str, env: &Vec<(String, String)>) -> (r: Config)
        ensures
            settings_from(private_tokens(token_file@), env_pairs(env@), r),
    {
        let tokens = parse_private_tokens(token_file);
        let mut vars: StringHashMap<String> = StringHashMap::new();
        let mut i: usize = 0;
        assert(map_view(vars@) =~= env_pairs(env@.take(0)));
        while i < env.len()
            invariant
                i <= env.len(),
                map_view(vars@) == env_pairs(env@.take(i as int)),
            decreases env.len() - i,
        {
            assert(env@.take(i + 1).drop_last() =~= env@.take(i as int));
            assert(env@.take(i + 1).last() == env@[i as int]);
            let ghost before = vars@;
            vars.insert(env[i].0.clone(), env[i].1.clone());
            assert(map_view(vars@) =~= map_view(before).insert(env@[i as int].0@, env@[i as int].1@));
            i = i + 1;
        }
        assert(env@.take(env@.len() as int) =~= env@);
        Self::from_maps(&tokens, &vars)
    }
}

} // verus!

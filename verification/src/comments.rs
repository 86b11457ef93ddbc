//! The comment list: which page a request asks for, the body that sends a
//! page, and the rule that spaces out the comments sent from one address.

use vstd::prelude::*;
use vstd::utf8::encode_utf8;
use crate::clock::{
    elapsed, elapsed_nanos, format_rfc3339, now, parse_rfc3339, rfc3339_instant, rfc3339_text,
    valid_instant, Instant, FOUR_DIGIT_YEARS_END, FOUR_DIGIT_YEARS_START,
};
use crate::text::{
    decimal, decimal_is_ascii_digits, parse_i64, parsed_i64, signed_decimal, signed_decimal_text,
    text_is,
};

verus! {

/// How many comments one page holds.
pub const PAGE_SIZE: i64 = 20;

/// The shortest time, in nanoseconds, that must pass between two comments
/// from one address: three seconds. A comment sent exactly three seconds
/// after the previous one is still refused.
pub const MIN_GAP_NANOS: i128 = 3_000_000_000;

// ---------------------------------------------------------------------------
// Which page a request asks for
// ---------------------------------------------------------------------------

/// The (name, value) pairs that `url::form_urlencoded::parse` reads from a
/// query, in the order in which they stand.
pub uninterp spec fn form_urlencoded_pairs(input: Seq<u8>) -> Seq<(Seq<char>, Seq<char>)>;

/// The texts of a list of pairs of strings.
pub open spec fn pair_texts(pairs: Seq<(String, String)>) -> Seq<(Seq<char>, Seq<char>)> {
    pairs.map_values(|p: (String, String)| (p.0@, p.1@))
}

/// `url::form_urlencoded::parse(input).into_owned()`, the pairs collected in
/// the order in which the parser yields them. The pairs are a function of the
/// input alone, named `form_urlencoded_pairs`.
#[verifier::external_body]
fn query_pairs(input: &[u8]) -> (r: Vec<(String, String)>)
    ensures
        pair_texts(r@) == form_urlencoded_pairs(input@),
{
    url::form_urlencoded::parse(input).into_owned().collect()
}

/// The value of the last pair named `key`: the one that stays when the pairs
/// are gathered into a map, each overwriting the one before it.
pub open spec fn last_value(pairs: Seq<(Seq<char>, Seq<char>)>, key: Seq<char>) -> Option<
    Seq<char>,
>
    decreases pairs.len(),
{
    if pairs.len() == 0 {
        None
    } else if pairs.last().0 == key {
        Some(pairs.last().1)
    } else {
        last_value(pairs.drop_last(), key)
    }
}

/// The text of an optional string.
pub open spec fn opt_text(s: Option<&str>) -> Option<Seq<char>> {
    match s {
        Some(t) => Some(t@),
        None => None,
    }
}

/// The value of the `page` parameter of a query, if the request has a query
/// and the query names the page.
pub open spec fn page_param(query: Option<Seq<char>>) -> Option<Seq<char>> {
    match query {
        Some(q) => last_value(form_urlencoded_pairs(encode_utf8(q)), "page"@),
        None => None,
    }
}

/// The index of the page that a `page` value asks for: pages are numbered
/// from 1 in the query and from 0 here; no value, or one that is not a
/// number, asks for the first page.
pub open spec fn page_number(value: Option<Seq<char>>) -> int {
    match value {
        Some(v) => match parsed_i64(encode_utf8(v)) {
            Some(n) => n - 1,
            None => 0,
        },
        None => 0,
    }
}

/// The page that a request with the query `query` asks for, where that index
/// is an `i64`; `None` for `page=-9223372036854775808`, whose index lies
/// below the range of `i64`.
pub open spec fn query_page(query: Option<Seq<char>>) -> Option<int> {
    let n = page_number(page_param(query));
    if n >= i64::MIN {
        Some(n)
    } else {
        None
    }
}

/// The index, from 0, of the page that the `page` value asks for.
pub fn page_index(value: Option<&str>) -> (r: i64)
    requires
        page_number(opt_text(value)) >= i64::MIN,
    ensures
        r == page_number(opt_text(value)),
{
    match value {
        Some(v) => match parse_i64(v) {
            Some(n) => n - 1,
            None => 0,
        },
        None => 0,
    }
}

/// The last value named `key` among `pairs`.
fn find_last_value<'a>(pairs: &'a Vec<(String, String)>, key: &str) -> (r: Option<&'a String>)
    ensures
        match r {
            Some(s) => last_value(pair_texts(pairs@), key@) == Some(s@),
            None => last_value(pair_texts(pairs@), key@) is None,
        },
{
    let mut i: usize = pairs.len();
    assert(pairs@.subrange(0, i as int) =~= pairs@);
    while i > 0
        invariant
            i <= pairs.len(),
            last_value(pair_texts(pairs@), key@) == last_value(
                pair_texts(pairs@.subrange(0, i as int)),
                key@,
            ),
        decreases i,
    {
        let ghost prefix = pairs@.subrange(0, i as int);
        assert(pair_texts(prefix).drop_last() =~= pair_texts(pairs@.subrange(0, i - 1)));
        assert(pair_texts(prefix).last() == (pairs@[i - 1].0@, pairs@[i - 1].1@));
        i = i - 1;
        if text_is(pairs[i].0.as_str(), key) {
            return Some(&pairs[i].1);
        }
    }
    assert(pair_texts(pairs@.subrange(0, 0)) =~= Seq::<(Seq<char>, Seq<char>)>::empty());
    None
}

/// The page, from 0, that a request with the query `query` asks for:
/// `page=<n>` asks for page `n - 1`, and no `page`, or one that is not an
/// `i64`, for page 0. Where several pairs are named `page` the last one
/// counts. `None` where that index lies below the range of `i64`.
pub fn requested_page(query: Option<&str>) -> (r: Option<i64>)
    ensures
        match r {
            Some(n) => query_page(opt_text(query)) == Some(n as int),
            None => query_page(opt_text(query)) is None,
        },
{
    let pairs: Vec<(String, String)> = match query {
        Some(q) => query_pairs(q.as_bytes()),
        None => Vec::new(),
    };
    proof {
        reveal_strlit("page");
        if query is None {
            assert(pair_texts(pairs@) =~= Seq::<(Seq<char>, Seq<char>)>::empty());
        }
    }
    let found = find_last_value(&pairs, "page");
    let value: Option<&str> = match found {
        Some(s) => Some(s.as_str()),
        None => None,
    };
    assert(opt_text(value) == page_param(opt_text(query)));
    let too_low = match value {
        Some(v) => match parse_i64(v) {
            Some(n) => n == i64::MIN,
            None => false,
        },
        None => false,
    };
    if too_low {
        None
    } else {
        Some(page_index(value))
    }
}

// ---------------------------------------------------------------------------
// The page that a response sends
// ---------------------------------------------------------------------------

/// Where the comments of page `page` start in the list, newest first.
pub fn page_offset(page: i64) -> (r: i64)
    requires
        i64::MIN <= PAGE_SIZE * page <= i64::MAX,
    ensures
        r == PAGE_SIZE * page,
{
    PAGE_SIZE * page
}

/// Integer division that rounds towards zero, as Rust's `/` does.
pub open spec fn div_toward_zero(a: int, b: int) -> int {
    if a >= 0 {
        a / b
    } else {
        -((-a) / b)
    }
}

/// How many pages `total` comments fill: `(total + 19) / 20`.
pub open spec fn page_count_of(total: int) -> int {
    div_toward_zero(total + PAGE_SIZE - 1, PAGE_SIZE as int)
}

/// How many pages `total` comments fill.
pub fn page_count(total: i64) -> (r: i64)
    requires
        total <= i64::MAX - (PAGE_SIZE - 1),
    ensures
        r == page_count_of(total as int),
{
    (total + (PAGE_SIZE - 1)) / PAGE_SIZE
}

/// The lowercase hexadecimal digit of `d`, from 0 to 15.
pub open spec fn hex_digit(d: int) -> char {
    if d < 10 {
        (48 + d) as char
    } else {
        (87 + d) as char
    }
}

/// How serde_json writes one character inside a JSON string: `"` and `\`
/// after a backslash, the control characters that have a short escape as
/// `\b`, `\t`, `\n`, `\f`, `\r`, the other characters below U+0020 as
/// `\u00` and two lowercase hexadecimal digits, and every other character
/// as itself.
pub open spec fn escaped_char(c: char) -> Seq<char> {
    if c == '"' {
        seq!['\\', '"']
    } else if c == '\\' {
        seq!['\\', '\\']
    } else if c == '\u{08}' {
        seq!['\\', 'b']
    } else if c == '\t' {
        seq!['\\', 't']
    } else if c == '\n' {
        seq!['\\', 'n']
    } else if c == '\u{0c}' {
        seq!['\\', 'f']
    } else if c == '\r' {
        seq!['\\', 'r']
    } else if (c as u32) < 0x20 {
        seq!['\\', 'u', '0', '0', hex_digit((c as int) / 16), hex_digit((c as int) % 16)]
    } else {
        seq![c]
    }
}

/// The characters of `s`, each written as serde_json writes it inside a
/// JSON string.
pub open spec fn escaped(s: Seq<char>) -> Seq<char>
    decreases s.len(),
{
    if s.len() == 0 {
        seq![]
    } else {
        escaped(s.drop_last()) + escaped_char(s.last())
    }
}

/// The JSON string literal for the text `s`, as serde_json writes it: the
/// escaped characters between double quotes.
pub open spec fn json_string(s: Seq<char>) -> Seq<char> {
    seq!['"'] + escaped(s) + seq!['"']
}

/// `serde_json::to_string(s)` for a string slice: the JSON string literal
/// `json_string(s)`. serde_json reports no error for a string.
#[verifier::external_body]
fn json_string_text(s: &str) -> (r: String)
    ensures
        r@ == json_string(s@),
{
    serde_json::to_string(s).unwrap()
}

/// The body that sends a page of comments: a JSON object whose `result`
/// holds the page as a JSON text and whose `length` holds the number of
/// pages, both as strings.
pub open spec fn comments_body(rows: Seq<char>, pages: int) -> Seq<char> {
    "{\"result\":"@ + json_string(rows) + ",\"length\":"@ + json_string(signed_decimal(pages))
        + "}"@
}

/// The body that sends a page of comments, from the page's comments written
/// as JSON and the number of comments stored in all.
pub fn comments_page_body(rows_json: &str, total: i64) -> (r: String)
    requires
        total <= i64::MAX - (PAGE_SIZE - 1),
    ensures
        r@ == comments_body(rows_json@, page_count_of(total as int)),
{
    let pages = page_count(total);
    let pages_text = signed_decimal_text(pages);
    let mut body = String::new();
    body.append("{\"result\":");
    body.append(json_string_text(rows_json).as_str());
    body.append(",\"length\":");
    body.append(json_string_text(pages_text.as_str()).as_str());
    body.append("}");
    assert(body@ =~= comments_body(rows_json@, page_count_of(total as int)));
    body
}

// ---------------------------------------------------------------------------
// Spacing out the comments from one address
// ---------------------------------------------------------------------------

/// Whether a comment sent at `now` may be stored: always without the time
/// limit or without an earlier comment from the address; otherwise only if
/// more than three seconds passed since the earlier comment.
pub open spec fn may_comment(with_time_limit: bool, last: Option<Instant>, now: Instant) -> bool {
    match last {
        Some(t) => !with_time_limit || elapsed_nanos(now, t) > MIN_GAP_NANOS,
        None => true,
    }
}

/// Whether a comment sent at `now` may be stored, given the time of the
/// latest earlier comment from the same address.
pub fn comment_allowed(with_time_limit: bool, last: Option<Instant>, now: Instant) -> (r: bool)
    ensures
        r == may_comment(with_time_limit, last, now),
{
    match last {
        Some(t) => !with_time_limit || elapsed(now, t) > MIN_GAP_NANOS,
        None => true,
    }
}

/// What to do with a new comment.
pub enum CommentPlan {
    /// Refuse it with `403 Forbidden`: it came too soon after the previous one.
    Refused,
    /// Store it, with `datetime` as its time.
    Store { datetime: String },
}

/// Decides what to do with a comment sent at `time` when the clock reads
/// `now`, given the times (RFC 3339 texts) of the latest earlier comment
/// from the same address, which the store gives when the time limit applies.
/// `None` where the store holds more than one latest time or a time that is
/// not RFC 3339. A stored comment keeps `time` as its RFC 3339 text, which
/// reads back as `time` for years of four digits.
pub fn plan_comment_at(
    time: Instant,
    with_time_limit: bool,
    previous: &Vec<String>,
    now: Instant,
) -> (r: Option<CommentPlan>)
    requires
        valid_instant(time),
    ensures
        r is None <==> with_time_limit && (previous.len() > 1 || (previous.len() == 1
            && rfc3339_instant(previous@[0]@) is None)),
        r matches Some(CommentPlan::Store { datetime }) ==> datetime@ == rfc3339_text(
            time.secs,
            time.nanos,
        ),
        r matches Some(CommentPlan::Store { datetime }) ==> (FOUR_DIGIT_YEARS_START <= time.secs
            <= FOUR_DIGIT_YEARS_END ==> rfc3339_instant(datetime@) == Some(time)),
        r is Some ==> (r matches Some(CommentPlan::Refused) <==> with_time_limit && previous.len()
            == 1 && !may_comment(true, rfc3339_instant(previous@[0]@), now)),
{
    let datetime = format_rfc3339(time);
    if !with_time_limit || previous.len() == 0 {
        return Some(CommentPlan::Store { datetime });
    }
    if previous.len() > 1 {
        return None;
    }
    let last = parse_rfc3339(previous[0].as_str());
    if last.is_none() {
        return None;
    }
    if comment_allowed(true, last, now) {
        Some(CommentPlan::Store { datetime })
    } else {
        Some(CommentPlan::Refused)
    }
}

/// Decides what to do with a comment sent at `time`, as `plan_comment_at`
/// does, with the current time read from the clock. The outcome is that of
/// `plan_comment_at` for some instant that the clock can give: after 1970,
/// outside leap seconds.
pub fn plan_comment(time: Instant, with_time_limit: bool, previous: &Vec<String>) -> (r: Option<
    CommentPlan,
>)
    requires
        valid_instant(time),
    ensures
        r is None <==> with_time_limit && (previous.len() > 1 || (previous.len() == 1
            && rfc3339_instant(previous@[0]@) is None)),
        r matches Some(CommentPlan::Store { datetime }) ==> datetime@ == rfc3339_text(
            time.secs,
            time.nanos,
        ),
        r matches Some(CommentPlan::Store { datetime }) ==> (FOUR_DIGIT_YEARS_START <= time.secs
            <= FOUR_DIGIT_YEARS_END ==> rfc3339_instant(datetime@) == Some(time)),
        !with_time_limit || previous.len() == 0 ==> r matches Some(CommentPlan::Store { .. }),
        exists|t: Instant|
            #![trigger t.nanos]
            valid_instant(t) && t.secs >= 0 && t.nanos < 1_000_000_000 && (r is Some ==> (r matches Some(
                CommentPlan::Refused,
            ) <==> with_time_limit && previous.len() == 1 && !may_comment(
                true,
                rfc3339_instant(previous@[0]@),
                t,
            ))),
{
    let current = now();
    let r = plan_comment_at(time, with_time_limit, previous, current);
    assert(valid_instant(current) && current.secs >= 0 && current.nanos < 1_000_000_000 && (r is Some
        ==> (r matches Some(CommentPlan::Refused) <==> with_time_limit && previous.len() == 1
        && !may_comment(true, rfc3339_instant(previous@[0]@), current))));
    r
}

} // verus!

verus! {

/// The page count is the ceiling of the number of comments over the page
/// size: every stored comment lies on one of the pages, and the last page
/// is not empty.
pub proof fn pages_cover_comments(total: int)
    requires
        0 <= total,
    ensures
        page_count_of(total) >= 0,
        page_count_of(total) * PAGE_SIZE >= total,
        total > 0 ==> (page_count_of(total) - 1) * PAGE_SIZE < total,
        total == 0 ==> page_count_of(total) == 0,
{
}

/// A comment whose place in the list, newest first, is `k` lies on page
/// `k / 20`: that page starts at or before it, ends after it, and is one of
/// the pages counted.
pub proof fn comment_lies_on_its_page(total: int, k: int)
    requires
        0 <= k < total,
    ensures
        0 <= k / (PAGE_SIZE as int) < page_count_of(total),
        PAGE_SIZE * (k / (PAGE_SIZE as int)) <= k < PAGE_SIZE * (k / (PAGE_SIZE as int)) + PAGE_SIZE,
{
}

/// Without the time limit every comment is stored.
pub proof fn no_limit_stores_every_comment(last: Option<Instant>, now: Instant)
    ensures
        may_comment(false, last, now),
{
}

/// With the time limit, a comment that follows the previous one from the
/// same address by three seconds or less is refused, and one that follows
/// it by more is stored (outside leap seconds, the time between two instants
/// is the plain difference of seconds and nanoseconds).
pub proof fn comments_three_seconds_apart(last: Instant, now: Instant)
    requires
        last.nanos < 1_000_000_000,
        now.nanos < 1_000_000_000,
    ensures
        may_comment(true, Some(last), now) <==> (now.secs - last.secs) * 1_000_000_000 + now.nanos
            - last.nanos > 3_000_000_000,
{
}

/// The first comment from an address is always stored.
pub proof fn first_comment_is_stored(with_time_limit: bool, now: Instant)
    ensures
        may_comment(with_time_limit, None, now),
{
}

/// Digits and minus signs need no escape inside a JSON string.
proof fn lemma_plain_text_unescaped(s: Seq<char>)
    requires
        forall|i: int| 0 <= i < s.len() ==> ('0' <= #[trigger] s[i] <= '9' || s[i] == '-'),
    ensures
        escaped(s) == s,
    decreases s.len(),
{
    if s.len() > 0 {
        let p = s.drop_last();
        assert forall|i: int| 0 <= i < p.len() implies ('0' <= #[trigger] p[i] <= '9' || p[i]
            == '-') by {
            assert(p[i] == s[i]);
        }
        lemma_plain_text_unescaped(p);
        let c = s.last();
        assert('0' <= c <= '9' || c == '-');
        assert(escaped_char(c) == seq![c]);
        assert(p + seq![c] =~= s);
    }
}

/// The number of pages stands in a page body as its plain decimal digits
/// between quotes: `"length":"<pages>"`, which a JSON reader decodes to the
/// decimal text of the page count.
pub proof fn page_count_shown_plainly(rows: Seq<char>, pages: int)
    ensures
        comments_body(rows, pages) == "{\"result\":"@ + json_string(rows) + ",\"length\":\""@
            + signed_decimal(pages) + "\"}"@,
{
    let n: nat = if pages < 0 {
        (-pages) as nat
    } else {
        pages as nat
    };
    decimal_is_ascii_digits(n);
    let d = signed_decimal(pages);
    assert forall|i: int| 0 <= i < d.len() implies ('0' <= #[trigger] d[i] <= '9' || d[i] == '-') by {
        if pages < 0 && i > 0 {
            assert(d[i] == decimal(n)[i - 1]);
        }
    }
    lemma_plain_text_unescaped(d);
    reveal_strlit(",\"length\":");
    reveal_strlit(",\"length\":\"");
    reveal_strlit("}");
    reveal_strlit("\"}");
    assert(comments_body(rows, pages) =~= "{\"result\":"@ + json_string(rows) + ",\"length\":\""@
        + signed_decimal(pages) + "\"}"@);
}

/// A numeric `page` value asks for the page before it, counted from 0: a
/// value that `str::parse::<i64>` reads as `n` gives index `n - 1`.
pub proof fn numeric_page_value_is_index(value: Seq<char>, n: int)
    requires
        parsed_i64(encode_utf8(value)) == Some(n),
    ensures
        page_number(Some(value)) == n - 1,
{
}

/// No `page` value, or one that is not an `i64`, asks for the first page.
pub proof fn missing_or_non_numeric_page_is_first(value: Seq<char>)
    ensures
        page_number(None) == 0,
        parsed_i64(encode_utf8(value)) is None ==> page_number(Some(value)) == 0,
{
}

/// The page `k` written in decimal, for `1 <= k <= i64::MAX`, asks for the
/// page of index `k - 1`.
pub proof fn decimal_page_value_is_index(k: nat)
    requires
        1 <= k <= i64::MAX,
    ensures
        page_number(Some(decimal(k))) == k - 1,
{
    crate::text::decimal_reads_back(k);
}

/// A query whose last `page` pair has a value that reads as the number `n`
/// (above `i64::MIN`) asks for page `n - 1`; a query with no `page` pair, and
/// a request with no query, ask for page 0.
pub proof fn query_asks_for_its_page(query: Seq<char>, value: Seq<char>, n: int)
    requires
        i64::MIN < n <= i64::MAX,
    ensures
        last_value(form_urlencoded_pairs(encode_utf8(query)), "page"@) == Some(value)
            && parsed_i64(encode_utf8(value)) == Some(n) ==> query_page(Some(query)) == Some(
            n - 1,
        ),
        last_value(form_urlencoded_pairs(encode_utf8(query)), "page"@) is None ==> query_page(
            Some(query),
        ) == Some(0int),
        query_page(None) == Some(0int),
{
}

/// The `length` of a page body reads back as the number of pages, which is
/// the ceiling of the number of comments over the page size.
pub proof fn length_reads_back_as_page_count(rows: Seq<char>, total: int)
    requires
        0 <= total <= i64::MAX - (PAGE_SIZE - 1),
    ensures
        comments_body(rows, page_count_of(total)) == "{\"result\":"@ + json_string(rows)
            + ",\"length\":\""@ + signed_decimal(page_count_of(total)) + "\"}"@,
        parsed_i64(encode_utf8(signed_decimal(page_count_of(total)))) == Some(
            page_count_of(total),
        ),
        page_count_of(total) * PAGE_SIZE >= total,
        total > 0 ==> (page_count_of(total) - 1) * PAGE_SIZE < total,
{
    page_count_shown_plainly(rows, page_count_of(total));
    pages_cover_comments(total);
    crate::text::signed_decimal_reads_back(page_count_of(total));
}

} // verus!

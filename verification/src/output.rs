//! Markdown rendering of results, and the number, duration and date formats
//! it uses.
use vstd::prelude::*;
use crate::model::{
    ChannelVideosResult, SearchResult, TranscriptEntry, TranscriptResult, VideoDetail,
    VideoSummary, VideoSummaryView, opt_view, summaries_view,
};
use crate::text::{
    ascii_digit, char_utf8_len, chars_of, decimal, decimal2, is_ascii_digit, join,
    join_strings, lemma_encode_utf8_concat, push_char, push_decimal, push_decimal2, push_str,
    string_from_chars, string_of, utf8_len, views,
};

verus! {

// ---------------------------------------------------------------------------
// Durations and clock times
// ---------------------------------------------------------------------------

/// `H:MM:SS` when there are hours, else `M:SS`.
pub open spec fn duration_text(total: nat) -> Seq<char> {
    let hours = total / 3600;
    let mins = (total % 3600) / 60;
    let secs = total % 60;
    if hours > 0 {
        decimal(hours) + seq![':'] + decimal2(mins) + seq![':'] + decimal2(secs)
    } else {
        decimal(mins) + seq![':'] + decimal2(secs)
    }
}

/// The hours, minutes and seconds shown add back up to the duration, and the
/// minutes and seconds are below sixty.
pub proof fn lemma_duration_parts(total: nat)
    ensures
        (total / 3600) * 3600 + ((total % 3600) / 60) * 60 + total % 60 == total,
        (total % 3600) / 60 < 60,
        total % 60 < 60,
{
    assert((total % 3600) / 60 * 60 + total % 60 == total % 3600) by (nonlinear_arith);
    assert((total / 3600) * 3600 + total % 3600 == total) by (nonlinear_arith);
    assert((total % 3600) / 60 < 60) by (nonlinear_arith);
}

/// Formats a number of seconds as `H:MM:SS`, or `M:SS` under an hour.
pub fn format_duration(total_seconds: u64) -> (r: String)
    ensures
        r@ == duration_text(total_seconds as nat),
{
    let hours = total_seconds / 3600;
    let mins = (total_seconds % 3600) / 60;
    let secs = total_seconds % 60;
    let mut out = String::new();
    if hours > 0 {
        push_decimal(&mut out, hours);
        push_char(&mut out, ':');
        push_decimal2(&mut out, mins);
        push_char(&mut out, ':');
        push_decimal2(&mut out, secs);
        proof {
            assert(out@ =~= duration_text(total_seconds as nat));
        }
    } else {
        push_decimal(&mut out, mins);
        push_char(&mut out, ':');
        push_decimal2(&mut out, secs);
        proof {
            assert(out@ =~= duration_text(total_seconds as nat));
        }
    }
    out
}

// ---------------------------------------------------------------------------
// Grouped numbers
// ---------------------------------------------------------------------------

/// The ASCII digits of `s`, in order.
pub open spec fn digits_of(s: Seq<char>) -> Seq<char>
    decreases s.len(),
{
    if s.len() == 0 {
        Seq::empty()
    } else if is_ascii_digit(s.last()) {
        digits_of(s.drop_last()).push(s.last())
    } else {
        digits_of(s.drop_last())
    }
}

/// The first `k` digits of `d`, with a comma before each digit that starts a
/// group of three counted from the right end of `d`.
pub open spec fn grouped(d: Seq<char>, k: nat) -> Seq<char>
    decreases k,
{
    if k == 0 {
        Seq::empty()
    } else {
        let i = (k - 1) as nat;
        grouped(d, i) + (if i > 0 && (d.len() - i) % 3 == 0 {
            seq![',']
        } else {
            Seq::empty()
        }) + seq![d[i as int]]
    }
}

/// `s` with its digits grouped by three with commas; `s` itself when it has no digits.
pub open spec fn number_text(s: Seq<char>) -> Seq<char> {
    let d = digits_of(s);
    if d.len() == 0 {
        s
    } else {
        grouped(d, d.len())
    }
}

/// Characters of `s` other than commas.
pub open spec fn without_commas(s: Seq<char>) -> Seq<char>
    decreases s.len(),
{
    if s.len() == 0 {
        Seq::empty()
    } else if s.last() == ',' {
        without_commas(s.drop_last())
    } else {
        without_commas(s.drop_last()).push(s.last())
    }
}

proof fn lemma_without_commas_concat(a: Seq<char>, b: Seq<char>)
    ensures
        without_commas(a + b) == without_commas(a) + without_commas(b),
    decreases b.len(),
{
    if b.len() == 0 {
        assert(a + b =~= a);
        assert(without_commas(a) + Seq::<char>::empty() =~= without_commas(a));
    } else {
        lemma_without_commas_concat(a, b.drop_last());
        assert((a + b).drop_last() =~= a + b.drop_last());
        assert((a + b).last() == b.last());
        if b.last() != ',' {
            assert(without_commas(a) + without_commas(b.drop_last()).push(b.last()) =~= (
            without_commas(a) + without_commas(b.drop_last())).push(b.last()));
        }
    }
}

proof fn lemma_grouped_without_commas(d: Seq<char>, k: nat)
    requires
        k <= d.len(),
        forall|i: int| 0 <= i < d.len() ==> #[trigger] d[i] != ',',
    ensures
        without_commas(grouped(d, k)) == d.take(k as int),
        grouped(d, k).len() >= k,
    decreases k,
{
    if k > 0 {
        let i = (k - 1) as nat;
        lemma_grouped_without_commas(d, i);
        let sep: Seq<char> = if i > 0 && (d.len() - i) % 3 == 0 { seq![','] } else { Seq::empty() };
        lemma_without_commas_concat(grouped(d, i), sep);
        lemma_without_commas_concat(grouped(d, i) + sep, seq![d[i as int]]);
        reveal_with_fuel(without_commas, 2);
        assert(seq![d[i as int]].drop_last() =~= Seq::<char>::empty());
        if sep.len() > 0 {
            assert(sep.drop_last() =~= Seq::<char>::empty());
        }
        assert(without_commas(sep) =~= Seq::<char>::empty());
        assert(without_commas(seq![d[i as int]]) =~= seq![d[i as int]]);
        assert(d.take(k as int) =~= d.take(i as int) + seq![d[i as int]]);
    }
}

proof fn lemma_digits_of_digits(s: Seq<char>)
    ensures
        forall|i: int| 0 <= i < digits_of(s).len() ==> is_ascii_digit(#[trigger] digits_of(s)[i]),
    decreases s.len(),
{
    if s.len() > 0 {
        lemma_digits_of_digits(s.drop_last());
        let p = digits_of(s.drop_last());
        if is_ascii_digit(s.last()) {
            assert forall|i: int| 0 <= i < digits_of(s).len() implies is_ascii_digit(#[trigger] digits_of(s)[i]) by {
                if i < p.len() {
                    assert(digits_of(s)[i] == p[i]);
                }
            }
        }
    }
}

/// Grouping with commas keeps the digits: removing the commas gives back
/// exactly the digits of the input, in order.
pub proof fn lemma_number_text_digits(s: Seq<char>)
    requires
        digits_of(s).len() > 0,
    ensures
        without_commas(number_text(s)) == digits_of(s),
{
    let d = digits_of(s);
    lemma_digits_of_digits(s);
    assert forall|i: int| 0 <= i < d.len() implies #[trigger] d[i] != ',' by {
        assert(is_ascii_digit(d[i]));
    }
    lemma_grouped_without_commas(d, d.len());
    assert(d.take(d.len() as int) =~= d);
}

fn digits_exec(s: &str) -> (r: Vec<char>)
    ensures
        r@ == digits_of(s@),
{
    let v = chars_of(s);
    let mut d: Vec<char> = Vec::new();
    let mut i: usize = 0;
    while i < v.len()
        invariant
            i <= v@.len(),
            v@ == s@,
            d@ == digits_of(v@.take(i as int)),
        decreases v.len() - i,
    {
        proof {
            assert(v@.take(i + 1).drop_last() =~= v@.take(i as int));
            assert(v@.take(i + 1).last() == v@[i as int]);
        }
        if ascii_digit(v[i]) {
            d.push(v[i]);
        }
        i = i + 1;
    }
    proof {
        assert(v@.take(v@.len() as int) =~= v@);
    }
    d
}

/// Formats a count such as "1234567" as "1,234,567"; input without digits is
/// returned as it is.
pub fn format_number(s: &str) -> (r: String)
    ensures
        r@ == number_text(s@),
{
    let d = digits_exec(s);
    if d.len() == 0 {
        return string_of(s);
    }
    let mut out = String::new();
    let mut i: usize = 0;
    while i < d.len()
        invariant
            i <= d@.len(),
            out@ == grouped(d@, i as nat),
        decreases d.len() - i,
    {
        if i > 0 && (d.len() - i) % 3 == 0 {
            push_char(&mut out, ',');
        }
        push_char(&mut out, d[i]);
        proof {
            assert(out@ =~= grouped(d@, (i + 1) as nat));
        }
        i = i + 1;
    }
    out
}

// ---------------------------------------------------------------------------
// Calendar dates
// ---------------------------------------------------------------------------

pub open spec fn is_leap(y: nat) -> bool {
    y % 4 == 0 && (y % 100 != 0 || y % 400 == 0)
}

pub open spec fn year_days(y: nat) -> nat {
    if is_leap(y) {
        366
    } else {
        365
    }
}

/// Days of month `m` (0 for January) of year `y`.
pub open spec fn month_days(y: nat, m: nat) -> nat {
    if m == 1 {
        if is_leap(y) {
            29
        } else {
            28
        }
    } else if m == 3 || m == 5 || m == 8 || m == 10 {
        30
    } else {
        31
    }
}

/// The year containing day `days` counted from the start of year `y`, and
/// the day within that year.
pub open spec fn year_of(days: nat, y: nat) -> (nat, nat)
    decreases days,
{
    if days < year_days(y) {
        (y, days)
    } else {
        year_of((days - year_days(y)) as nat, y + 1)
    }
}

/// The month (0 for January) containing day `d` of year `y` counted from
/// the start of month `m`, and the day within that month.
pub open spec fn month_of(d: nat, y: nat, m: nat) -> (nat, nat)
    decreases 12 - m,
{
    if m >= 11 || d < month_days(y, m) {
        (m, d)
    } else {
        month_of((d - month_days(y, m)) as nat, y, m + 1)
    }
}

/// The calendar date (year, month from 1, day from 1) of a time in seconds
/// since 1970-01-01 UTC.
pub open spec fn civil_date(secs: nat) -> (nat, nat, nat) {
    let (y, d) = year_of(secs / 86400, 1970);
    let (m, dd) = month_of(d, y, 0);
    (y, m + 1, dd + 1)
}

/// `YYYY-MM-DD` of a time in seconds since 1970-01-01 UTC.
pub open spec fn date_text(secs: nat) -> Seq<char> {
    let (y, m, d) = civil_date(secs);
    decimal(y) + seq!['-'] + decimal2(m) + seq!['-'] + decimal2(d)
}

/// Days from 1970-01-01 to the start of year `y`.
pub open spec fn days_before_year(y: nat) -> nat
    decreases y,
{
    if y <= 1970 {
        0
    } else {
        days_before_year((y - 1) as nat) + year_days((y - 1) as nat)
    }
}

/// Days from the start of year `y` to the start of month `m` (0 for January).
pub open spec fn days_before_month(y: nat, m: nat) -> nat
    decreases m,
{
    if m == 0 {
        0
    } else {
        days_before_month(y, (m - 1) as nat) + month_days(y, (m - 1) as nat)
    }
}

proof fn lemma_year_of(days: nat, y: nat)
    requires
        y >= 1970,
    ensures
        year_of(days, y).0 >= y,
        year_of(days, y).1 < year_days(year_of(days, y).0),
        days_before_year(year_of(days, y).0) + year_of(days, y).1 == days_before_year(y) + days,
    decreases days,
{
    if days >= year_days(y) {
        lemma_year_of((days - year_days(y)) as nat, y + 1);
    }
}

proof fn lemma_month_of(d: nat, y: nat, m: nat)
    requires
        m <= 11,
        days_before_month(y, m) + d < year_days(y),
    ensures
        month_of(d, y, m).0 <= 11,
        month_of(d, y, m).0 >= m,
        month_of(d, y, m).1 < month_days(y, month_of(d, y, m).0),
        days_before_month(y, month_of(d, y, m).0) + month_of(d, y, m).1 == days_before_month(y, m) + d,
    decreases 12 - m,
{
    if m >= 11 {
        reveal_with_fuel(days_before_month, 12);
        assert(days_before_month(y, 11) + 31 == year_days(y));
    } else if d >= month_days(y, m) {
        lemma_month_of((d - month_days(y, m)) as nat, y, m + 1);
    }
}

/// The date shown is the date of the time: counting the days of the years
/// since 1970, the months before it and its day gives back the day number,
/// and the month and day are in range.
pub proof fn lemma_civil_date_inverse(secs: nat)
    ensures
        ({
            let (y, m, d) = civil_date(secs);
            &&& y >= 1970
            &&& 1 <= m <= 12
            &&& 1 <= d <= month_days(y, (m - 1) as nat)
            &&& days_before_year(y) + days_before_month(y, (m - 1) as nat) + (d - 1) == secs / 86400
        }),
{
    let days = secs / 86400;
    lemma_year_of(days, 1970);
    let (y, dy) = year_of(days, 1970);
    lemma_month_of(dy, y, 0);
}

fn leap_exec(y: u64) -> (r: bool)
    ensures
        r == is_leap(y as nat),
{
    y % 4 == 0 && (y % 100 != 0 || y % 400 == 0)
}

fn month_days_exec(y: u64, m: u64) -> (r: u64)
    ensures
        r == month_days(y as nat, m as nat),
{
    if m == 1 {
        if leap_exec(y) {
            29
        } else {
            28
        }
    } else if m == 3 || m == 5 || m == 8 || m == 10 {
        30
    } else {
        31
    }
}

/// Formats a time, in seconds since 1970-01-01 UTC, as its date `YYYY-MM-DD`.
pub fn format_cached_at(secs: u64) -> (r: String)
    ensures
        r@ == date_text(secs as nat),
{
    let days_since_epoch = secs / 86400;
    let mut year: u64 = 1970;
    let mut remaining_days = days_since_epoch;
    loop
        invariant
            year >= 1970,
            remaining_days <= days_since_epoch,
            (year - 1970) * 365 <= days_since_epoch - remaining_days,
            days_since_epoch <= u64::MAX / 86400,
            year_of(days_since_epoch as nat, 1970) == year_of(remaining_days as nat, year as nat),
        ensures
            remaining_days < year_days(year as nat),
            year_of(days_since_epoch as nat, 1970) == year_of(remaining_days as nat, year as nat),
        decreases remaining_days,
    {
        let days_in_year: u64 = if leap_exec(year) { 366 } else { 365 };
        if remaining_days < days_in_year {
            break;
        }
        remaining_days = remaining_days - days_in_year;
        year = year + 1;
    }
    let mut month: u64 = 0;
    let mut rem = remaining_days;
    loop
        invariant
            month <= 11,
            remaining_days < year_days(year as nat),
            month_of(remaining_days as nat, year as nat, 0) == month_of(rem as nat, year as nat, month as nat),
        ensures
            month <= 11,
            month_of(remaining_days as nat, year as nat, 0) == (month as nat, rem as nat),
        decreases 11 - month,
    {
        let md = month_days_exec(year, month);
        if month >= 11 || rem < md {
            break;
        }
        rem = rem - md;
        month = month + 1;
    }
    proof {
        lemma_month_of(remaining_days as nat, year as nat, 0);
        assert(rem < 31);
    }
    let mut out = String::new();
    push_decimal(&mut out, year);
    push_char(&mut out, '-');
    push_decimal2(&mut out, month + 1);
    push_char(&mut out, '-');
    push_decimal2(&mut out, rem + 1);
    proof {
        assert(out@ =~= date_text(secs as nat));
    }
    out
}

// ---------------------------------------------------------------------------
// Search results
// ---------------------------------------------------------------------------

/// Number of bytes of the UTF-8 encoding of the first `k` characters of `s`.
pub open spec fn prefix_bytes(s: Seq<char>, k: int) -> nat {
    utf8_len(s.take(k))
}

/// Whether `n` bytes end on a character boundary of `s`.
pub open spec fn cuts_cleanly(s: Seq<char>, n: nat) -> bool {
    exists|k: int| 0 <= k <= s.len() && #[trigger] prefix_bytes(s, k) == n
}

/// The characters of the first `n` bytes of `s` (when they end on a boundary).
pub open spec fn byte_prefix(s: Seq<char>, n: nat) -> Seq<char> {
    s.take(choose|k: int| 0 <= k <= s.len() && #[trigger] prefix_bytes(s, k) == n)
}

/// A description as a search result shows it: beyond 150 bytes, its first
/// 150 bytes and "...".
pub open spec fn shown_description(d: Seq<char>) -> Seq<char> {
    if utf8_len(d) > 150 {
        byte_prefix(d, 150) + "..."@
    } else {
        d
    }
}

/// Descriptions longer than 150 bytes must be cut on a character boundary.
pub open spec fn description_ok(d: Option<Seq<char>>) -> bool {
    match d {
        Some(t) => utf8_len(t) > 150 ==> cuts_cleanly(t, 150),
        None => true,
    }
}

pub open spec fn descriptions_ok(videos: Seq<VideoSummaryView>) -> bool {
    forall|i: int| 0 <= i < videos.len() ==> description_ok(#[trigger] videos[i].description)
}

pub open spec fn opt_list(o: Option<Seq<char>>) -> Seq<Seq<char>> {
    match o {
        Some(t) => seq![t],
        None => Seq::empty(),
    }
}

/// The block of one search result numbered `n`.
pub open spec fn search_block(n: nat, v: VideoSummaryView) -> Seq<char> {
    let meta = seq![v.channel] + opt_list(v.duration) + opt_list(v.views) + opt_list(v.published);
    decimal(n) + ". **"@ + v.title + "**\n"@ + "   "@ + join(meta, " — "@) + " \n"@
        + "   https://youtube.com/watch?v="@ + v.video_id + "\n"@ + match v.description {
        Some(d) => "   "@ + shown_description(d) + "\n"@,
        None => Seq::empty(),
    } + "\n"@
}

pub open spec fn search_blocks(videos: Seq<VideoSummaryView>, k: nat) -> Seq<char>
    decreases k,
{
    if k == 0 {
        Seq::empty()
    } else {
        search_blocks(videos, (k - 1) as nat) + search_block(k, videos[k - 1])
    }
}

/// The Markdown of search results.
pub open spec fn search_results_text(query: Seq<char>, videos: Seq<VideoSummaryView>) -> Seq<char> {
    "## YouTube: \""@ + query + "\" (showing "@ + decimal(videos.len()) + ")\n\n"@ + search_blocks(videos, videos.len())
}

proof fn lemma_prefix_bytes_step(s: Seq<char>, k: int)
    requires
        0 <= k < s.len(),
    ensures
        prefix_bytes(s, k + 1) == prefix_bytes(s, k) + utf8_len(seq![s[k]]),
{
    assert(s.take(k + 1) =~= s.take(k) + seq![s[k]]);
    lemma_encode_utf8_concat(s.take(k), seq![s[k]]);
}

proof fn lemma_prefix_bytes_mono(s: Seq<char>, j: int, k: int)
    requires
        0 <= j < k <= s.len(),
    ensures
        prefix_bytes(s, j) < prefix_bytes(s, k),
    decreases k - j,
{
    lemma_prefix_bytes_step(s, k - 1);
    assert(utf8_len(seq![s[k - 1]]) >= 1) by {
        reveal_with_fuel(vstd::utf8::encode_utf8, 2);
        vstd::utf8::char_is_scalar(s[k - 1]);
    }
    if j < k - 1 {
        lemma_prefix_bytes_mono(s, j, k - 1);
    }
}

/// Whether a description can be shown (it is cut on a character boundary).
pub fn description_cuts_cleanly(d: &str) -> (r: bool)
    ensures
        r == description_ok(Some(d@)),
{
    if crate::text::byte_len(d) <= 150 {
        return true;
    }
    let v = chars_of(d);
    let mut k: usize = 0;
    let mut bytes: usize = 0;
    proof {
        assert(v@.take(0) =~= Seq::<char>::empty());
        assert(vstd::utf8::encode_utf8(Seq::<char>::empty()) =~= Seq::<u8>::empty());
    }
    while k < v.len() && bytes < 150
        invariant
            k <= v@.len(),
            v@ == d@,
            bytes as nat == prefix_bytes(v@, k as int),
            forall|j: int| 0 <= j < k ==> prefix_bytes(v@, j) < 150,
        decreases v.len() - k,
    {
        proof {
            lemma_prefix_bytes_step(v@, k as int);
        }
        bytes = bytes + char_utf8_len(v[k]);
        k = k + 1;
    }
    if bytes == 150 {
        return true;
    }
    proof {
        assert forall|j: int| 0 <= j <= v@.len() implies #[trigger] prefix_bytes(v@, j) != 150 by {
            if j > k {
                lemma_prefix_bytes_mono(v@, k as int, j);
            }
        }
        assert(v@.take(v@.len() as int) =~= v@);
    }
    false
}

fn push_shown_description(out: &mut String, d: &str)
    requires
        description_ok(Some(d@)),
    ensures
        final(out)@ == old(out)@ + shown_description(d@),
{
    if crate::text::byte_len(d) <= 150 {
        push_str(out, d);
        return;
    }
    let v = chars_of(d);
    let mut k: usize = 0;
    let mut bytes: usize = 0;
    proof {
        assert(v@.take(0) =~= Seq::<char>::empty());
        assert(vstd::utf8::encode_utf8(Seq::<char>::empty()) =~= Seq::<u8>::empty());
    }
    while k < v.len() && bytes < 150
        invariant
            k <= v@.len(),
            v@ == d@,
            bytes as nat == prefix_bytes(v@, k as int),
            forall|j: int| 0 <= j < k ==> prefix_bytes(v@, j) < 150,
        decreases v.len() - k,
    {
        proof {
            lemma_prefix_bytes_step(v@, k as int);
        }
        bytes = bytes + char_utf8_len(v[k]);
        k = k + 1;
    }
    proof {
        let c = choose|c: int| 0 <= c <= d@.len() && #[trigger] prefix_bytes(d@, c) == 150;
        assert(0 <= c <= d@.len() && prefix_bytes(d@, c) == 150);
        assert(v@.take(v@.len() as int) =~= v@);
        if c < k {
            assert(prefix_bytes(v@, c) < 150);
        } else if c > k {
            lemma_prefix_bytes_mono(v@, k as int, c);
        }
        assert(c == k);
    }
    let prefix = crate::text::sub_chars(&v, 0, k);
    let p = string_from_chars(&prefix);
    push_str(out, p.as_str());
    push_str(out, "...");
    proof {
        assert(prefix@ =~= v@.take(k as int));
    }
}

fn push_joined_meta(out: &mut String, v: &VideoSummary, with_channel: bool)
    ensures
        final(out)@ == old(out)@ + join(
            (if with_channel { seq![v.channel@] } else { Seq::<Seq<char>>::empty() }) + opt_list(opt_view(v.duration))
                + opt_list(opt_view(v.views)) + opt_list(opt_view(v.published)),
            " — "@,
        ),
{
    let mut parts: Vec<String> = Vec::new();
    if with_channel {
        parts.push(string_of(v.channel.as_str()));
    }
    match &v.duration {
        Some(d) => parts.push(string_of(d.as_str())),
        None => {},
    }
    match &v.views {
        Some(d) => parts.push(string_of(d.as_str())),
        None => {},
    }
    match &v.published {
        Some(d) => parts.push(string_of(d.as_str())),
        None => {},
    }
    proof {
        assert(views(parts@) =~= (if with_channel { seq![v.channel@] } else { Seq::<Seq<char>>::empty() })
            + opt_list(opt_view(v.duration)) + opt_list(opt_view(v.views)) + opt_list(opt_view(v.published)));
    }
    let joined = join_strings(&parts, " — ");
    push_str(out, joined.as_str());
}

fn push_search_block(out: &mut String, n: u64, video: &VideoSummary)
    requires
        description_ok(video@.description),
    ensures
        final(out)@ == old(out)@ + search_block(n as nat, video@),
{
    let ghost pre = out@;
    push_decimal(out, n);
    push_str(out, ". **");
    push_str(out, video.title.as_str());
    push_str(out, "**\n");
    push_str(out, "   ");
    push_joined_meta(out, video, true);
    push_str(out, " \n");
    push_str(out, "   https://youtube.com/watch?v=");
    push_str(out, video.video_id.as_str());
    push_str(out, "\n");
    let ghost mid = out@;
    match &video.description {
        Some(d) => {
            push_str(out, "   ");
            push_shown_description(out, d.as_str());
            push_str(out, "\n");
        },
        None => {},
    }
    let ghost mid2 = out@;
    push_str(out, "\n");
    proof {
        assert(mid2 =~= mid + match video@.description {
            Some(d) => "   "@ + shown_description(d) + "\n"@,
            None => Seq::<char>::empty(),
        });
        assert(out@ =~= pre + search_block(n as nat, video@));
    }
}

fn push_channel_block(out: &mut String, n: u64, video: &VideoSummary)
    ensures
        final(out)@ == old(out)@ + channel_block(n as nat, video@),
{
    let ghost pre = out@;
    push_decimal(out, n);
    push_str(out, ". **");
    push_str(out, video.title.as_str());
    push_str(out, "**\n");
    let ghost mid = out@;
    let ghost meta = opt_list(opt_view(video.duration)) + opt_list(opt_view(video.views)) + opt_list(opt_view(video.published));
    if video.duration.is_some() || video.views.is_some() || video.published.is_some() {
        push_str(out, "   ");
        push_joined_meta(out, video, false);
        push_str(out, "\n");
        proof {
            assert(Seq::<Seq<char>>::empty() + meta =~= meta);
        }
    }
    let ghost mid2 = out@;
    push_str(out, "   https://youtube.com/watch?v=");
    push_str(out, video.video_id.as_str());
    push_str(out, "\n");
    push_str(out, "\n");
    proof {
        assert(mid2 =~= mid + (if meta.len() > 0 { "   "@ + join(meta, " — "@) + "\n"@ } else { Seq::<char>::empty() }));
        assert(out@ =~= pre + channel_block(n as nat, video@));
    }
}

/// Renders search results as Markdown: a heading with the query and count,
/// then for each video its number, title, channel and metadata, link, and
/// description (cut to 150 bytes).
pub fn format_search_results(result: &SearchResult) -> (r: String)
    requires
        descriptions_ok(summaries_view(result.videos@)),
    ensures
        r@ == search_results_text(result.query@, summaries_view(result.videos@)),
{
    let ghost vs = summaries_view(result.videos@);
    let mut out = string_of("## YouTube: \"");
    push_str(&mut out, result.query.as_str());
    push_str(&mut out, "\" (showing ");
    push_decimal(&mut out, result.videos.len() as u64);
    push_str(&mut out, ")\n\n");
    let ghost header = out@;
    let mut i: usize = 0;
    while i < result.videos.len()
        invariant
            i <= result.videos@.len(),
            vs == summaries_view(result.videos@),
            descriptions_ok(vs),
            out@ == header + search_blocks(vs, i as nat),
        decreases result.videos.len() - i,
    {
        let video = &result.videos[i];
        proof {
            assert(vs[i as int] == video@);
            assert(description_ok(vs[i as int].description));
        }
        push_search_block(&mut out, (i + 1) as u64, video);
        proof {
            assert(out@ =~= header + search_blocks(vs, (i + 1) as nat));
        }
        i = i + 1;
    }
    out
}

// ---------------------------------------------------------------------------
// Video details
// ---------------------------------------------------------------------------

pub open spec fn caption_line(code: Seq<char>, name: Seq<char>, auto: bool) -> Seq<char> {
    "- "@ + name + " ("@ + code + ")"@ + (if auto { " [auto-generated]"@ } else { Seq::empty() }) + "\n"@
}

pub open spec fn caption_lines(detail: VideoDetail, k: nat) -> Seq<char>
    decreases k,
{
    if k == 0 {
        Seq::empty()
    } else {
        let c = detail.caption_languages@[k - 1];
        caption_lines(detail, (k - 1) as nat) + caption_line(c.language_code@, c.language_name@, c.is_auto_generated)
    }
}

/// The overview section of a video's details.
pub open spec fn overview_text(detail: VideoDetail) -> Seq<char> {
    "## Overview\n\n"@ + "- **Channel**: "@ + detail.channel@ + "\n"@ + match opt_view(detail.view_count) {
        Some(v) => "- **Views**: "@ + number_text(v) + "\n"@,
        None => Seq::empty(),
    } + match detail.length_seconds {
        Some(s) => "- **Duration**: "@ + duration_text(s as nat) + "\n"@,
        None => Seq::empty(),
    } + (if detail.is_live {
        "- **Live**: Yes\n"@
    } else {
        Seq::empty()
    }) + "- **URL**: https://youtube.com/watch?v="@ + detail.video_id@ + "\n"@
}

/// The captions section of a video's details.
pub open spec fn captions_text(detail: VideoDetail) -> Seq<char> {
    if detail.caption_languages@.len() > 0 {
        "\n## Available Captions\n\n"@ + caption_lines(detail, detail.caption_languages@.len())
    } else {
        "\n*No captions available*\n"@
    }
}

/// The description and keywords sections of a video's details.
pub open spec fn extras_text(detail: VideoDetail) -> Seq<char> {
    (match opt_view(detail.description) {
        Some(d) => if d.len() > 0 {
            "\n## Description\n\n"@ + d + "\n"@
        } else {
            Seq::empty()
        },
        None => Seq::empty(),
    }) + (if detail.keywords@.len() > 0 {
        "\n## Keywords\n\n"@ + join(views(detail.keywords@), ", "@) + "\n"@
    } else {
        Seq::empty()
    })
}

/// The Markdown of a video's details: title, overview (channel, views,
/// duration, live, link), captions, description and keywords.
pub open spec fn video_detail_text(detail: VideoDetail) -> Seq<char> {
    "# "@ + detail.title@ + "\n\n"@ + overview_text(detail) + captions_text(detail) + extras_text(detail)
}

#[verifier::spinoff_prover]
#[verifier::rlimit(40)]
fn push_overview(out: &mut String, detail: &VideoDetail)
    ensures
        final(out)@ == old(out)@ + overview_text(*detail),
{
    let ghost s0 = out@;
    push_str(out, "## Overview\n\n");
    push_str(out, "- **Channel**: ");
    push_str(out, detail.channel.as_str());
    push_str(out, "\n");
    let ghost s1 = out@;
    match &detail.view_count {
        Some(v) => {
            push_str(out, "- **Views**: ");
            let n = format_number(v.as_str());
            push_str(out, n.as_str());
            push_str(out, "\n");
        },
        None => {},
    }
    let ghost s2 = out@;
    match detail.length_seconds {
        Some(secs) => {
            push_str(out, "- **Duration**: ");
            let t = format_duration(secs);
            push_str(out, t.as_str());
            push_str(out, "\n");
        },
        None => {},
    }
    let ghost s3 = out@;
    if detail.is_live {
        push_str(out, "- **Live**: Yes\n");
    }
    let ghost s4 = out@;
    push_str(out, "- **URL**: https://youtube.com/watch?v=");
    push_str(out, detail.video_id.as_str());
    push_str(out, "\n");
    proof {
        assert(s1 =~= s0 + ("## Overview\n\n"@ + "- **Channel**: "@ + detail.channel@ + "\n"@));
        assert(s2 =~= s1 + match opt_view(detail.view_count) {
            Some(v) => "- **Views**: "@ + number_text(v) + "\n"@,
            None => Seq::<char>::empty(),
        });
        assert(s3 =~= s2 + match detail.length_seconds {
            Some(s) => "- **Duration**: "@ + duration_text(s as nat) + "\n"@,
            None => Seq::<char>::empty(),
        });
        assert(s4 =~= s3 + (if detail.is_live { "- **Live**: Yes\n"@ } else { Seq::<char>::empty() }));
        assert(out@ =~= s0 + overview_text(*detail));
    }
}

fn push_captions(out: &mut String, detail: &VideoDetail)
    ensures
        final(out)@ == old(out)@ + captions_text(*detail),
{
    let ghost s0 = out@;
    if detail.caption_languages.len() > 0 {
        push_str(out, "\n## Available Captions\n\n");
        let ghost base = out@;
        let mut i: usize = 0;
        while i < detail.caption_languages.len()
            invariant
                i <= detail.caption_languages@.len(),
                out@ == base + caption_lines(*detail, i as nat),
            decreases detail.caption_languages.len() - i,
        {
            let lang = &detail.caption_languages[i];
            let ghost pre = out@;
            push_str(out, "- ");
            push_str(out, lang.language_name.as_str());
            push_str(out, " (");
            push_str(out, lang.language_code.as_str());
            push_str(out, ")");
            let ghost mid = out@;
            if lang.is_auto_generated {
                push_str(out, " [auto-generated]");
            }
            let ghost mid2 = out@;
            push_str(out, "\n");
            proof {
                assert(mid2 =~= mid + (if lang.is_auto_generated { " [auto-generated]"@ } else { Seq::<char>::empty() }));
                assert(out@ =~= pre + caption_line(lang.language_code@, lang.language_name@, lang.is_auto_generated));
                assert(caption_lines(*detail, (i + 1) as nat) == caption_lines(*detail, i as nat) + caption_line(lang.language_code@, lang.language_name@, lang.is_auto_generated));
                assert(out@ =~= base + caption_lines(*detail, (i + 1) as nat));
            }
            i = i + 1;
        }
        proof {
            assert(out@ =~= s0 + captions_text(*detail));
        }
    } else {
        push_str(out, "\n*No captions available*\n");
    }
}

fn push_extras(out: &mut String, detail: &VideoDetail)
    ensures
        final(out)@ == old(out)@ + extras_text(*detail),
{
    let ghost s0 = out@;
    match &detail.description {
        Some(d) => {
            if !d.as_str().is_empty() {
                push_str(out, "\n## Description\n\n");
                push_str(out, d.as_str());
                push_str(out, "\n");
            }
        },
        None => {},
    }
    let ghost s1 = out@;
    if detail.keywords.len() > 0 {
        push_str(out, "\n## Keywords\n\n");
        let k = join_strings(&detail.keywords, ", ");
        push_str(out, k.as_str());
        push_str(out, "\n");
    }
    proof {
        assert(s1 =~= s0 + match opt_view(detail.description) {
            Some(d) => if d.len() > 0 {
                "\n## Description\n\n"@ + d + "\n"@
            } else {
                Seq::<char>::empty()
            },
            None => Seq::<char>::empty(),
        });
        assert(out@ =~= s0 + extras_text(*detail));
    }
}

/// Renders a video's details as Markdown.
pub fn format_video_detail(detail: &VideoDetail) -> (r: String)
    ensures
        r@ == video_detail_text(*detail),
{
    let mut out = string_of("# ");
    push_str(&mut out, detail.title.as_str());
    push_str(&mut out, "\n\n");
    push_overview(&mut out, detail);
    push_captions(&mut out, detail);
    push_extras(&mut out, detail);
    proof {
        assert(out@ =~= video_detail_text(*detail));
    }
    out
}

// ---------------------------------------------------------------------------
// Transcripts
// ---------------------------------------------------------------------------

/// One step of the running text: the entry is added to the current line
/// (after a space), and a line of 80 bytes or more is written out.
pub open spec fn wrap_step(state: (Seq<char>, Seq<char>), text: Seq<char>) -> (Seq<char>, Seq<char>) {
    let line = if state.1.len() > 0 {
        state.1 + seq![' '] + text
    } else {
        text
    };
    if utf8_len(line) >= 80 {
        (state.0 + line + seq!['\n'], Seq::empty())
    } else {
        (state.0, line)
    }
}

/// Text written and line pending after the first `k` entries.
pub open spec fn wrap_state(entries: Seq<TranscriptEntry>, k: nat) -> (Seq<char>, Seq<char>)
    decreases k,
{
    if k == 0 {
        (Seq::empty(), Seq::empty())
    } else {
        wrap_step(wrap_state(entries, (k - 1) as nat), entries[k - 1].text@)
    }
}

/// The transcript as running text wrapped into lines of about 80 bytes.
pub open spec fn running_text(entries: Seq<TranscriptEntry>) -> Seq<char> {
    let (done, line) = wrap_state(entries, entries.len());
    if line.len() > 0 {
        done + line + seq!['\n']
    } else {
        done
    }
}

/// The transcript with one `[time] text` line per entry.
pub open spec fn timed_lines(entries: Seq<TranscriptEntry>, k: nat) -> Seq<char>
    decreases k,
{
    if k == 0 {
        Seq::empty()
    } else {
        let e = entries[k - 1];
        timed_lines(entries, (k - 1) as nat) + seq!['['] + duration_text(e.start_secs as nat) + "] "@ + e.text@ + seq!['\n']
    }
}

/// The Markdown of a transcript.
pub open spec fn transcript_text(t: TranscriptResult, timestamps: bool) -> Seq<char> {
    "## Transcript: "@ + t.title@ + "\n"@ + "Channel: "@ + t.channel@ + " — Language: "@ + t.language@
        + (if t.is_auto_generated { " (auto-generated)"@ } else { Seq::empty() }) + "  \n"@
        + "https://youtube.com/watch?v="@ + t.video_id@ + "\n\n"@ + if timestamps {
        timed_lines(t.entries@, t.entries@.len())
    } else {
        running_text(t.entries@)
    }
}

/// Renders a transcript as Markdown: a header, then either one timestamped
/// line per entry or the running text wrapped at about 80 bytes.
pub fn format_transcript(result: &TranscriptResult, timestamps: bool) -> (r: String)
    ensures
        r@ == transcript_text(*result, timestamps),
{
    let mut out = string_of("## Transcript: ");
    push_str(&mut out, result.title.as_str());
    push_str(&mut out, "\n");
    push_str(&mut out, "Channel: ");
    push_str(&mut out, result.channel.as_str());
    push_str(&mut out, " — Language: ");
    push_str(&mut out, result.language.as_str());
    if result.is_auto_generated {
        push_str(&mut out, " (auto-generated)");
    }
    push_str(&mut out, "  \n");
    push_str(&mut out, "https://youtube.com/watch?v=");
    push_str(&mut out, result.video_id.as_str());
    push_str(&mut out, "\n\n");
    let ghost header = out@;
    proof {
        assert(header =~= "## Transcript: "@ + result.title@ + "\n"@ + "Channel: "@ + result.channel@ + " — Language: "@ + result.language@
            + (if result.is_auto_generated { " (auto-generated)"@ } else { Seq::empty() }) + "  \n"@
            + "https://youtube.com/watch?v="@ + result.video_id@ + "\n\n"@);
    }
    let entries = &result.entries;
    if timestamps {
        let mut i: usize = 0;
        while i < entries.len()
            invariant
                i <= entries@.len(),
                out@ == header + timed_lines(entries@, i as nat),
            decreases entries.len() - i,
        {
            let e = &entries[i];
            push_char(&mut out, '[');
            let ts = format_duration(e.start_secs);
            push_str(&mut out, ts.as_str());
            push_str(&mut out, "] ");
            push_str(&mut out, e.text.as_str());
            push_char(&mut out, '\n');
            proof {
                assert(out@ =~= header + timed_lines(entries@, (i + 1) as nat));
            }
            i = i + 1;
        }
    } else {
        let mut line = String::new();
        let mut written = String::new();
        let mut i: usize = 0;
        while i < entries.len()
            invariant
                i <= entries@.len(),
                (written@, line@) == wrap_state(entries@, i as nat),
            decreases entries.len() - i,
        {
            let ghost st = wrap_state(entries@, i as nat);
            let ghost t = entries@[i as int].text@;
            proof {
                assert(wrap_state(entries@, (i + 1) as nat) == wrap_step(st, t));
            }
            if !line.as_str().is_empty() {
                push_char(&mut line, ' ');
            }
            push_str(&mut line, entries[i].text.as_str());
            let llen = crate::text::byte_len(line.as_str());
            proof {
                assert(line@ =~= (if st.1.len() > 0 { st.1 + seq![' '] + t } else { t }));
            }
            if llen >= 80 {
                let ghost l = line@;
                push_str(&mut written, line.as_str());
                push_char(&mut written, '\n');
                line = String::new();
                proof {
                    assert(written@ =~= st.0 + l + seq!['\n']);
                    assert(line@ =~= Seq::<char>::empty());
                }
            }
            i = i + 1;
        }
        if !line.as_str().is_empty() {
            push_str(&mut written, line.as_str());
            push_char(&mut written, '\n');
        }
        push_str(&mut out, written.as_str());
        proof {
            assert(out@ =~= header + running_text(entries@));
        }
    }
    out
}

// ---------------------------------------------------------------------------
// Channel listings
// ---------------------------------------------------------------------------

/// The block of one listed video numbered `n`: title, then duration, views
/// and publication (when known), then its link.
pub open spec fn channel_block(n: nat, v: VideoSummaryView) -> Seq<char> {
    let meta = opt_list(v.duration) + opt_list(v.views) + opt_list(v.published);
    decimal(n) + ". **"@ + v.title + "**\n"@ + (if meta.len() > 0 {
        "   "@ + join(meta, " — "@) + "\n"@
    } else {
        Seq::empty()
    }) + "   https://youtube.com/watch?v="@ + v.video_id + "\n"@ + "\n"@
}

pub open spec fn channel_blocks(videos: Seq<VideoSummaryView>, k: nat) -> Seq<char>
    decreases k,
{
    if k == 0 {
        Seq::empty()
    } else {
        channel_blocks(videos, (k - 1) as nat) + channel_block(k, videos[k - 1])
    }
}

/// The Markdown of a channel listing or a search within a channel.
pub open spec fn channel_videos_text(r: ChannelVideosResult) -> Seq<char> {
    let vs = summaries_view(r.videos@);
    "## Channel: "@ + r.channel.name@ + "\n"@ + "https://youtube.com/channel/"@ + r.channel.channel_id@ + "\n\n"@
        + match opt_view(r.query) {
        Some(q) => "### Search: \""@ + q + "\" (showing "@ + decimal(vs.len()) + ")\n\n"@,
        None => "### Videos (showing "@ + decimal(vs.len()) + ")\n\n"@,
    } + channel_blocks(vs, vs.len())
}

/// Renders a channel listing, or the results of a search within a channel,
/// as Markdown.
pub fn format_channel_videos(result: &ChannelVideosResult) -> (r: String)
    ensures
        r@ == channel_videos_text(*result),
{
    let ghost vs = summaries_view(result.videos@);
    let mut out = string_of("## Channel: ");
    push_str(&mut out, result.channel.name.as_str());
    push_str(&mut out, "\n");
    push_str(&mut out, "https://youtube.com/channel/");
    push_str(&mut out, result.channel.channel_id.as_str());
    push_str(&mut out, "\n\n");
    match &result.query {
        Some(q) => {
            push_str(&mut out, "### Search: \"");
            push_str(&mut out, q.as_str());
            push_str(&mut out, "\" (showing ");
        },
        None => {
            push_str(&mut out, "### Videos (showing ");
        },
    }
    push_decimal(&mut out, result.videos.len() as u64);
    push_str(&mut out, ")\n\n");
    let ghost header = out@;
    let mut i: usize = 0;
    while i < result.videos.len()
        invariant
            i <= result.videos@.len(),
            vs == summaries_view(result.videos@),
            out@ == header + channel_blocks(vs, i as nat),
        decreases result.videos.len() - i,
    {
        let video = &result.videos[i];
        proof {
            assert(vs[i as int] == video@);
        }
        push_channel_block(&mut out, (i + 1) as u64, video);
        proof {
            assert(out@ =~= header + channel_blocks(vs, (i + 1) as nat));
        }
        i = i + 1;
    }
    proof {
        assert(out@ =~= channel_videos_text(*result));
    }
    out
}

} // verus!

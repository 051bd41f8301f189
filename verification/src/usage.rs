//! Token usage of the local sessions: the day, week and month buckets, and
//! the most recent sessions.
use vstd::prelude::*;
use crate::date::{Date, date_is_valid, date_le, date_minus_days, days_before, first_of_month, valid_calendar_date};
use crate::index::{IndexModel, SessionIndex, count_less, find_key, ingest_spec, lemma_count_less_bounds};
use crate::json::opt_str_view;
use crate::session::{
    LocalSession, SessionModel, apply_lines, lemma_counts_never_decrease,
    lemma_repeated_or_junk_line_keeps_counts, new_session_spec,
};
use crate::json::parsed_json;

verus! {

/// One of the token counts of a session.
#[derive(PartialEq, Eq, Structural, Clone, Copy, Debug)]
pub enum TokenField {
    Total,
    Input,
    Cached,
    Output,
    Reasoning,
}

pub open spec fn field_value(s: SessionModel, f: TokenField) -> int {
    match f {
        TokenField::Total => s.total_tokens as int,
        TokenField::Input => s.input_tokens as int,
        TokenField::Cached => s.cached_input_tokens as int,
        TokenField::Output => s.output_tokens as int,
        TokenField::Reasoning => s.reasoning_output_tokens as int,
    }
}

/// A session counts in a bucket when it is dated between the bucket's first
/// and last day, both included.
pub open spec fn in_range(d: Option<Date>, start: Date, end: Date) -> bool {
    match d {
        Some(x) => date_le(start, x) && date_le(x, end),
        None => false,
    }
}

/// The sum of one count over the sessions in a date range.
pub open spec fn range_sum(ss: IndexModel, start: Date, end: Date, f: TokenField) -> int
    decreases ss.len(),
{
    if ss.len() == 0 {
        0
    } else {
        range_sum(ss.drop_last(), start, end, f) + if in_range(ss.last().1.date, start, end) {
            field_value(ss.last().1, f)
        } else {
            0
        }
    }
}

/// The number of sessions in a date range.
pub open spec fn range_count(ss: IndexModel, start: Date, end: Date) -> int
    decreases ss.len(),
{
    if ss.len() == 0 {
        0
    } else {
        range_count(ss.drop_last(), start, end) + if in_range(ss.last().1.date, start, end) {
            1int
        } else {
            0int
        }
    }
}

/// Every sum of a bucket fits in `u64`.
pub open spec fn range_sums_fit(ss: IndexModel, start: Date, end: Date) -> bool {
    &&& range_sum(ss, start, end, TokenField::Total) <= u64::MAX
    &&& range_sum(ss, start, end, TokenField::Input) <= u64::MAX
    &&& range_sum(ss, start, end, TokenField::Cached) <= u64::MAX
    &&& range_sum(ss, start, end, TokenField::Output) <= u64::MAX
    &&& range_sum(ss, start, end, TokenField::Reasoning) <= u64::MAX
}

proof fn lemma_range_step(ss: IndexModel, start: Date, end: Date, i: int)
    requires
        0 <= i < ss.len(),
    ensures
        forall|f: TokenField|
            #[trigger] range_sum(ss.take(i + 1), start, end, f) == range_sum(ss.take(i), start, end, f)
                + if in_range(ss[i].1.date, start, end) {
                field_value(ss[i].1, f)
            } else {
                0
            },
        range_count(ss.take(i + 1), start, end) == range_count(ss.take(i), start, end) + if in_range(
            ss[i].1.date,
            start,
            end,
        ) {
            1int
        } else {
            0int
        },
{
    assert(ss.take(i + 1).drop_last() =~= ss.take(i));
    assert(ss.take(i + 1).last() == ss[i]);
}

proof fn lemma_range_sum_prefix(ss: IndexModel, start: Date, end: Date, f: TokenField, i: int)
    requires
        0 <= i <= ss.len(),
    ensures
        range_sum(ss.take(i), start, end, f) <= range_sum(ss, start, end, f),
    decreases ss.len(),
{
    if i == ss.len() {
        assert(ss.take(i) =~= ss);
    } else {
        let t = ss.drop_last();
        lemma_range_sum_prefix(t, start, end, f, i);
        assert(t.take(i) =~= ss.take(i));
    }
}

/// Input, cached, output and reasoning token counts summed over sessions.
pub struct TokenParts {
    pub input_tokens: u64,
    pub cached_input_tokens: u64,
    pub output_tokens: u64,
    pub reasoning_output_tokens: u64,
}

impl TokenParts {
    /// All counts zero.
    pub fn new() -> (res: TokenParts)
        ensures
            res.input_tokens == 0 && res.cached_input_tokens == 0 && res.output_tokens == 0
                && res.reasoning_output_tokens == 0,
    {
        TokenParts { input_tokens: 0, cached_input_tokens: 0, output_tokens: 0, reasoning_output_tokens: 0 }
    }

    /// Adds one session's counts (which must not overflow).
    pub fn add(&mut self, s: &LocalSession)
        requires
            old(self).input_tokens + s.input_tokens <= u64::MAX,
            old(self).cached_input_tokens + s.cached_input_tokens <= u64::MAX,
            old(self).output_tokens + s.output_tokens <= u64::MAX,
            old(self).reasoning_output_tokens + s.reasoning_output_tokens <= u64::MAX,
        ensures
            final(self).input_tokens == old(self).input_tokens + s.input_tokens,
            final(self).cached_input_tokens == old(self).cached_input_tokens + s.cached_input_tokens,
            final(self).output_tokens == old(self).output_tokens + s.output_tokens,
            final(self).reasoning_output_tokens == old(self).reasoning_output_tokens
                + s.reasoning_output_tokens,
    {
        self.input_tokens += s.input_tokens;
        self.cached_input_tokens += s.cached_input_tokens;
        self.output_tokens += s.output_tokens;
        self.reasoning_output_tokens += s.reasoning_output_tokens;
    }
}

/// Which bucket.
#[derive(PartialEq, Eq, Structural, Clone, Copy, Debug)]
pub enum BucketLabel {
    Today,
    ThisWeek,
    ThisMonth,
}

impl BucketLabel {
    /// The name a bucket goes by in the snapshot.
    pub fn name(&self) -> (res: &'static str)
        ensures
            res@ == bucket_name_spec(*self),
            *self == BucketLabel::Today ==> res@ == "today"@,
            *self == BucketLabel::ThisWeek ==> res@ == "thisWeek"@,
            *self == BucketLabel::ThisMonth ==> res@ == "thisMonth"@,
    {
        match self {
            BucketLabel::Today => "today",
            BucketLabel::ThisWeek => "thisWeek",
            BucketLabel::ThisMonth => "thisMonth",
        }
    }
}

pub open spec fn bucket_name_spec(l: BucketLabel) -> Seq<char> {
    match l {
        BucketLabel::Today => "today"@,
        BucketLabel::ThisWeek => "thisWeek"@,
        BucketLabel::ThisMonth => "thisMonth"@,
    }
}

/// Token usage of the sessions dated within a range of days.
pub struct UsageBucket {
    pub label: BucketLabel,
    pub start: Date,
    pub end: Date,
    pub total_tokens: u64,
    pub tokens: TokenParts,
    pub session_count: usize,
}

/// The bucket holds the sums and count of the sessions in its range.
pub open spec fn bucket_matches(b: UsageBucket, ss: IndexModel, label: BucketLabel, start: Date, end: Date) -> bool {
    &&& b.label == label
    &&& b.start == start
    &&& b.end == end
    &&& b.total_tokens == range_sum(ss, start, end, TokenField::Total)
    &&& b.tokens.input_tokens == range_sum(ss, start, end, TokenField::Input)
    &&& b.tokens.cached_input_tokens == range_sum(ss, start, end, TokenField::Cached)
    &&& b.tokens.output_tokens == range_sum(ss, start, end, TokenField::Output)
    &&& b.tokens.reasoning_output_tokens == range_sum(ss, start, end, TokenField::Reasoning)
    &&& b.session_count == range_count(ss, start, end)
}

fn date_in_range(d: Option<Date>, start: Date, end: Date) -> (res: bool)
    ensures
        res == in_range(d, start, end),
{
    match d {
        Some(x) => start.le(&x) && x.le(&end),
        None => false,
    }
}

/// Sums the sessions dated from `start` to `end`; `None` where a sum would
/// not fit in `u64`.
pub fn compute_bucket(index: &SessionIndex, label: BucketLabel, start: Date, end: Date) -> (res: Option<UsageBucket>)
    ensures
        res is Some <==> range_sums_fit(index@, start, end),
        res matches Some(b) ==> bucket_matches(b, index@, label, start, end),
        res matches Some(b) ==> b.total_tokens == dated_totals(index@, start, end).0
            && b.tokens.input_tokens == dated_totals(index@, start, end).1
            && b.tokens.cached_input_tokens == dated_totals(index@, start, end).2
            && b.tokens.output_tokens == dated_totals(index@, start, end).3
            && b.tokens.reasoning_output_tokens == dated_totals(index@, start, end).4
            && b.session_count == dated_totals(index@, start, end).5,
{
    proof {
        lemma_range_sums_are_dated_totals(index@, start, end);
    }
    let ghost ss = index@;
    let n = index.len();
    let mut total: u64 = 0;
    let mut parts = TokenParts::new();
    let mut count: usize = 0;
    let mut i: usize = 0;
    assert(ss.take(0) =~= Seq::<(Seq<char>, SessionModel)>::empty());
    while i < n
        invariant
            n == ss.len(),
            ss == index@,
            i <= n,
            total == range_sum(ss.take(i as int), start, end, TokenField::Total),
            parts.input_tokens == range_sum(ss.take(i as int), start, end, TokenField::Input),
            parts.cached_input_tokens == range_sum(ss.take(i as int), start, end, TokenField::Cached),
            parts.output_tokens == range_sum(ss.take(i as int), start, end, TokenField::Output),
            parts.reasoning_output_tokens == range_sum(ss.take(i as int), start, end, TokenField::Reasoning),
            count == range_count(ss.take(i as int), start, end),
            count <= i,
        decreases n - i,
    {
        let s = index.session(i);
        proof {
            lemma_range_step(ss, start, end, i as int);
            lemma_range_sum_prefix(ss, start, end, TokenField::Total, i + 1);
            lemma_range_sum_prefix(ss, start, end, TokenField::Input, i + 1);
            lemma_range_sum_prefix(ss, start, end, TokenField::Cached, i + 1);
            lemma_range_sum_prefix(ss, start, end, TokenField::Output, i + 1);
            lemma_range_sum_prefix(ss, start, end, TokenField::Reasoning, i + 1);
        }
        if date_in_range(s.date, start, end) {
            let t = total.checked_add(s.total_tokens);
            let a = parts.input_tokens.checked_add(s.input_tokens);
            let b = parts.cached_input_tokens.checked_add(s.cached_input_tokens);
            let c = parts.output_tokens.checked_add(s.output_tokens);
            let d = parts.reasoning_output_tokens.checked_add(s.reasoning_output_tokens);
            if t.is_none() || a.is_none() || b.is_none() || c.is_none() || d.is_none() {
                return None;
            }
            total = t.unwrap();
            parts.add(s);
            count += 1;
        }
        i += 1;
    }
    assert(ss.take(n as int) =~= ss);
    Some(UsageBucket { label, start, end, total_tokens: total, tokens: parts, session_count: count })
}

/// The counts of the sessions dated from `start` to `end`, both days
/// included, each summed straight from the session's own fields: total,
/// input, cached input, output and reasoning tokens, then the number of
/// those sessions.
pub open spec fn dated_totals(ss: IndexModel, start: Date, end: Date) -> (int, int, int, int, int, int)
    decreases ss.len(),
{
    if ss.len() == 0 {
        (0, 0, 0, 0, 0, 0)
    } else {
        let before = dated_totals(ss.drop_last(), start, end);
        let s = ss.last().1;
        let within = match s.date {
            Some(d) => date_le(start, d) && date_le(d, end),
            None => false,
        };
        if within {
            (
                before.0 + s.total_tokens,
                before.1 + s.input_tokens,
                before.2 + s.cached_input_tokens,
                before.3 + s.output_tokens,
                before.4 + s.reasoning_output_tokens,
                before.5 + 1,
            )
        } else {
            before
        }
    }
}

proof fn lemma_range_sums_are_dated_totals(ss: IndexModel, start: Date, end: Date)
    ensures
        range_sum(ss, start, end, TokenField::Total) == dated_totals(ss, start, end).0,
        range_sum(ss, start, end, TokenField::Input) == dated_totals(ss, start, end).1,
        range_sum(ss, start, end, TokenField::Cached) == dated_totals(ss, start, end).2,
        range_sum(ss, start, end, TokenField::Output) == dated_totals(ss, start, end).3,
        range_sum(ss, start, end, TokenField::Reasoning) == dated_totals(ss, start, end).4,
        range_count(ss, start, end) == dated_totals(ss, start, end).5,
    decreases ss.len(),
{
    if ss.len() > 0 {
        lemma_range_sums_are_dated_totals(ss.drop_last(), start, end);
    }
}

/// A bucket holds, for each count, the sum of that count over the sessions
/// of the index dated within its range (the cached input tokens of the
/// sessions among them), and the number of those sessions.
pub proof fn lemma_bucket_sums_session_counts(b: UsageBucket, ss: IndexModel, label: BucketLabel, start: Date, end: Date)
    requires
        bucket_matches(b, ss, label, start, end),
    ensures
        b.total_tokens == dated_totals(ss, start, end).0,
        b.tokens.input_tokens == dated_totals(ss, start, end).1,
        b.tokens.cached_input_tokens == dated_totals(ss, start, end).2,
        b.tokens.output_tokens == dated_totals(ss, start, end).3,
        b.tokens.reasoning_output_tokens == dated_totals(ss, start, end).4,
        b.session_count == dated_totals(ss, start, end).5,
{
    lemma_range_sums_are_dated_totals(ss, start, end);
}

/// The first days of the week and month buckets that end on `today`: six
/// days before it, and the first of its month.
pub open spec fn bucket_bounds_spec(today: Date) -> Option<(Date, Date)> {
    match date_minus_days(today, 6) {
        Some(w) => Some(
            (
                w,
                if valid_calendar_date(today.year as int, today.month as int, 1) {
                    Date { year: today.year, month: today.month, day: 1 }
                } else {
                    today
                },
            ),
        ),
        None => None,
    }
}

/// Computes the first days of the week and month buckets; `None` where the
/// week would start before the first representable day.
pub fn bucket_bounds(today: Date) -> (res: Option<(Date, Date)>)
    ensures
        res == bucket_bounds_spec(today),
        res matches Some((w, m)) ==> date_le(w, today) && (date_is_valid(today) ==> date_le(m, today)),
        res is Some <==> date_minus_days(today, 6) is Some,
        res matches Some((w, m)) ==> Some(w) == date_minus_days(today, 6) && m.year == today.year
            && m.month == today.month && (valid_calendar_date(today.year as int, today.month as int, 1)
            ==> m.day == 1),
{
    match days_before(today, 6) {
        Some(w) => Some((w, first_of_month(today))),
        None => None,
    }
}

/// The three buckets of a snapshot: today, the last seven days, and the
/// month so far; `None` where a sum would not fit in `u64`.
pub fn local_buckets(index: &SessionIndex, today: Date, week_start: Date, month_start: Date) -> (res: Option<Vec<UsageBucket>>)
    ensures
        res is Some <==> (range_sums_fit(index@, today, today) && range_sums_fit(index@, week_start, today)
            && range_sums_fit(index@, month_start, today)),
        res matches Some(v) ==> v@.len() == 3 && bucket_matches(v@[0], index@, BucketLabel::Today, today, today)
            && bucket_matches(v@[1], index@, BucketLabel::ThisWeek, week_start, today)
            && bucket_matches(v@[2], index@, BucketLabel::ThisMonth, month_start, today),
{
    let day = compute_bucket(index, BucketLabel::Today, today, today);
    let week = compute_bucket(index, BucketLabel::ThisWeek, week_start, today);
    let month = compute_bucket(index, BucketLabel::ThisMonth, month_start, today);
    match (day, week, month) {
        (Some(d), Some(w), Some(m)) => {
            let mut v: Vec<UsageBucket> = Vec::new();
            v.push(d);
            v.push(w);
            v.push(m);
            Some(v)
        },
        _ => None,
    }
}

/// A wider range of days holds at least the usage of a narrower one that
/// ends on the same day.
pub proof fn lemma_range_widening(ss: IndexModel, narrow_start: Date, wide_start: Date, end: Date, f: TokenField)
    requires
        date_le(wide_start, narrow_start),
    ensures
        range_sum(ss, narrow_start, end, f) <= range_sum(ss, wide_start, end, f),
        range_count(ss, narrow_start, end) <= range_count(ss, wide_start, end),
    decreases ss.len(),
{
    if ss.len() > 0 {
        lemma_range_widening(ss.drop_last(), narrow_start, wide_start, end, f);
    }
}

/// Today's usage is part of this week's and of this month's: each count, and
/// the number of sessions, is at most the week's and the month's.
pub proof fn lemma_today_within_week_and_month(ss: IndexModel, today: Date, week_start: Date, month_start: Date, f: TokenField)
    requires
        date_le(week_start, today),
        date_le(month_start, today),
    ensures
        range_sum(ss, today, today, f) <= range_sum(ss, week_start, today, f),
        range_sum(ss, today, today, f) <= range_sum(ss, month_start, today, f),
        range_count(ss, today, today) <= range_count(ss, week_start, today),
        range_count(ss, today, today) <= range_count(ss, month_start, today),
{
    lemma_range_widening(ss, today, week_start, today, f);
    lemma_range_widening(ss, today, month_start, today, f);
}

/// How many recent sessions a snapshot lists.
pub open spec fn recent_limit() -> int {
    10
}

/// A recent session as a snapshot lists it.
pub struct RecentSession {
    pub id: String,
    pub title: Option<String>,
    pub cwd: Option<String>,
    pub model: Option<String>,
    pub started_at: String,
    pub updated_at: String,
    pub total_tokens: u64,
}

/// The listing of a session: times fall back to the start time, then to
/// `now`.
pub open spec fn recent_matches(r: RecentSession, s: SessionModel, now: Seq<char>) -> bool {
    &&& r.id@ == s.id
    &&& opt_str_view(r.title) == s.title
    &&& opt_str_view(r.cwd) == s.cwd
    &&& opt_str_view(r.model) == s.model
    &&& r.started_at@ == (match s.started_at {
        Some(t) => t,
        None => now,
    })
    &&& r.updated_at@ == (match s.updated_at {
        Some(t) => t,
        None => match s.started_at {
            Some(t) => t,
            None => now,
        },
    })
    &&& r.total_tokens == s.total_tokens
}

fn clone_opt(o: &Option<String>) -> (res: Option<String>)
    ensures
        opt_str_view(res) == opt_str_view(*o),
{
    match o {
        Some(s) => Some(s.clone()),
        None => None,
    }
}

fn or_now(o: &Option<String>, now: &str) -> (res: String)
    ensures
        res@ == (match opt_str_view(*o) {
            Some(t) => t,
            None => now@,
        }),
{
    match o {
        Some(s) => s.clone(),
        None => String::from_str(now),
    }
}

/// The last ten sessions in key order, listed last first.
pub fn recent_sessions(index: &SessionIndex, now: &str) -> (res: Vec<RecentSession>)
    ensures
        res@.len() == if index@.len() < recent_limit() {
            index@.len() as int
        } else {
            recent_limit()
        },
        res@.len() <= 10,
        index@.len() >= 10 ==> res@.len() == 10,
        forall|j: int|
            0 <= j < res@.len() ==> recent_matches(
                #[trigger] res@[j],
                index@[index@.len() - 1 - j].1,
                now@,
            ),
        forall|j: int|
            #![trigger res@[j]]
            0 <= j < res@.len() ==> (index@[index@.len() - 1 - j].1.updated_at matches Some(t)
                ==> res@[j].updated_at@ == t),
{
    let n = index.len();
    let mut res: Vec<RecentSession> = Vec::new();
    let mut j: usize = 0;
    while j < n && j < 10
        invariant
            n == index@.len(),
            j <= n,
            j <= 10,
            res@.len() == j,
            forall|k: int| 0 <= k < j ==> recent_matches(#[trigger] res@[k], index@[n - 1 - k].1, now@),
        decreases n - j,
    {
        let s = index.session(n - 1 - j);
        let started_at = or_now(&s.started_at, now);
        let updated_at = match &s.updated_at {
            Some(t) => t.clone(),
            None => or_now(&s.started_at, now),
        };
        res.push(
            RecentSession {
                id: s.id.clone(),
                title: clone_opt(&s.title),
                cwd: clone_opt(&s.cwd),
                model: clone_opt(&s.model),
                started_at,
                updated_at,
                total_tokens: s.total_tokens,
            },
        );
        j += 1;
    }
    res
}

/// A listed session shows the time of its last update where it has one, and
/// its start time only where it has none (then the time of the listing);
/// it shows its start time where it has one, else the time of the listing;
/// and it shows its own id, total, title, working directory and model.
pub proof fn lemma_recent_listing_times(r: RecentSession, s: SessionModel, now: Seq<char>)
    requires
        recent_matches(r, s, now),
    ensures
        s.updated_at matches Some(t) ==> r.updated_at@ == t,
        s.updated_at is None ==> (s.started_at matches Some(t) ==> r.updated_at@ == t),
        s.updated_at is None && s.started_at is None ==> r.updated_at@ == now,
        s.started_at matches Some(t) ==> r.started_at@ == t,
        s.started_at is None ==> r.started_at@ == now,
        r.id@ == s.id,
        r.total_tokens == s.total_tokens,
        opt_str_view(r.title) == s.title,
        opt_str_view(r.cwd) == s.cwd,
        opt_str_view(r.model) == s.model,
{
}

/// What one session adds to a bucket's sum.
pub open spec fn contribution(v: SessionModel, start: Date, end: Date, f: TokenField) -> int {
    if in_range(v.date, start, end) {
        field_value(v, f)
    } else {
        0
    }
}

proof fn lemma_range_insert(s: IndexModel, p: int, v: (Seq<char>, SessionModel), start: Date, end: Date, f: TokenField)
    requires
        0 <= p <= s.len(),
    ensures
        range_sum(s.insert(p, v), start, end, f) == range_sum(s, start, end, f) + contribution(v.1, start, end, f),
        range_count(s.insert(p, v), start, end) == range_count(s, start, end) + if in_range(v.1.date, start, end) {
            1int
        } else {
            0int
        },
    decreases s.len(),
{
    if p == s.len() {
        assert(s.insert(p, v).drop_last() =~= s);
        assert(s.insert(p, v).last() == v);
    } else {
        assert(s.insert(p, v).drop_last() =~= s.drop_last().insert(p, v));
        assert(s.insert(p, v).last() == s.last());
        lemma_range_insert(s.drop_last(), p, v, start, end, f);
    }
}

proof fn lemma_range_update(s: IndexModel, i: int, v: (Seq<char>, SessionModel), start: Date, end: Date, f: TokenField)
    requires
        0 <= i < s.len(),
        v.1.date == s[i].1.date,
    ensures
        range_sum(s.update(i, v), start, end, f) == range_sum(s, start, end, f) + contribution(v.1, start, end, f)
            - contribution(s[i].1, start, end, f),
        range_count(s.update(i, v), start, end) == range_count(s, start, end),
    decreases s.len(),
{
    if i == s.len() - 1 {
        assert(s.update(i, v).drop_last() =~= s.drop_last());
        assert(s.update(i, v).last() == v);
    } else {
        assert(s.update(i, v).drop_last() =~= s.drop_last().update(i, v));
        assert(s.update(i, v).last() == s.last());
        lemma_range_update(s.drop_last(), i, v, start, end, f);
    }
}

/// Reading one more log, new or already filed, never lowers any count of
/// any bucket, nor its number of sessions.
pub proof fn lemma_ingest_never_lowers_buckets(
    s: IndexModel,
    key: Seq<char>,
    date: Option<Date>,
    lines: Seq<Seq<char>>,
    start: Date,
    end: Date,
    f: TokenField,
)
    ensures
        range_sum(ingest_spec(s, key, date, lines), start, end, f) >= range_sum(s, start, end, f),
        range_count(ingest_spec(s, key, date, lines), start, end) >= range_count(s, start, end),
{
    match find_key(s, key) {
        Some(i) => {
            let v = (key, apply_lines(s[i].1, lines));
            lemma_counts_never_decrease(s[i].1, lines);
            lemma_range_update(s, i, v, start, end, f);
        },
        None => {
            lemma_count_less_bounds(s, key);
            let v = (key, apply_lines(new_session_spec(key, date), lines));
            lemma_range_insert(s, count_less(s, key), v, start, end, f);
        },
    }
}

/// Appending to a log a line it already holds, or a line that is not JSON,
/// changes no bucket: not a count, not the number of sessions.
pub proof fn lemma_repeated_or_junk_line_keeps_buckets(
    s: IndexModel,
    key: Seq<char>,
    date: Option<Date>,
    lines: Seq<Seq<char>>,
    line: Seq<char>,
    start: Date,
    end: Date,
    f: TokenField,
)
    requires
        parsed_json(line) is Err || lines.contains(line),
    ensures
        range_sum(ingest_spec(s, key, date, lines.push(line)), start, end, f) == range_sum(
            ingest_spec(s, key, date, lines),
            start,
            end,
            f,
        ),
        range_count(ingest_spec(s, key, date, lines.push(line)), start, end) == range_count(
            ingest_spec(s, key, date, lines),
            start,
            end,
        ),
{
    let longer = ingest_spec(s, key, date, lines.push(line));
    let shorter = ingest_spec(s, key, date, lines);
    match find_key(s, key) {
        Some(i) => {
            let a = apply_lines(s[i].1, lines.push(line));
            let b = apply_lines(s[i].1, lines);
            lemma_repeated_or_junk_line_keeps_counts(s[i].1, lines, line);
            assert(longer =~= shorter.update(i, (key, a)));
            lemma_range_update(shorter, i, (key, a), start, end, f);
        },
        None => {
            lemma_count_less_bounds(s, key);
            let p = count_less(s, key);
            let base = new_session_spec(key, date);
            let a = apply_lines(base, lines.push(line));
            lemma_repeated_or_junk_line_keeps_counts(base, lines, line);
            assert(longer =~= shorter.update(p, (key, a)));
            lemma_range_update(shorter, p, (key, a), start, end, f);
        },
    }
}

} // verus!

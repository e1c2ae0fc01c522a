//! The decisions of one Gemini call: how long an attempt may take, which
//! failures are worth another attempt (and another unit of the daily quota),
//! how long to back off, and which error the user finally sees. The
//! application performs each step (sending, sleeping, reporting) and hands the
//! outcome back; `CallState` answers with the next step.

use vstd::prelude::*;
use crate::ai_engine::{client_error_message, client_error_text, AiEngineError, AiErrorView};
use crate::text::{contains_seq, str_contains, str_eq, str_trim, spec_trim, string_from_str};

verus! {

/// The model every request goes to.
pub const GEMINI_MODEL: &'static str = "gemini-3.6-flash";

/// Free-tier requests per day, per project, per model; only used for the
/// message shown to the user.
pub const FREE_TIER_DAILY_LIMIT: u32 = 20;

/// A 5xx answer gets one extra attempt, not two: every attempt, failed ones
/// included, is charged against the daily budget.
pub const MAX_SERVER_ERROR_ATTEMPTS: u32 = 2;

/// Attempts per call, whatever the failure.
pub const MAX_RETRIES: u32 = 3;

/// Ceiling for one request, in seconds.
pub const REQUEST_TIMEOUT_SECS: u64 = 45;

/// Ceiling for the whole call - every attempt and every backoff together - in
/// seconds.
pub const TOTAL_BUDGET_SECS: u64 = 75;

/// Which quota a 429 refers to, as Google reports it in `quotaId`.
#[derive(Debug, Clone, Copy, PartialEq, Eq, Structural)]
pub enum QuotaScope {
    PerDay,
    PerMinute,
    Unknown,
}

pub open spec fn spec_quota_scope(quota_id: Option<Seq<char>>) -> QuotaScope {
    match quota_id {
        Some(id) => if contains_seq(id, "PerDay"@) {
            QuotaScope::PerDay
        } else if contains_seq(id, "PerMinute"@) {
            QuotaScope::PerMinute
        } else {
            QuotaScope::Unknown
        },
        None => QuotaScope::Unknown,
    }
}

/// Reads the scope out of Google's quota identifier, e.g.
/// `GenerateRequestsPerDayPerProjectPerModel-FreeTier`.
pub fn quota_scope(quota_id: Option<&str>) -> (r: QuotaScope)
    ensures
        r == spec_quota_scope(
            match quota_id {
                Some(id) => Some(id@),
                None => None,
            },
        ),
{
    match quota_id {
        Some(id) => {
            if str_contains(id, "PerDay") {
                QuotaScope::PerDay
            } else if str_contains(id, "PerMinute") {
                QuotaScope::PerMinute
            } else {
                QuotaScope::Unknown
            }
        },
        None => QuotaScope::Unknown,
    }
}

pub open spec fn spec_should_retry(code: u16, attempt: u32, quota: QuotaScope, repeated: bool) -> bool {
    if repeated {
        false
    } else if code == 429 {
        quota != QuotaScope::PerDay
    } else if code == 503 {
        attempt + 1 < MAX_SERVER_ERROR_ATTEMPTS
    } else {
        false
    }
}

/// Whether another attempt is worth a quota unit. `repeated` means the
/// previous attempt returned the same status and the same body length: a
/// byte-identical error is a deterministic answer, not a blip, so the loop
/// stops whatever the status. An exhausted daily quota is never retried.
pub fn should_retry(code: u16, attempt: u32, quota: QuotaScope, repeated: bool) -> (r: bool)
    ensures
        r == spec_should_retry(code, attempt, quota, repeated),
{
    if repeated {
        return false;
    }
    if code == 429 {
        quota != QuotaScope::PerDay
    } else if code == 503 {
        attempt < MAX_SERVER_ERROR_ATTEMPTS - 1
    } else {
        false
    }
}

/// What the HTTP client reports about a failed request, flattened into plain
/// data so the retry policy can be decided (and tested) apart from the client.
#[derive(Debug)]
pub struct TransportFacts {
    pub is_timeout: bool,
    pub is_connect: bool,
    pub is_request: bool,
    pub is_body: bool,
    pub is_builder: bool,
    pub is_redirect: bool,
    pub is_decode: bool,
    /// Display text of the whole error source chain, lower-cased.
    pub chain: String,
}

impl Default for TransportFacts {
    fn default() -> (r: Self)
        ensures
            !r.is_timeout && !r.is_connect && !r.is_request && !r.is_body && !r.is_builder
                && !r.is_redirect && !r.is_decode && r.chain@ == Seq::<char>::empty(),
    {
        TransportFacts {
            is_timeout: false,
            is_connect: false,
            is_request: false,
            is_body: false,
            is_builder: false,
            is_redirect: false,
            is_decode: false,
            chain: String::new(),
        }
    }
}

/// Text in an error chain that marks a certificate or handshake failure, which
/// reaches the client as a connect error but is never a blip.
pub open spec fn non_retryable_marker(k: int) -> Seq<char> {
    if k == 0 {
        "certificate"@
    } else if k == 1 {
        "handshake"@
    } else if k == 2 {
        "invalid peer"@
    } else if k == 3 {
        "unknown issuer"@
    } else if k == 4 {
        "self-signed"@
    } else {
        "untrusted"@
    }
}

pub const NON_RETRYABLE_MARKER_COUNT: usize = 6;

fn non_retryable_marker_text(k: usize) -> (r: &'static str)
    requires
        k < NON_RETRYABLE_MARKER_COUNT,
    ensures
        r@ == non_retryable_marker(k as int),
{
    if k == 0 {
        "certificate"
    } else if k == 1 {
        "handshake"
    } else if k == 2 {
        "invalid peer"
    } else if k == 3 {
        "unknown issuer"
    } else if k == 4 {
        "self-signed"
    } else {
        "untrusted"
    }
}

pub open spec fn spec_retryable_transport(facts: TransportFacts) -> bool {
    &&& !(facts.is_builder || facts.is_redirect || facts.is_decode)
    &&& !(exists|k: int|
        0 <= k < NON_RETRYABLE_MARKER_COUNT && contains_seq(
            facts.chain@,
            #[trigger] non_retryable_marker(k),
        ))
    &&& (facts.is_timeout || facts.is_connect || facts.is_request || facts.is_body)
}

/// Retrying is for faults a second attempt can plausibly survive (a timeout, a
/// dropped connection, a connection that died mid-exchange). A malformed
/// request, a redirect, bytes that arrived but do not decode, a certificate
/// failure, and anything unrecognised fail fast.
pub fn is_retryable_transport(facts: &TransportFacts) -> (r: bool)
    ensures
        r == spec_retryable_transport(*facts),
{
    if facts.is_builder || facts.is_redirect || facts.is_decode {
        return false;
    }
    let mut k: usize = 0;
    while k < NON_RETRYABLE_MARKER_COUNT
        invariant
            k <= NON_RETRYABLE_MARKER_COUNT,
            forall|q: int| 0 <= q < k ==> !contains_seq(facts.chain@, #[trigger] non_retryable_marker(q)),
        decreases NON_RETRYABLE_MARKER_COUNT - k,
    {
        if str_contains(facts.chain.as_str(), non_retryable_marker_text(k)) {
            return false;
        }
        k = k + 1;
    }
    facts.is_timeout || facts.is_connect || facts.is_request || facts.is_body
}

/// Time left before the whole-call budget runs out, or `None` when it is
/// spent. Times are milliseconds on one monotonic clock.
pub fn remaining_budget(deadline_ms: u64, now_ms: u64) -> (r: Option<u64>)
    ensures
        r == (if deadline_ms > now_ms {
            Some((deadline_ms - now_ms) as u64)
        } else {
            None::<u64>
        }),
{
    if deadline_ms > now_ms {
        Some(deadline_ms - now_ms)
    } else {
        None
    }
}

pub open spec fn spec_backoff_fits(deadline_ms: u64, now_ms: u64, backoff_ms: u64) -> bool {
    deadline_ms > now_ms && deadline_ms - now_ms > backoff_ms
}

/// A backoff is only worth waiting out if the budget outlives it; otherwise
/// the wait ends in the same failure, just later.
pub fn backoff_fits(deadline_ms: u64, now_ms: u64, backoff_ms: u64) -> (r: bool)
    ensures
        r == spec_backoff_fits(deadline_ms, now_ms, backoff_ms),
{
    match remaining_budget(deadline_ms, now_ms) {
        Some(left) => left > backoff_ms,
        None => false,
    }
}

/// The calendar date (year, month 1-12, day, Julian day number) that the
/// instant `unix_secs` (seconds since 1970-01-01 UTC) falls on at a fixed UTC
/// offset of `offset_hours`, or `None` outside the `time` crate's range.
pub uninterp spec fn spec_local_date(unix_secs: i64, offset_hours: i8) -> Option<(i32, u8, u8, i32)>;

/// Calls `time::OffsetDateTime::from_unix_timestamp`, `time::UtcOffset::from_hms`
/// and `OffsetDateTime::checked_to_offset`, then reads the local date's year,
/// month, day and `to_julian_day`. The contract only names the result: it is
/// a function of the two arguments; the calendar arithmetic is the crate's.
#[verifier::external_body]
pub(crate) fn local_date(unix_secs: i64, offset_hours: i8) -> (r: Option<(i32, u8, u8, i32)>)
    ensures
        r == spec_local_date(unix_secs, offset_hours),
{
    let utc = time::OffsetDateTime::from_unix_timestamp(unix_secs).ok()?;
    let offset = time::UtcOffset::from_hms(offset_hours, 0, 0).ok()?;
    let local = utc.checked_to_offset(offset)?;
    Some((local.year(), u8::from(local.month()), local.day(), local.to_julian_day()))
}

/// Weekday of the first day of `month` in `year`, counted from Sunday (0) to
/// Saturday (6), or `None` when the month number or the year is out of range.
pub uninterp spec fn spec_first_weekday(year: i32, month: u8) -> Option<u8>;

/// Calls `time::Month::try_from`, `time::Date::from_calendar_date` for day 1 and
/// `Weekday::number_days_from_sunday`. Claimed: the result is a function of the
/// arguments and, when present, below 7 (the crate documents Sunday as 0 and
/// Saturday as 6).
#[verifier::external_body]
fn first_weekday(year: i32, month: u8) -> (r: Option<u8>)
    ensures
        r == spec_first_weekday(year, month),
        r matches Some(w) ==> w < 7,
{
    let month = time::Month::try_from(month).ok()?;
    let first = time::Date::from_calendar_date(year, month, 1).ok()?;
    Some(first.weekday().number_days_from_sunday())
}

/// Day of the month of the `nth` Sunday, for a month whose first day is
/// `first_weekday` days after a Sunday.
pub open spec fn nth_sunday(first_weekday: u8, nth: int) -> int {
    1 + (7 - first_weekday) % 7 + (nth - 1) * 7
}

/// US Pacific daylight saving time: from the second Sunday in March to the
/// first Sunday in November (the 02:00 switch itself is ignored).
pub open spec fn spec_is_pacific_dst(year: i32, month: u8, day: u8) -> bool {
    if 4 <= month <= 10 {
        true
    } else if month == 3 {
        match spec_first_weekday(year, 3) {
            Some(w) => day >= nth_sunday(w, 2),
            None => false,
        }
    } else if month == 11 {
        match spec_first_weekday(year, 11) {
            Some(w) => day < nth_sunday(w, 1),
            None => false,
        }
    } else {
        false
    }
}

/// Whether Pacific time observes daylight saving on the given date. Computed
/// from the US rule rather than a timezone database. A year outside the
/// calendar's range counts as standard time.
pub fn is_pacific_dst(year: i32, month: u8, day: u8) -> (r: bool)
    ensures
        r == spec_is_pacific_dst(year, month, day),
{
    if 4 <= month && month <= 10 {
        true
    } else if month == 3 {
        match first_weekday(year, 3) {
            Some(w) => day >= 1 + (7 - w) % 7 + 7,
            None => false,
        }
    } else if month == 11 {
        match first_weekday(year, 11) {
            Some(w) => day < 1 + (7 - w) % 7,
            None => false,
        }
    } else {
        false
    }
}

/// Julian day number of the Pacific calendar day that `unix_secs` falls on:
/// the offset is -7 h when the date at -8 h is in daylight saving time, else
/// -8 h.
pub open spec fn spec_pacific_day(unix_secs: i64) -> Option<i64> {
    match spec_local_date(unix_secs, -8i8) {
        Some((y, m, d, _)) => {
            let hours: i8 = if spec_is_pacific_dst(y, m, d) {
                -7i8
            } else {
                -8i8
            };
            match spec_local_date(unix_secs, hours) {
                Some((_, _, _, julian)) => Some(julian as i64),
                None => None,
            }
        },
        None => None,
    }
}

/// Day number in Pacific time. Google's free-tier daily quota resets at
/// midnight Pacific, so the request counter rolls over on the same boundary
/// rather than on UTC. `None` only for instants outside the calendar's range.
pub fn pacific_day(unix_secs: i64) -> (r: Option<i64>)
    ensures
        r == spec_pacific_day(unix_secs),
{
    match local_date(unix_secs, -8) {
        Some((y, m, d, _)) => {
            let hours: i8 = if is_pacific_dst(y, m, d) {
                -7
            } else {
                -8
            };
            match local_date(unix_secs, hours) {
                Some((_, _, _, julian)) => Some(julian as i64),
                None => None,
            }
        },
        None => None,
    }
}

/// Requests sent on one Pacific day, successes and failures alike: a failed
/// request is charged against the quota exactly like a successful one.
pub struct UsageCounter {
    pub day: i64,
    pub count: u32,
}

/// The counter after one more request on `today`: a new day starts again
/// from one.
pub open spec fn counted(day: i64, count: u32, today: i64) -> (i64, int) {
    if day == today {
        (today, count + 1)
    } else {
        (today, 1)
    }
}

impl UsageCounter {
    /// A counter that has seen no request on `today`.
    pub fn new(today: i64) -> (r: Self)
        ensures
            r.day == today,
            r.count == 0,
    {
        UsageCounter { day: today, count: 0 }
    }

    /// Counts one request sent on `today` and returns how many were sent that
    /// day.
    pub fn record(&mut self, today: i64) -> (n: u32)
        requires
            old(self).day != today || old(self).count < u32::MAX,
        ensures
            (final(self).day, final(self).count as int) == counted(old(self).day, old(self).count, today),
            n == final(self).count,
    {
        if self.day != today {
            self.day = today;
            self.count = 0;
        }
        self.count = self.count + 1;
        self.count
    }
}

/// Every request sent on a day is counted: a second request on the same day,
/// whatever became of the first, reads one more than the first.
pub proof fn law_every_request_on_a_day_is_counted(day: i64, count: u32, today: i64)
    requires
        count < u32::MAX,
    ensures
        ({
            let first = counted(day, count, today);
            let second = counted(first.0, first.1 as u32, today);
            second.1 == first.1 + 1
        }),
{
}

/// A byte-identical answer (same status, same body length) is a
/// deterministic reply, not a blip: whatever the status, it is not retried.
pub proof fn law_a_repeated_answer_is_never_retried(code: u16, attempt: u32, quota: QuotaScope)
    ensures
        !spec_should_retry(code, attempt, quota, true),
{
}

/// An exhausted daily quota is never retried: every attempt is charged, and
/// the next one that can succeed is tomorrow.
pub proof fn law_an_exhausted_daily_quota_is_never_retried(attempt: u32, repeated: bool)
    ensures
        !spec_should_retry(429, attempt, QuotaScope::PerDay, repeated),
{
}

/// A 5xx answer gets exactly one extra attempt, the one after the first.
pub proof fn law_a_server_error_gets_one_extra_attempt(attempt: u32, quota: QuotaScope)
    ensures
        spec_should_retry(503, attempt, quota, false) <==> attempt == 0,
{
}

/// What the application parsed out of an unsuccessful HTTP answer. Only
/// identifiers and lengths: never the body itself.
pub struct ErrorReply {
    /// HTTP status code.
    pub code: u16,
    /// Length of the response body in bytes.
    pub body_len: usize,
    /// `error.status` of Google's error body, when it parsed.
    pub api_status: Option<String>,
    /// The first `quotaId` of the error details, when present.
    pub quota_id: Option<String>,
    /// Google's suggested `retryDelay`, rounded up to whole seconds.
    pub retry_delay_secs: Option<u64>,
}

/// The next thing the application must do for a call.
pub enum CallStep {
    /// Send the request, giving it at most `timeout_ms`.
    Send { timeout_ms: u64 },
    /// Wait `ms` (abandoned at once if the user cancels), then begin the next
    /// attempt.
    Sleep { ms: u64 },
    /// Give up and report this error.
    Fail(AiEngineError),
}

/// The state of one call between its steps.
pub struct CallState {
    /// Index of the attempt being made (or about to be).
    pub attempt: u32,
    /// End of the whole-call budget.
    pub deadline_ms: u64,
    /// The error to report if the call ends without a better one.
    pub last_error: Option<AiEngineError>,
    /// Status and body length of the previous unsuccessful answer.
    pub previous_signature: Option<(u16, usize)>,
}

pub open spec fn budget_ms() -> u64 {
    (TOTAL_BUDGET_SECS * 1000) as u64
}

pub open spec fn request_timeout_ms() -> u64 {
    (REQUEST_TIMEOUT_SECS * 1000) as u64
}

/// The fixed backoff before attempt `attempt + 1`: 2 s, then 4 s.
pub open spec fn fallback_backoff_ms(attempt: u32) -> u64 {
    if attempt == 0 {
        2000
    } else {
        4000
    }
}

/// The error a call that ran out of attempts or budget reports: the last one
/// seen, or the given default.
pub open spec fn reported(last: Option<AiEngineError>, default: AiErrorView) -> AiErrorView {
    match last {
        Some(e) => e@,
        None => default,
    }
}

pub open spec fn http_error_view(reply: ErrorReply, attempt: u32, scope: QuotaScope) -> AiErrorView {
    if (reply.api_status matches Some(s) && s@ == "RESOURCE_EXHAUSTED"@) || reply.code == 429 {
        if scope == QuotaScope::PerDay {
            AiErrorView::DailyQuotaExhausted { limit: FREE_TIER_DAILY_LIMIT }
        } else {
            AiErrorView::RateLimitExceeded
        }
    } else if 400 <= reply.code <= 499 {
        AiErrorView::ApiClientError { status: reply.code, message: client_error_text(reply.code) }
    } else {
        AiErrorView::ApiServerError { status: reply.code, attempts: (attempt + 1) as u32 }
    }
}

pub open spec fn http_backoff_ms(reply: ErrorReply, attempt: u32) -> u64 {
    match reply.retry_delay_secs {
        Some(secs) => if secs * 1000 > u64::MAX {
            u64::MAX
        } else {
            (secs * 1000) as u64
        },
        None => fallback_backoff_ms(attempt),
    }
}

/// Message of a request that ran into its own timeout.
pub open spec fn request_timed_out_text() -> Seq<char> {
    "przekroczono czas oczekiwania na odpowiedź"@
}

impl CallState {
    /// A call that starts at `now_ms`.
    pub fn new(now_ms: u64) -> (r: Self)
        ensures
            r.attempt == 0,
            r.deadline_ms == (if now_ms + budget_ms() > u64::MAX {
                u64::MAX
            } else {
                (now_ms + budget_ms()) as u64
            }),
            r.last_error is None,
            r.previous_signature is None,
    {
        let budget = TOTAL_BUDGET_SECS * 1000;
        let deadline = if now_ms > u64::MAX - budget {
            u64::MAX
        } else {
            now_ms + budget
        };
        CallState { attempt: 0, deadline_ms: deadline, last_error: None, previous_signature: None }
    }

    fn take_reported(&mut self, default: AiEngineError) -> (e: AiEngineError)
        ensures
            e@ == reported(old(self).last_error, default@),
            final(self).attempt == old(self).attempt,
            final(self).deadline_ms == old(self).deadline_ms,
            final(self).previous_signature == old(self).previous_signature,
    {
        match self.last_error.take() {
            Some(e) => e,
            None => default,
        }
    }

    /// Begins the next attempt: sends it with whatever is left of the budget
    /// (at most one request timeout), or ends the call when the attempts or the
    /// budget are spent.
    pub fn begin_attempt(&mut self, now_ms: u64) -> (step: CallStep)
        ensures
            final(self).attempt == old(self).attempt,
            final(self).deadline_ms == old(self).deadline_ms,
            final(self).previous_signature == old(self).previous_signature,
            old(self).attempt >= MAX_RETRIES ==> (step matches CallStep::Fail(e) && e@ == reported(
                old(self).last_error,
                AiErrorView::ApiServerError { status: 0, attempts: MAX_RETRIES },
            )),
            old(self).attempt < MAX_RETRIES && old(self).deadline_ms <= now_ms ==> (
            step matches CallStep::Fail(e) && e@ == reported(
                old(self).last_error,
                AiErrorView::TimeBudgetExceeded { seconds: TOTAL_BUDGET_SECS },
            )),
            old(self).attempt < MAX_RETRIES && old(self).deadline_ms > now_ms ==> step == (CallStep::Send {
                timeout_ms: if old(self).deadline_ms - now_ms < request_timeout_ms() {
                    (old(self).deadline_ms - now_ms) as u64
                } else {
                    request_timeout_ms()
                },
            }) && final(self).last_error == old(self).last_error,
    {
        if self.attempt >= MAX_RETRIES {
            let e = self.take_reported(
                AiEngineError::ApiServerError { status: 0, attempts: MAX_RETRIES },
            );
            return CallStep::Fail(e);
        }
        match remaining_budget(self.deadline_ms, now_ms) {
            None => {
                let e = self.take_reported(
                    AiEngineError::TimeBudgetExceeded { seconds: TOTAL_BUDGET_SECS },
                );
                CallStep::Fail(e)
            },
            Some(left) => {
                let cap = REQUEST_TIMEOUT_SECS * 1000;
                CallStep::Send { timeout_ms: if left < cap { left } else { cap } }
            },
        }
    }

    /// Retries after a transport fault when it is retryable, attempts remain
    /// and the budget outlives the 2 s / 4 s backoff; otherwise ends the call
    /// with the connection error.
    fn retry_or_fail(&mut self, error: AiEngineError, retryable: bool, now_ms: u64) -> (step: CallStep)
        requires
            old(self).attempt < MAX_RETRIES,
        ensures
            final(self).deadline_ms == old(self).deadline_ms,
            final(self).previous_signature == old(self).previous_signature,
            ({
                let backoff = fallback_backoff_ms(old(self).attempt);
                if retryable && old(self).attempt + 1 < MAX_RETRIES && spec_backoff_fits(
                    old(self).deadline_ms,
                    now_ms,
                    backoff,
                ) {
                    &&& step == (CallStep::Sleep { ms: backoff })
                    &&& final(self).attempt == old(self).attempt + 1
                    &&& final(self).last_error == Some(error)
                } else {
                    &&& step == CallStep::Fail(error)
                    &&& final(self).attempt == old(self).attempt
                }
            }),
    {
        if !retryable || self.attempt + 1 >= MAX_RETRIES {
            return CallStep::Fail(error);
        }
        let backoff: u64 = if self.attempt == 0 {
            2000
        } else {
            4000
        };
        if !backoff_fits(self.deadline_ms, now_ms, backoff) {
            return CallStep::Fail(error);
        }
        self.last_error = Some(error);
        self.attempt = self.attempt + 1;
        CallStep::Sleep { ms: backoff }
    }

    /// The request never got an HTTP answer. `message` is the client's own
    /// description of the fault.
    pub fn transport_failed(&mut self, retryable: bool, message: String, now_ms: u64) -> (step:
        CallStep)
        requires
            old(self).attempt < MAX_RETRIES,
        ensures
            final(self).deadline_ms == old(self).deadline_ms,
            final(self).previous_signature == old(self).previous_signature,
            ({
                let backoff = fallback_backoff_ms(old(self).attempt);
                if retryable && old(self).attempt + 1 < MAX_RETRIES && spec_backoff_fits(
                    old(self).deadline_ms,
                    now_ms,
                    backoff,
                ) {
                    &&& step == (CallStep::Sleep { ms: backoff })
                    &&& final(self).attempt == old(self).attempt + 1
                    &&& final(self).last_error matches Some(e) && e@ == AiErrorView::ConnectionFailed(
                        message@,
                    )
                } else {
                    &&& step matches CallStep::Fail(e) && e@ == AiErrorView::ConnectionFailed(
                        message@,
                    )
                    &&& final(self).attempt == old(self).attempt
                }
            }),
    {
        self.retry_or_fail(AiEngineError::ConnectionFailed(message), retryable, now_ms)
    }

    /// The attempt hit its timeout. When the whole budget is gone that is what
    /// the user hears about; otherwise it counts as a retryable connection
    /// fault.
    pub fn timed_out(&mut self, now_ms: u64) -> (step: CallStep)
        requires
            old(self).attempt < MAX_RETRIES,
        ensures
            final(self).deadline_ms == old(self).deadline_ms,
            final(self).previous_signature == old(self).previous_signature,
            old(self).deadline_ms <= now_ms ==> (step matches CallStep::Fail(e) && e@ == (
            AiErrorView::TimeBudgetExceeded { seconds: TOTAL_BUDGET_SECS }) && final(self).attempt
                == old(self).attempt),
            old(self).deadline_ms > now_ms ==> ({
                let backoff = fallback_backoff_ms(old(self).attempt);
                if old(self).attempt + 1 < MAX_RETRIES && spec_backoff_fits(
                    old(self).deadline_ms,
                    now_ms,
                    backoff,
                ) {
                    &&& step == (CallStep::Sleep { ms: backoff })
                    &&& final(self).attempt == old(self).attempt + 1
                    &&& final(self).last_error matches Some(e) && e@ == AiErrorView::ConnectionFailed(
                        request_timed_out_text(),
                    )
                } else {
                    &&& step matches CallStep::Fail(e) && e@ == AiErrorView::ConnectionFailed(
                        request_timed_out_text(),
                    )
                    &&& final(self).attempt == old(self).attempt
                }
            }),
    {
        if remaining_budget(self.deadline_ms, now_ms).is_none() {
            return CallStep::Fail(AiEngineError::TimeBudgetExceeded { seconds: TOTAL_BUDGET_SECS });
        }
        let message = string_from_str("przekroczono czas oczekiwania na odpowiedź");
        self.retry_or_fail(AiEngineError::ConnectionFailed(message), true, now_ms)
    }

    /// Google answered with an error status. A per-minute limit and a first
    /// 503 are retried after Google's suggested delay (or 2 s / 4 s), provided
    /// the answer differs from the previous one, attempts remain and the budget
    /// outlives the wait; an exhausted daily quota, a 4xx and a repeated answer
    /// end the call at once.
    pub fn http_failed(&mut self, reply: &ErrorReply, now_ms: u64) -> (step: CallStep)
        requires
            old(self).attempt < MAX_RETRIES,
        ensures
            final(self).deadline_ms == old(self).deadline_ms,
            final(self).previous_signature == Some((reply.code, reply.body_len)),
            ({
                let repeated = old(self).previous_signature == Some((reply.code, reply.body_len));
                let scope = spec_quota_scope(
                    match reply.quota_id {
                        Some(id) => Some(id@),
                        None => None,
                    },
                );
                let error = http_error_view(*reply, old(self).attempt, scope);
                let backoff = http_backoff_ms(*reply, old(self).attempt);
                if spec_should_retry(reply.code, old(self).attempt, scope, repeated) && old(
                    self,
                ).attempt + 1 < MAX_RETRIES && spec_backoff_fits(
                    old(self).deadline_ms,
                    now_ms,
                    backoff,
                ) {
                    &&& step == (CallStep::Sleep { ms: backoff })
                    &&& final(self).attempt == old(self).attempt + 1
                    &&& final(self).last_error matches Some(e) && e@ == error
                } else {
                    &&& step matches CallStep::Fail(e) && e@ == error
                    &&& final(self).attempt == old(self).attempt
                }
            }),
    {
        let signature = (reply.code, reply.body_len);
        let repeated = match self.previous_signature {
            Some((code, len)) => code == reply.code && len == reply.body_len,
            None => false,
        };
        self.previous_signature = Some(signature);
        let scope = match &reply.quota_id {
            Some(id) => quota_scope(Some(id.as_str())),
            None => quota_scope(None),
        };
        let exhausted = match &reply.api_status {
            Some(status) => str_eq(status.as_str(), "RESOURCE_EXHAUSTED"),
            None => false,
        };
        let retryable = should_retry(reply.code, self.attempt, scope, repeated);
        let error = if exhausted || reply.code == 429 {
            if scope == QuotaScope::PerDay {
                AiEngineError::DailyQuotaExhausted { limit: FREE_TIER_DAILY_LIMIT }
            } else {
                AiEngineError::RateLimitExceeded
            }
        } else if 400 <= reply.code && reply.code <= 499 {
            AiEngineError::ApiClientError {
                status: reply.code,
                message: client_error_message(reply.code),
            }
        } else {
            AiEngineError::ApiServerError { status: reply.code, attempts: self.attempt + 1 }
        };
        if !retryable || self.attempt + 1 >= MAX_RETRIES {
            return CallStep::Fail(error);
        }
        let backoff: u64 = match reply.retry_delay_secs {
            Some(secs) => if secs > u64::MAX / 1000 {
                u64::MAX
            } else {
                secs * 1000
            },
            None => if self.attempt == 0 {
                2000
            } else {
                4000
            },
        };
        if !backoff_fits(self.deadline_ms, now_ms, backoff) {
            return CallStep::Fail(error);
        }
        self.last_error = Some(error);
        self.attempt = self.attempt + 1;
        CallStep::Sleep { ms: backoff }
    }
}

/// The text of a successful answer: the first part of the first candidate,
/// trimmed, or `EmptyResponse` when there is none.
pub fn success_text(first_part: Option<&str>) -> (r: Result<String, AiEngineError>)
    ensures
        match first_part {
            Some(text) => r matches Ok(s) && s@ == spec_trim(text@),
            None => r matches Err(e) && e@ == AiErrorView::EmptyResponse,
        },
{
    match first_part {
        Some(text) => Ok(string_from_str(str_trim(text))),
        None => Err(AiEngineError::EmptyResponse),
    }
}

/// Per-call context: the cancellation token a call races against. Carried on
/// the provider rather than passed to every request, so a provider that knows
/// nothing of cancellation need not change.
pub struct CallContext<T> {
    pub cancel: T,
}

impl<T> CallContext<T> {
    pub fn new(cancel: T) -> (r: Self)
        ensures
            r.cancel == cancel,
    {
        CallContext { cancel }
    }
}

/// The Gemini provider of one call.
pub struct GeminiProvider<T> {
    pub context: CallContext<T>,
}

impl<T> GeminiProvider<T> {
    pub fn new(context: CallContext<T>) -> (r: Self)
        ensures
            r.context == context,
    {
        GeminiProvider { context }
    }

}

impl<T: Default> GeminiProvider<T> {
    /// For calls with no cancel button behind them: a fresh token that nobody
    /// else holds, so it never fires.
    pub fn detached() -> (r: Self)
        ensures
            call_ensures(T::default, (), r.context.cancel),
    {
        GeminiProvider { context: CallContext { cancel: T::default() } }
    }
}

} // verus!

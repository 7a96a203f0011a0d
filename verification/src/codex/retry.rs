//! What to do about a request that failed.
use vstd::prelude::*;
use crate::json::{Json, JsonView};
use crate::json_text;
use crate::json_text::parse_json;
use crate::text;
use crate::text::{contains, decimal, replace_char};
use crate::views;

verus! {

/// The delay before the first repetition.
pub const BASE_DELAY_MS: u64 = 1000;

/// The longest delay that a server may ask for, where the caller sets none.
pub const DEFAULT_MAX_RETRY_DELAY_MS: u64 = 60000;

/// How often a request is repeated, where the caller does not say.
pub const DEFAULT_MAX_RETRIES: u32 = 0;

/// Whether a text in lower case speaks of a limit that waiting does not lift.
pub open spec fn speaks_of_terminal_limit(lower: Seq<char>) -> bool {
    ||| text::holds(lower, "gousagelimiterror"@)
    ||| text::holds(lower, "freeusagelimiterror"@)
    ||| text::holds(lower, "monthly usage limit reached"@)
    ||| text::holds(lower, "available balance"@)
    ||| text::holds(lower, "insufficient_quota"@)
    ||| text::holds(lower, "out of budget"@)
    ||| text::holds(lower, "quota exceeded"@)
    ||| text::holds(lower, "billing"@)
}

/// Whether a text in lower case speaks of a limit that waiting does not lift.
pub fn is_terminal_limit_text(lower: &str) -> (r: bool)
    ensures
        r == speaks_of_terminal_limit(lower@),
{
    contains(lower, "gousagelimiterror") || contains(lower, "freeusagelimiterror") || contains(
        lower,
        "monthly usage limit reached",
    ) || contains(lower, "available balance") || contains(lower, "insufficient_quota") || contains(
        lower,
        "out of budget",
    ) || contains(lower, "quota exceeded") || contains(lower, "billing")
}

/// Whether an error speaks of a limit that waiting does not lift.
pub fn is_terminal_rate_limit_error(error_text: &str) -> (r: bool)
    ensures
        r == speaks_of_terminal_limit(text::lowercase(error_text@)),
{
    let lower: String = error_text.to_lowercase();
    is_terminal_limit_text(lower.as_str())
}

/// A status that says that the service is busy or broken for now.
pub open spec fn is_transient_status(status: u16) -> bool {
    status == 429 || status == 500 || status == 502 || status == 503 || status == 504
}

/// Whether a text in lower case, with underscores for spaces and hyphens, speaks
/// of a passing failure.
pub open spec fn speaks_of_passing_failure(lower: Seq<char>) -> bool {
    ||| text::holds(lower, "rate_limit"@)
    ||| text::holds(lower, "ratelimit"@)
    ||| text::holds(lower, "overloaded"@)
    ||| text::holds(lower, "service_unavailable"@)
    ||| text::holds(lower, "upstream_connect"@)
    ||| text::holds(lower, "connection_refused"@)
}

/// A text with underscores for spaces and hyphens.
pub open spec fn underscored(s: Seq<char>) -> Seq<char> {
    text::replaced(text::replaced(s, ' ', '_'), '-', '_')
}

/// Whether a request that failed with a status and a text, given in lower case,
/// may be repeated.
pub open spec fn may_repeat(status: u16, lower: Seq<char>) -> bool {
    if status == 429 && speaks_of_terminal_limit(lower) {
        false
    } else {
        is_transient_status(status) || speaks_of_passing_failure(underscored(lower))
    }
}

/// Whether a request that failed with a status and a text, given in lower case,
/// may be repeated.
pub fn may_repeat_exec(status: u16, lower: &str) -> (r: bool)
    ensures
        r == may_repeat(status, lower@),
{
    if status == 429 && is_terminal_limit_text(lower) {
        return false;
    }
    if status == 429 || status == 500 || status == 502 || status == 503 || status == 504 {
        return true;
    }
    let spaced: String = replace_char(lower, ' ', '_');
    let plain: String = replace_char(spaced.as_str(), '-', '_');
    let p: &str = plain.as_str();
    contains(p, "rate_limit") || contains(p, "ratelimit") || contains(p, "overloaded") || contains(
        p,
        "service_unavailable",
    ) || contains(p, "upstream_connect") || contains(p, "connection_refused")
}

/// Whether a request that failed may be repeated.
pub fn is_retryable_error(status: u16, error_text: &str) -> (r: bool)
    ensures
        r == may_repeat(status, text::lowercase(error_text@)),
{
    let lower: String = error_text.to_lowercase();
    may_repeat_exec(status, lower.as_str())
}

/// The instant that `chrono::DateTime::parse_from_rfc2822` reads out of a text, in
/// milliseconds since the epoch.
pub uninterp spec fn rfc2822_millis(s: Seq<char>) -> Option<i64>;

/// `chrono::DateTime::parse_from_rfc2822`, as milliseconds since the epoch.
#[verifier::external_body]
fn parse_rfc2822(s: &str) -> (r: Option<i64>)
    ensures
        r == rfc2822_millis(s@),
{
    chrono::DateTime::parse_from_rfc2822(s).ok().map(|d| d.timestamp_millis())
}

/// How long it is from `now` to `date`; no time where that is past.
pub open spec fn until(date: i64, now: i64) -> u64 {
    if date > now {
        (date - now) as u64
    } else {
        0
    }
}

/// The delay that a response asks for. `millis` is its `retry-after-ms` header as
/// a finite number, `seconds_as_millis` its `retry-after` header as a number of
/// seconds; where that is no number it may be a date.
pub open spec fn asked_delay(
    millis: Option<u64>,
    seconds_as_millis: Option<u64>,
    date: Option<i64>,
    now: i64,
) -> Option<u64> {
    match millis {
        Some(ms) => Some(ms),
        None => match seconds_as_millis {
            Some(ms) => Some(ms),
            None => match date {
                Some(d) => Some(until(d, now)),
                None => None,
            },
        },
    }
}

/// The delay that a response asks for, given the date in its `retry-after`
/// header.
pub fn retry_after_delay(
    millis: Option<u64>,
    seconds_as_millis: Option<u64>,
    date: Option<i64>,
    now: i64,
) -> (r: Option<u64>)
    ensures
        r == asked_delay(millis, seconds_as_millis, date, now),
{
    match millis {
        Some(ms) => Some(ms),
        None => match seconds_as_millis {
            Some(ms) => Some(ms),
            None => match date {
                Some(d) => if d > now {
                    let gap: i128 = d as i128 - now as i128;
                    Some(gap as u64)
                } else {
                    Some(0)
                },
                None => None,
            },
        },
    }
}

/// The delay that a response asks for. `retry_after` is its header of that name,
/// white space cut off.
pub fn get_retry_after_delay_ms(
    millis: Option<u64>,
    seconds_as_millis: Option<u64>,
    retry_after: Option<&str>,
    now: i64,
) -> (r: Option<u64>)
    ensures
        r == asked_delay(
            millis,
            seconds_as_millis,
            match retry_after {
                Some(s) => rfc2822_millis(s@),
                None => None,
            },
            now,
        ),
{
    let date: Option<i64> = match retry_after {
        Some(s) => parse_rfc2822(s),
        None => None,
    };
    retry_after_delay(millis, seconds_as_millis, date, now)
}

/// A number of milliseconds in seconds, rounded up.
pub open spec fn in_seconds(ms: u64) -> nat {
    ((ms + 999) / 1000) as nat
}

/// What is said of a delay that is longer than is taken.
pub open spec fn delay_too_long(delay_ms: u64, max: u64) -> Seq<char> {
    "Server requested "@ + text::decimal_text(in_seconds(delay_ms)) + "s retry delay (max: "@
        + text::decimal_text(in_seconds(max)) + "s)"@
}

fn in_seconds_exec(ms: u64) -> (r: u64)
    ensures
        r == in_seconds(ms),
{
    if ms % 1000 == 0 {
        ms / 1000
    } else {
        ms / 1000 + 1
    }
}

/// Checks the delay that a server asks for against the longest that is taken;
/// zero takes any.
pub fn validate_retry_delay_ms(delay_ms: u64, max_retry_delay_ms: Option<u64>) -> (r: Result<
    u64,
    String,
>)
    ensures
        ({
            let max = views::or(max_retry_delay_ms, DEFAULT_MAX_RETRY_DELAY_MS);
            if max > 0 && delay_ms > max {
                r is Err && r->Err_0@ == delay_too_long(delay_ms, max)
            } else {
                r == Ok::<u64, String>(delay_ms)
            }
        }),
{
    let max: u64 = match max_retry_delay_ms {
        Some(m) => m,
        None => DEFAULT_MAX_RETRY_DELAY_MS,
    };
    if max > 0 && delay_ms > max {
        let mut e: String = "Server requested ".to_owned();
        e.append(decimal(in_seconds_exec(delay_ms)).as_str());
        e.append("s retry delay (max: ");
        e.append(decimal(in_seconds_exec(max)).as_str());
        e.append("s)");
        return Err(e);
    }
    Ok(delay_ms)
}

/// A number of milliseconds in minutes, to the nearest, halves up.
pub open spec fn in_minutes(ms: int) -> nat {
    ((ms + 30000) / 60000) as nat
}

/// The longest time that is told apart, in milliseconds.
pub open spec fn clamp_i64(n: int) -> int {
    if n > i64::MAX {
        i64::MAX as int
    } else if n < i64::MIN {
        i64::MIN as int
    } else {
        n
    }
}

/// The milliseconds from `now` to a time given in seconds; none where it is past.
pub open spec fn wait_until_seconds(ts: i64, now: i64) -> int {
    let gap = clamp_i64(clamp_i64(ts * 1000) - now);
    if gap > 0 {
        gap
    } else {
        0
    }
}

/// What is said of a usage limit: of which plan, and when it is lifted.
pub open spec fn limit_message(plan: Option<Seq<char>>, resets_at: Option<i64>, now: i64) -> Seq<char> {
    "You have hit your ChatGPT usage limit"@ + (match plan {
        Some(p) => " ("@ + text::lowercase(p) + " plan)"@,
        None => Seq::empty(),
    }) + "."@ + (match resets_at {
        Some(ts) => " Try again in ~"@ + text::decimal_text(in_minutes(wait_until_seconds(ts, now)))
            + " min."@,
        None => Seq::empty(),
    })
}

/// Whether an error is about a usage limit.
pub open spec fn is_limit_error(status: u16, code: Seq<char>) -> bool {
    text::holds(code, "usage_limit_reached"@) || text::holds(code, "usage_not_included"@)
        || text::holds(code, "rate_limit_exceeded"@) || status == 429
}

/// What is said of a response with an error status. `json` is what reading its
/// body came to.
pub open spec fn error_message(
    status: u16,
    raw: Seq<char>,
    json: Result<JsonView, Seq<char>>,
    now: i64,
) -> Seq<char> {
    let plain = if raw.len() == 0 {
        "Request failed"@
    } else {
        raw
    };
    match json {
        Ok(body) => match body.get("error"@) {
            Some(err) => {
                let code = views::or(
                    views::first_of(err.field_text("code"@), err.field_text("type"@)),
                    Seq::empty(),
                );
                let message = err.field_text("message"@);
                if message is Some && message->0.len() > 0 {
                    message->0
                } else if is_limit_error(status, code) {
                    limit_message(
                        err.field_text("plan_type"@),
                        match err.get("resets_at"@) {
                            Some(v) => v.signed(),
                            None => None,
                        },
                        now,
                    )
                } else {
                    plain
                }
            },
            None => plain,
        },
        Err(_) => plain,
    }
}

fn clamp_i64_exec(n: i128) -> (r: i128)
    ensures
        r == clamp_i64(n as int),
{
    if n > i64::MAX as i128 {
        i64::MAX as i128
    } else if n < i64::MIN as i128 {
        i64::MIN as i128
    } else {
        n
    }
}

fn minutes_until(ts: i64, now: i64) -> (r: u64)
    ensures
        r == in_minutes(wait_until_seconds(ts, now)),
{
    let at: i128 = clamp_i64_exec(ts as i128 * 1000);
    let gap: i128 = clamp_i64_exec(at - now as i128);
    let wait: i128 = if gap > 0 {
        gap
    } else {
        0
    };
    ((wait + 30000) / 60000) as u64
}

fn limit_message_exec(plan: Option<&str>, resets_at: Option<i64>, now: i64) -> (r: String)
    ensures
        r@ == limit_message(views::opt(plan), resets_at, now),
{
    let mut out: String = "You have hit your ChatGPT usage limit".to_owned();
    let mut middle: String = String::new();
    if let Some(p) = plan {
        middle.append(" (");
        middle.append(p.to_lowercase().as_str());
        middle.append(" plan)");
        assert(middle@ =~= " ("@ + text::lowercase(p@) + " plan)"@);
    }
    let mut tail: String = String::new();
    if let Some(ts) = resets_at {
        tail.append(" Try again in ~");
        tail.append(decimal(minutes_until(ts, now)).as_str());
        tail.append(" min.");
        assert(tail@ =~= " Try again in ~"@ + text::decimal_text(
            in_minutes(wait_until_seconds(ts, now)),
        ) + " min."@);
    }
    out.append(middle.as_str());
    out.append(".");
    out.append(tail.as_str());
    out
}

/// What is said of a response with an error status, given what reading its body
/// came to.
pub fn error_message_from_json(
    status: u16,
    raw: &str,
    parsed: &Result<Json, String>,
    now: i64,
) -> (r: String)
    ensures
        r@ == error_message(
            status,
            raw@,
            match parsed {
                Ok(v) => Ok(v@),
                Err(e) => Err(e@),
            },
            now,
        ),
{
    if let Ok(body) = parsed {
        if let Some(err) = body.get("error") {
            if let Some(m) = err.field_str("message") {
                if !m.is_empty() {
                    return m.to_owned();
                }
            }
            let code: &str = match err.field_str("code") {
                Some(c) => c,
                None => match err.field_str("type") {
                    Some(c) => c,
                    None => "",
                },
            };
            proof {
                reveal_strlit("");
                assert(""@ =~= Seq::<char>::empty());
            }
            if contains(code, "usage_limit_reached") || contains(code, "usage_not_included")
                || contains(code, "rate_limit_exceeded") || status == 429 {
                let resets_at: Option<i64> = match err.get("resets_at") {
                    Some(v) => v.as_i64(),
                    None => None,
                };
                return limit_message_exec(err.field_str("plan_type"), resets_at, now);
            }
        }
    }
    if raw.is_empty() {
        "Request failed".to_owned()
    } else {
        raw.to_owned()
    }
}

/// What is said of a response with an error status.
pub fn parse_error_response_body(status: u16, raw: &str, now: i64) -> (r: String)
    ensures
        r@ == error_message(status, raw@, json_text::json_of_text(raw@), now),
{
    let parsed: Result<Json, String> = parse_json(raw);
    error_message_from_json(status, raw, &parsed, now)
}

/// The number two to the power `n`.
pub open spec fn two_to(n: nat) -> nat
    decreases n,
{
    if n == 0 {
        1
    } else {
        2 * two_to((n - 1) as nat)
    }
}

/// The delay before a repetition: it doubles every time.
pub open spec fn backoff_ms(attempt: nat) -> nat {
    BASE_DELAY_MS as nat * two_to(attempt)
}

proof fn lemma_two_to_bound(n: nat, k: nat)
    requires
        n <= k,
    ensures
        two_to(n) <= two_to(k),
    decreases k,
{
    if n < k {
        lemma_two_to_bound(n, (k - 1) as nat);
    }
}

fn backoff_ms_exec(attempt: u32) -> (r: u64)
    requires
        attempt <= 54,
    ensures
        r == backoff_ms(attempt as nat),
{
    let mut ms: u64 = BASE_DELAY_MS;
    let mut k: u32 = 0;
    proof {
        reveal_with_fuel(two_to, 56);
        assert(BASE_DELAY_MS * two_to(54) <= u64::MAX);
    }
    while k < attempt
        invariant
            k <= attempt <= 54,
            ms == backoff_ms(k as nat),
            BASE_DELAY_MS * two_to(54) <= u64::MAX,
        decreases attempt - k,
    {
        proof {
            lemma_two_to_bound((k + 1) as nat, 54);
        }
        ms = ms * 2;
        k = k + 1;
    }
    ms
}

/// What to do after a request failed.
pub enum AfterSseFailure {
    /// Wait, then send the request again.
    RetryAfterMs(u64),
    /// Give up with a message.
    GiveUp(String),
}

pub enum AfterSseFailureView {
    RetryAfterMs(nat),
    GiveUp(Seq<char>),
}

impl View for AfterSseFailure {
    type V = AfterSseFailureView;

    open spec fn view(&self) -> AfterSseFailureView {
        match *self {
            AfterSseFailure::RetryAfterMs(ms) => AfterSseFailureView::RetryAfterMs(ms as nat),
            AfterSseFailure::GiveUp(e) => AfterSseFailureView::GiveUp(e@),
        }
    }
}

/// What to do after a response with an error status, when `attempt` repetitions
/// were made: a failure that may pass is repeated as often as allowed, after the
/// delay that the server asks for, or else one that doubles every time.
pub open spec fn after_status(
    attempt: u32,
    max_retries: Option<u32>,
    status: u16,
    error_text: Seq<char>,
    asked: Option<u64>,
    max_retry_delay_ms: Option<u64>,
    now: i64,
) -> AfterSseFailureView {
    if attempt < views::or(max_retries, DEFAULT_MAX_RETRIES) && may_repeat(
        status,
        text::lowercase(error_text),
    ) {
        match asked {
            Some(d) => {
                let max = views::or(max_retry_delay_ms, DEFAULT_MAX_RETRY_DELAY_MS);
                if max > 0 && d > max {
                    AfterSseFailureView::GiveUp(delay_too_long(d, max))
                } else {
                    AfterSseFailureView::RetryAfterMs(d as nat)
                }
            },
            None => AfterSseFailureView::RetryAfterMs(backoff_ms(attempt as nat)),
        }
    } else {
        AfterSseFailureView::GiveUp(
            error_message(status, error_text, json_text::json_of_text(error_text), now),
        )
    }
}

/// How many repetitions were made at most when a doubling delay still fits a 64-bit number
/// of milliseconds.
pub const LAST_DOUBLING: u32 = 54;

/// Decides after a response with an error status.
pub fn after_error_status(
    attempt: u32,
    max_retries: Option<u32>,
    status: u16,
    error_text: &str,
    asked: Option<u64>,
    max_retry_delay_ms: Option<u64>,
    now: i64,
) -> (r: AfterSseFailure)
    requires
        attempt < views::or(max_retries, DEFAULT_MAX_RETRIES) && may_repeat(
            status,
            text::lowercase(error_text@),
        ) && asked is None ==> attempt <= LAST_DOUBLING,
    ensures
        r@ == after_status(
            attempt,
            max_retries,
            status,
            error_text@,
            asked,
            max_retry_delay_ms,
            now,
        ),
{
    let allowed: u32 = match max_retries {
        Some(n) => n,
        None => DEFAULT_MAX_RETRIES,
    };
    if attempt < allowed && is_retryable_error(status, error_text) {
        match asked {
            Some(d) => match validate_retry_delay_ms(d, max_retry_delay_ms) {
                Ok(ms) => AfterSseFailure::RetryAfterMs(ms),
                Err(e) => AfterSseFailure::GiveUp(e),
            },
            None => AfterSseFailure::RetryAfterMs(backoff_ms_exec(attempt)),
        }
    } else {
        AfterSseFailure::GiveUp(parse_error_response_body(status, error_text, now))
    }
}

/// Decides after a response with an error status, where the delay can be told: none where
/// it would double more often than a number of milliseconds can hold.
pub fn plan_after_error_status(
    attempt: u32,
    max_retries: Option<u32>,
    status: u16,
    error_text: &str,
    asked: Option<u64>,
    max_retry_delay_ms: Option<u64>,
    now: i64,
) -> (r: Option<AfterSseFailure>)
    ensures
        views::opt(r) == (if attempt > LAST_DOUBLING && attempt < views::or(
            max_retries,
            DEFAULT_MAX_RETRIES,
        ) && may_repeat(status, text::lowercase(error_text@)) && asked is None {
            None
        } else {
            Some(
                after_status(
                    attempt,
                    max_retries,
                    status,
                    error_text@,
                    asked,
                    max_retry_delay_ms,
                    now,
                ),
            )
        }),
{
    let allowed: u32 = match max_retries {
        Some(n) => n,
        None => DEFAULT_MAX_RETRIES,
    };
    if attempt > LAST_DOUBLING && attempt < allowed && asked.is_none() && is_retryable_error(
        status,
        error_text,
    ) {
        return None;
    }
    Some(
        after_error_status(
            attempt,
            max_retries,
            status,
            error_text,
            asked,
            max_retry_delay_ms,
            now,
        ),
    )
}

/// What to do after a request that got no response, when `attempt` repetitions
/// were made.
pub open spec fn after_no_response(
    attempt: u32,
    max_retries: Option<u32>,
    error_text: Seq<char>,
) -> AfterSseFailureView {
    if attempt < views::or(max_retries, DEFAULT_MAX_RETRIES) && !text::holds(
        error_text,
        "usage limit"@,
    ) {
        AfterSseFailureView::RetryAfterMs(backoff_ms(attempt as nat))
    } else {
        AfterSseFailureView::GiveUp(error_text)
    }
}

/// Decides after a request that got no response.
pub fn after_network_error(attempt: u32, max_retries: Option<u32>, error_text: &str) -> (r:
    AfterSseFailure)
    requires
        attempt < views::or(max_retries, DEFAULT_MAX_RETRIES) && !text::holds(
            error_text@,
            "usage limit"@,
        ) ==> attempt <= LAST_DOUBLING,
    ensures
        r@ == after_no_response(attempt, max_retries, error_text@),
{
    let allowed: u32 = match max_retries {
        Some(n) => n,
        None => DEFAULT_MAX_RETRIES,
    };
    if attempt < allowed && !contains(error_text, "usage limit") {
        AfterSseFailure::RetryAfterMs(backoff_ms_exec(attempt))
    } else {
        AfterSseFailure::GiveUp(error_text.to_owned())
    }
}

/// No request is repeated more often than is allowed, whatever came back.
pub proof fn law_retries_are_bounded(
    attempt: u32,
    max_retries: Option<u32>,
    status: u16,
    error_text: Seq<char>,
    asked: Option<u64>,
    max_retry_delay_ms: Option<u64>,
    now: i64,
)
    requires
        attempt >= views::or(max_retries, DEFAULT_MAX_RETRIES),
    ensures
        after_status(attempt, max_retries, status, error_text, asked, max_retry_delay_ms, now)
            is GiveUp,
        after_no_response(attempt, max_retries, error_text) is GiveUp,
{
}

/// Unless the caller takes any delay, a request is never repeated after a longer
/// one than is taken because a server asks for it.
pub proof fn law_asked_delay_is_capped(
    attempt: u32,
    max_retries: Option<u32>,
    status: u16,
    error_text: Seq<char>,
    asked: u64,
    max_retry_delay_ms: Option<u64>,
    now: i64,
)
    requires
        max_retry_delay_ms != Some(0u64),
    ensures
        after_status(
            attempt,
            max_retries,
            status,
            error_text,
            Some(asked),
            max_retry_delay_ms,
            now,
        ) matches AfterSseFailureView::RetryAfterMs(ms) ==> ms <= views::or(
            max_retry_delay_ms,
            DEFAULT_MAX_RETRY_DELAY_MS,
        ),
{
}

/// The bytes that a zstd frame decodes to.
pub uninterp spec fn zstd_contents(frame: Seq<u8>) -> Seq<u8>;

/// `zstd::bulk::compress` at level three: where it succeeds it makes a frame that
/// decodes to the bytes it was given.
#[verifier::external_body]
fn compress(bytes: &[u8]) -> (r: Option<Vec<u8>>)
    ensures
        r matches Some(frame) ==> zstd_contents(frame@) == bytes@,
{
    zstd::bulk::compress(bytes, 3).ok()
}

/// The body of a request on the wire: compressed where that works.
pub struct WireBody {
    pub bytes: Vec<u8>,
    pub compressed: bool,
}

/// Whether this is the body that a text comes to, given what the compressor made of it.
pub open spec fn carries(r: WireBody, text: Seq<char>, frame: Option<Vec<u8>>) -> bool {
    match frame {
        Some(f) => r.compressed && r.bytes@ == f@,
        None => !r.compressed && r.bytes@ == vstd::utf8::encode_utf8(text),
    }
}

/// The body that a text comes to, given what the compressor made of it.
pub fn wire_body_with(text: &str, frame: Option<Vec<u8>>) -> (r: WireBody)
    ensures
        carries(r, text@, frame),
{
    match frame {
        Some(bytes) => WireBody { bytes, compressed: true },
        None => WireBody { bytes: text.as_bytes_vec(), compressed: false },
    }
}

/// Whether the compressor made this of the bytes.
pub closed spec fn compressed_to(bytes: Seq<u8>, frame: Option<Vec<u8>>) -> bool {
    exists|b: &[u8]| b@ == bytes && #[trigger] call_ensures(compress, (b,), frame)
}

/// Prepares a request body for the wire: its JSON text, as a zstd frame where the
/// compressor makes one.
pub fn wire_body(body: &Json) -> (r: WireBody)
    ensures
        (if r.compressed {
            zstd_contents(r.bytes@)
        } else {
            r.bytes@
        }) == vstd::utf8::encode_utf8(json_text::text_of_json(body@)),
        exists|frame: Option<Vec<u8>>|
            {
                &&& #[trigger] compressed_to(
                    vstd::utf8::encode_utf8(json_text::text_of_json(body@)),
                    frame,
                )
                &&& carries(r, json_text::text_of_json(body@), frame)
            },
{
    let text: String = crate::json_text::print_json(body);
    let bytes: &[u8] = text.as_str().as_bytes();
    let frame: Option<Vec<u8>> = compress(bytes);
    assert(call_ensures(compress, (bytes,), frame));
    assert(compressed_to(vstd::utf8::encode_utf8(text@), frame));
    wire_body_with(text.as_str(), frame)
}

/// A busy or broken service is asked again, but for a limit that waiting does not lift; a
/// request that is wrong in itself is not, unless its failure says that it will pass.
pub proof fn law_passing_failures_are_repeated(status: u16, lower: Seq<char>)
    ensures
        status == 500 || status == 502 || status == 503 || status == 504 ==> may_repeat(
            status,
            lower,
        ),
        status == 429 && !(text::holds(lower, "gousagelimiterror"@) || text::holds(
            lower,
            "freeusagelimiterror"@,
        ) || text::holds(lower, "monthly usage limit reached"@) || text::holds(
            lower,
            "available balance"@,
        ) || text::holds(lower, "insufficient_quota"@) || text::holds(lower, "out of budget"@)
            || text::holds(lower, "quota exceeded"@) || text::holds(lower, "billing"@))
            ==> may_repeat(status, lower),
        status == 429 && (text::holds(lower, "gousagelimiterror"@) || text::holds(
            lower,
            "freeusagelimiterror"@,
        ) || text::holds(lower, "monthly usage limit reached"@) || text::holds(
            lower,
            "available balance"@,
        ) || text::holds(lower, "insufficient_quota"@) || text::holds(lower, "out of budget"@)
            || text::holds(lower, "quota exceeded"@) || text::holds(lower, "billing"@))
            ==> !may_repeat(status, lower),
        !(status == 429 || status == 500 || status == 502 || status == 503 || status == 504) ==> ({
            let plain = Seq::new(
                lower.len(),
                |i: int|
                    if lower[i] == ' ' || lower[i] == '-' {
                        '_'
                    } else {
                        lower[i]
                    },
            );
            may_repeat(status, lower) == (text::holds(plain, "rate_limit"@) || text::holds(
                plain,
                "ratelimit"@,
            ) || text::holds(plain, "overloaded"@) || text::holds(plain, "service_unavailable"@)
                || text::holds(plain, "upstream_connect"@) || text::holds(
                plain,
                "connection_refused"@,
            ))
        }),
{
    let plain = Seq::new(
        lower.len(),
        |i: int|
            if lower[i] == ' ' || lower[i] == '-' {
                '_'
            } else {
                lower[i]
            },
    );
    assert(underscored(lower) =~= plain);
}

/// A failure that may pass is repeated while repetitions are left: after the delay that the
/// server asks for, where that is taken, and otherwise after one second, then two, then four,
/// doubling every time.
pub proof fn law_delays_double(
    attempt: u32,
    max_retries: u32,
    status: u16,
    error_text: Seq<char>,
    asked: u64,
    max: Option<u64>,
    now: i64,
)
    requires
        attempt < max_retries,
        may_repeat(status, text::lowercase(error_text)),
    ensures
        ({
            let after = |n: u32, d: Option<u64>|
                after_status(n, Some(max_retries), status, error_text, d, max, now);
            &&& after(0, None) == AfterSseFailureView::RetryAfterMs(1000)
            &&& after(attempt, None) is RetryAfterMs
            &&& attempt + 1 < max_retries ==> {
                &&& after((attempt + 1) as u32, None) is RetryAfterMs
                &&& after((attempt + 1) as u32, None)->RetryAfterMs_0 == 2 * after(
                    attempt,
                    None,
                )->RetryAfterMs_0
            }
            &&& max == Some(0u64) || (max is Some && asked <= max->0) || (max is None && asked
                <= 60_000) ==> after(attempt, Some(asked)) == AfterSseFailureView::RetryAfterMs(
                asked as nat,
            )
            &&& (max is Some && max->0 > 0 && asked > max->0) || (max is None && asked > 60_000)
                ==> after(attempt, Some(asked)) is GiveUp
        }),
        !text::holds(error_text, "usage limit"@) ==> {
            let after = |n: u32| after_no_response(n, Some(max_retries), error_text);
            &&& after(0) == AfterSseFailureView::RetryAfterMs(1000)
            &&& attempt + 1 < max_retries ==> {
                &&& after(attempt) is RetryAfterMs
                &&& after((attempt + 1) as u32) is RetryAfterMs
                &&& after((attempt + 1) as u32)->RetryAfterMs_0 == 2 * after(
                    attempt,
                )->RetryAfterMs_0
            }
        },
{
    assert(two_to(0) == 1);
    assert(two_to((attempt + 1) as nat) == 2 * two_to(attempt as nat));
    assert(1000 * (2 * two_to(attempt as nat)) == 2 * (1000 * two_to(attempt as nat)))
        by (nonlinear_arith);
}

/// Who does not say how often repeats nothing, and a request that is given up says what the
/// service said: its own words where its answer has them, and otherwise the answer.
pub proof fn law_given_up_request_says_why(
    attempt: u32,
    status: u16,
    error_text: Seq<char>,
    body: JsonView,
    said: Seq<char>,
    asked: Option<u64>,
    max: Option<u64>,
    now: i64,
)
    ensures
        after_status(attempt, None, status, error_text, asked, max, now) is GiveUp,
        after_no_response(attempt, None, error_text) == AfterSseFailureView::GiveUp(error_text),
        json_text::json_of_text(error_text) == Ok::<JsonView, Seq<char>>(body) && body.text2(
            "error"@,
            "message"@,
        ) == Some(said) && said.len() > 0 ==> after_status(
            attempt,
            None,
            status,
            error_text,
            asked,
            max,
            now,
        ) == AfterSseFailureView::GiveUp(said),
        json_text::json_of_text(error_text) is Err && error_text.len() > 0 ==> after_status(
            attempt,
            None,
            status,
            error_text,
            asked,
            max,
            now,
        ) == AfterSseFailureView::GiveUp(error_text),
{
}

/// A usage limit that the service does not put into words is told with the plan and with the
/// minutes until it is lifted, to the nearest.
pub proof fn law_usage_limit_is_told(
    status: u16,
    raw: Seq<char>,
    body: JsonView,
    err: JsonView,
    plan: Seq<char>,
    resets_at: i64,
    now: i64,
)
    requires
        body.get("error"@) == Some(err),
        err.field_text("message"@) is None,
        err.field_text("plan_type"@) == Some(plan),
        err.get("resets_at"@) is Some,
        err.get("resets_at"@)->0.signed() == Some(resets_at),
        0 <= now,
        now <= resets_at * 1000 <= i64::MAX,
        status == 429 || err.field_text("code"@) == Some("usage_limit_reached"@),
    ensures
        ({
            let wait = resets_at * 1000 - now;
            exists|minutes: nat|
                {
                    &&& error_message(status, raw, Ok(body), now)
                        == "You have hit your ChatGPT usage limit"@ + (" ("@ + text::lowercase(plan)
                        + " plan)"@) + "."@ + (" Try again in ~"@ + #[trigger] text::decimal_text(
                        minutes,
                    ) + " min."@)
                    &&& 60_000 * minutes - 30_000 <= wait
                    &&& wait < 60_000 * minutes + 30_000
                }
        }),
{
    let code = "usage_limit_reached"@;
    assert(code.subrange(0, code.len() as int) =~= code);
    assert(code.skip(0) =~= code);
    assert(text::stands_at(code, code, 0));
    assert(text::holds(code, code));
    let wait = resets_at * 1000 - now;
    let minutes = in_minutes(wait);
    assert(wait_until_seconds(resets_at, now) == wait);
    let said = error_message(status, raw, Ok(body), now);
    assert(said == limit_message(Some(plan), Some(resets_at), now));
    assert(said == "You have hit your ChatGPT usage limit"@ + (" ("@ + text::lowercase(plan)
        + " plan)"@) + "."@ + (" Try again in ~"@ + text::decimal_text(minutes) + " min."@));
}

/// The delay that a server asks for in milliseconds counts more than that in seconds, and that
/// more than a date; a date that is past asks for none.
pub proof fn law_asked_delay_is_taken(
    millis: Option<u64>,
    seconds: Option<u64>,
    date: i64,
    now: i64,
)
    ensures
        millis is Some ==> asked_delay(millis, seconds, Some(date), now) == millis,
        millis is None && seconds is Some ==> asked_delay(millis, seconds, Some(date), now)
            == seconds,
        now <= date ==> asked_delay(None, None, Some(date), now) == Some((date - now) as u64),
        date <= now ==> asked_delay(None, None, Some(date), now) == Some(0u64),
        asked_delay(None, None, None, now) is None,
{
}

/// A delay that is too long is told in seconds, a part of one counting as a whole, beside the
/// longest that is taken.
pub proof fn law_too_long_delay_is_told(delay_ms: u64, max: u64, seconds: nat, most: nat)
    requires
        1000 * seconds >= delay_ms,
        1000 * seconds < delay_ms + 1000,
        1000 * most >= max,
        1000 * most < max + 1000,
    ensures
        delay_too_long(delay_ms, max) == "Server requested "@ + text::decimal_text(seconds)
            + "s retry delay (max: "@ + text::decimal_text(most) + "s)"@,
{
    assert(in_seconds(delay_ms) == seconds);
    assert(in_seconds(max) == most);
}

} // verus!

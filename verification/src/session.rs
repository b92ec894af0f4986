//! The streaming-session protocol. Each WebSocket connection runs a sender
//! loop, a liveness watchdog and a receive path concurrently; the decisions
//! all three make live here, as functions from state and event to next state
//! and action. The surrounding binary performs the sends, sleeps and reads,
//! and hands the outcomes back.
//!
//! All intervals are in milliseconds, both the query parameter and the
//! client's text messages.

use vstd::prelude::*;

use vstd::string::{StrSliceExecFns, StringExecFns};

use crate::text::{all_digit_chars, decimal_value, digit_value, is_digit_char};

verus! {

/// How long the sender waits between liveness pings while a long cadence
/// runs out, in milliseconds.
pub const PING_INTERVAL_MS: u64 = 25000;

/// The extra grace the watchdog allows past the ping interval before it
/// declares the client unresponsive, in milliseconds.
pub const PING_PONG_GRACE_MS: u64 = 10000;

/// Silence longer than this ends the session, in milliseconds.
pub const PONG_TIMEOUT_MS: u64 = PING_INTERVAL_MS + PING_PONG_GRACE_MS;

/// How many times a failed send is retried before the session is declared
/// dead.
pub const SEND_RETRY_LIMIT: u32 = 3;

/// The fixed backoff between send retries, in milliseconds.
pub const SEND_RETRY_DELAY_MS: u64 = 500;

/// Server-wide configuration handed to every connection.
#[derive(Debug, Clone)]
pub struct AppState {
    /// The push cadence for sessions whose upgrade request names none, in
    /// milliseconds.
    pub default_card_fetch_interval: u64,
}

/// Relies on `std::time::SystemTime`: milliseconds since the Unix epoch, or
/// zero when the clock reads earlier than the epoch. The value depends on
/// the wall clock, so nothing is promised of it.
#[verifier::external_body]
fn clock_millis() -> u64 {
    match std::time::SystemTime::now().duration_since(std::time::SystemTime::UNIX_EPOCH) {
        Ok(d) => d.as_millis() as u64,
        Err(_) => 0,
    }
}

/// The current time in milliseconds since the Unix epoch, as the session
/// timestamps use it.
pub fn now() -> u64 {
    clock_millis()
}

/// Why a session ended.
#[derive(Debug, Clone, Copy, PartialEq, Eq, Structural)]
pub enum TermReason {
    ClientClosed,
    ServerTimeout,
    SendFailed,
    Aborted,
}

#[derive(Debug, Clone, Copy, PartialEq, Eq, Structural)]
pub enum SessionPhase {
    Active,
    Terminated(TermReason),
}

/// One connection's shared state: the client-adjustable push cadence, the
/// time of the last successful send or received frame, the consecutive send
/// failures of the frame being delivered, and whether the session still
/// runs.
#[derive(Debug, Clone, Copy, PartialEq, Eq, Structural)]
pub struct SessionState {
    pub interval_ms: u64,
    pub last_activity: u64,
    pub failed_attempts: u32,
    pub phase: SessionPhase,
}

/// A session starts active, with the cadence from the upgrade request's
/// query parameter or, absent one, the configured default.
pub fn new_session(requested_interval: Option<u64>, default_interval: u64, now_ms: u64) -> (st:
    SessionState)
    ensures
        st == (SessionState {
            interval_ms: match requested_interval {
                Option::Some(v) => v,
                Option::None => default_interval,
            },
            last_activity: now_ms,
            failed_attempts: 0,
            phase: SessionPhase::Active,
        }),
{
    let interval_ms = match requested_interval {
        Option::Some(v) => v,
        Option::None => default_interval,
    };
    SessionState { interval_ms, last_activity: now_ms, failed_attempts: 0, phase: SessionPhase::Active }
}

// ---------------------------------------------------------------------
// Client text messages
// ---------------------------------------------------------------------

/// What a client text frame asks for.
#[derive(Debug, Clone, Copy, PartialEq, Eq, Structural)]
pub enum ClientCommand {
    Close,
    SetInterval(u64),
    Ignore,
}

/// The word `close`, compared without regard to ASCII case.
pub open spec fn is_close_text(s: Seq<char>) -> bool {
    &&& s.len() == 5
    &&& (s[0] == 'c' || s[0] == 'C')
    &&& (s[1] == 'l' || s[1] == 'L')
    &&& (s[2] == 'o' || s[2] == 'O')
    &&& (s[3] == 's' || s[3] == 'S')
    &&& (s[4] == 'e' || s[4] == 'E')
}

/// The digits of a decimal numeral, past an optional leading plus sign.
pub open spec fn digits_part(s: Seq<char>) -> Seq<char> {
    if s.len() > 0 && s[0] == '+' {
        s.drop_first()
    } else {
        s
    }
}

/// Whether the text is a non-negative decimal numeral whose value fits in a
/// machine word.
pub open spec fn is_u64_text(s: Seq<char>) -> bool {
    &&& digits_part(s).len() > 0
    &&& all_digit_chars(digits_part(s))
    &&& decimal_value(digits_part(s)) <= u64::MAX
}

pub open spec fn u64_text_value(s: Seq<char>) -> int {
    decimal_value(digits_part(s))
}

pub open spec fn classify_spec(s: Seq<char>) -> ClientCommand {
    if is_close_text(s) {
        ClientCommand::Close
    } else if is_u64_text(s) {
        ClientCommand::SetInterval(u64_text_value(s) as u64)
    } else {
        ClientCommand::Ignore
    }
}

proof fn lemma_all_digits_take(s: Seq<char>, i: int)
    requires
        all_digit_chars(s),
        0 <= i <= s.len(),
    ensures
        all_digit_chars(s.take(i)),
{
    assert forall|j: int| 0 <= j < s.take(i).len() implies is_digit_char(#[trigger] s.take(i)[j]) by {
        assert(s.take(i)[j] == s[j]);
    }
}

proof fn lemma_decimal_nonneg(s: Seq<char>)
    requires
        all_digit_chars(s),
    ensures
        decimal_value(s) >= 0,
    decreases s.len(),
{
    if s.len() > 0 {
        assert(all_digit_chars(s.drop_last())) by {
            assert forall|j: int| 0 <= j < s.drop_last().len() implies is_digit_char(
                #[trigger] s.drop_last()[j],
            ) by {
                assert(s.drop_last()[j] == s[j]);
            }
        }
        lemma_decimal_nonneg(s.drop_last());
        assert(is_digit_char(s.last()));
    }
}

/// Reading more digits never makes the value smaller.
proof fn lemma_decimal_prefix_le(s: Seq<char>, i: int)
    requires
        all_digit_chars(s),
        0 <= i <= s.len(),
    ensures
        decimal_value(s.take(i)) <= decimal_value(s),
    decreases s.len() - i,
{
    if i < s.len() {
        assert(s.take(i + 1).drop_last() =~= s.take(i));
        assert(s.take(i + 1).last() == s[i]);
        lemma_all_digits_take(s, i);
        lemma_decimal_nonneg(s.take(i));
        assert(is_digit_char(s[i]));
        assert(decimal_value(s.take(i + 1)) == decimal_value(s.take(i)) * 10 + digit_value(s[i]));
        assert(decimal_value(s.take(i)) <= decimal_value(s.take(i + 1)));
        lemma_decimal_prefix_le(s, i + 1);
    } else {
        assert(s.take(i) =~= s);
    }
}

/// Parses a non-negative decimal numeral (optionally signed with `+`), as
/// the interval messages use; fails on anything else and on overflow.
pub fn parse_u64_text(s: &str) -> (r: Option<u64>)
    ensures
        r is Some <==> is_u64_text(s@),
        r matches Some(v) ==> v == u64_text_value(s@),
{
    let n = s.unicode_len();
    let mut i: usize = 0;
    if n > 0 && s.get_char(0) == '+' {
        i = 1;
    }
    let ghost start: int = i as int;
    let ghost d: Seq<char> = s@.skip(start);
    proof {
        assert(d =~= digits_part(s@));
    }
    if i >= n {
        proof {
            assert(d.len() == 0);
        }
        return None;
    }
    let mut acc: u64 = 0;
    while i < n
        invariant
            start <= i <= n,
            0 <= start <= 1,
            n == s@.len(),
            d == s@.skip(start),
            d == digits_part(s@),
            all_digit_chars(d.take(i - start)),
            acc == decimal_value(d.take(i - start)),
        decreases n - i,
    {
        let c = s.get_char(i);
        let code = c as u32;
        proof {
            assert(d[i - start] == s@[i as int]);
        }
        if code < 48 || code > 57 {
            proof {
                assert(!is_digit_char(d[i - start]));
            }
            return None;
        }
        let dv = (code - 48) as u64;
        proof {
            assert(is_digit_char(d[i - start]));
            assert(dv == digit_value(d[i - start]));
            assert(d.take(i - start + 1).drop_last() =~= d.take(i - start));
            assert(d.take(i - start + 1).last() == d[i - start]);
            assert forall|j: int| 0 <= j < i - start + 1 implies is_digit_char(
                #[trigger] d.take(i - start + 1)[j],
            ) by {
                assert(d.take(i - start + 1)[j] == d[j]);
                if j < i - start {
                    assert(d.take(i - start)[j] == d[j]);
                    assert(is_digit_char(d.take(i - start)[j]));
                }
            }
            assert(all_digit_chars(d.take(i - start + 1)));
            assert(decimal_value(d.take(i - start + 1)) == acc * 10 + dv);
        }
        if acc > u64::MAX / 10 || (acc == u64::MAX / 10 && dv > u64::MAX % 10) {
            proof {
                if all_digit_chars(d) {
                    lemma_decimal_prefix_le(d, i - start + 1);
                    assert(decimal_value(d) > u64::MAX);
                }
            }
            return None;
        }
        acc = acc * 10 + dv;
        i = i + 1;
    }
    proof {
        assert(d.take(n - start) =~= d);
        assert(d.len() > 0);
    }
    Some(acc)
}

/// Classifies a client text frame: `close` in any ASCII case ends the
/// session, a decimal numeral adjusts the cadence, anything else is
/// ignored.
pub fn classify_text_message(s: &str) -> (r: ClientCommand)
    ensures
        r == classify_spec(s@),
{
    let n = s.unicode_len();
    if n == 5 {
        let c0 = s.get_char(0);
        let c1 = s.get_char(1);
        let c2 = s.get_char(2);
        let c3 = s.get_char(3);
        let c4 = s.get_char(4);
        if (c0 == 'c' || c0 == 'C') && (c1 == 'l' || c1 == 'L') && (c2 == 'o' || c2 == 'O') && (c3
            == 's' || c3 == 'S') && (c4 == 'e' || c4 == 'E') {
            return ClientCommand::Close;
        }
    }
    match parse_u64_text(s) {
        Some(v) => ClientCommand::SetInterval(v),
        None => ClientCommand::Ignore,
    }
}

// ---------------------------------------------------------------------
// Session steps
// ---------------------------------------------------------------------

/// What the sender loop does after a send attempt.
#[derive(Debug, Clone, Copy, PartialEq, Eq, Structural)]
pub enum SendAction {
    /// The frame went out; carry on with the cadence.
    Proceed,
    /// The send failed; try the same frame again after the fixed backoff.
    RetryAfter(u64),
    /// The retry budget is spent; end the session.
    Stop(TermReason),
}

/// One send attempt: success records activity and resets the retry budget;
/// a failure within the budget schedules a retry after the fixed delay; a
/// failure beyond it ends the session.
pub open spec fn send_step(st: SessionState, ok: bool, now_ms: u64) -> (SessionState, SendAction) {
    if ok {
        (
            SessionState { last_activity: now_ms, failed_attempts: 0, ..st },
            SendAction::Proceed,
        )
    } else if st.failed_attempts < SEND_RETRY_LIMIT {
        (
            SessionState { failed_attempts: (st.failed_attempts + 1) as u32, ..st },
            SendAction::RetryAfter(SEND_RETRY_DELAY_MS),
        )
    } else {
        (
            SessionState { phase: SessionPhase::Terminated(TermReason::SendFailed), ..st },
            SendAction::Stop(TermReason::SendFailed),
        )
    }
}

pub fn on_send_result(st: &mut SessionState, ok: bool, now_ms: u64) -> (a: SendAction)
    requires
        old(st).phase is Active,
    ensures
        *final(st) == send_step(*old(st), ok, now_ms).0,
        a == send_step(*old(st), ok, now_ms).1,
{
    if ok {
        st.last_activity = now_ms;
        st.failed_attempts = 0;
        SendAction::Proceed
    } else if st.failed_attempts < SEND_RETRY_LIMIT {
        st.failed_attempts = st.failed_attempts + 1;
        SendAction::RetryAfter(SEND_RETRY_DELAY_MS)
    } else {
        st.phase = SessionPhase::Terminated(TermReason::SendFailed);
        SendAction::Stop(TermReason::SendFailed)
    }
}

/// A received client frame: any frame counts as activity; `close` ends the
/// session; a numeral moves the cadence, which the next tick reads; other
/// text is ignored.
pub open spec fn client_step(st: SessionState, cmd: ClientCommand, now_ms: u64) -> SessionState {
    match cmd {
        ClientCommand::Close => SessionState {
            last_activity: now_ms,
            phase: SessionPhase::Terminated(TermReason::ClientClosed),
            ..st
        },
        ClientCommand::SetInterval(v) => SessionState {
            last_activity: now_ms,
            interval_ms: v,
            ..st
        },
        ClientCommand::Ignore => SessionState { last_activity: now_ms, ..st },
    }
}

pub fn on_client_text(st: &mut SessionState, msg: &str, now_ms: u64)
    requires
        old(st).phase is Active,
    ensures
        *final(st) == client_step(*old(st), classify_spec(msg@), now_ms),
{
    st.last_activity = now_ms;
    match classify_text_message(msg) {
        ClientCommand::Close => {
            st.phase = SessionPhase::Terminated(TermReason::ClientClosed);
        },
        ClientCommand::SetInterval(v) => {
            st.interval_ms = v;
        },
        ClientCommand::Ignore => {},
    }
}

/// Any client frame — a pong, binary data, anything — counts as liveness,
/// whatever it carries.
pub fn on_client_activity(st: &mut SessionState, now_ms: u64)
    ensures
        *final(st) == (SessionState { last_activity: now_ms, ..*old(st) }),
{
    st.last_activity = now_ms;
}

/// A close frame from the client ends the session.
pub fn on_client_close(st: &mut SessionState, now_ms: u64)
    requires
        old(st).phase is Active,
    ensures
        *final(st) == (SessionState {
            last_activity: now_ms,
            phase: SessionPhase::Terminated(TermReason::ClientClosed),
            ..*old(st)
        }),
{
    st.last_activity = now_ms;
    st.phase = SessionPhase::Terminated(TermReason::ClientClosed);
}

/// A transport error on the receive path ends the session at once.
pub fn on_transport_error(st: &mut SessionState)
    requires
        old(st).phase is Active,
    ensures
        *final(st) == (SessionState {
            phase: SessionPhase::Terminated(TermReason::Aborted),
            ..*old(st)
        }),
{
    st.phase = SessionPhase::Terminated(TermReason::Aborted);
}

/// When the watchdog declares the client unresponsive: only after silence
/// longer than the ping interval plus its grace.
pub open spec fn watchdog_fires(now_ms: int, last_activity: int) -> bool {
    now_ms - last_activity > PONG_TIMEOUT_MS
}

pub fn watchdog_check(st: &mut SessionState, now_ms: u64) -> (fired: bool)
    requires
        old(st).phase is Active,
    ensures
        fired == watchdog_fires(now_ms as int, old(st).last_activity as int),
        fired ==> *final(st) == (SessionState {
            phase: SessionPhase::Terminated(TermReason::ServerTimeout),
            ..*old(st)
        }),
        !fired ==> *final(st) == *old(st),
{
    if now_ms > st.last_activity && now_ms - st.last_activity > PONG_TIMEOUT_MS {
        st.phase = SessionPhase::Terminated(TermReason::ServerTimeout);
        true
    } else {
        false
    }
}

// ---------------------------------------------------------------------
// The sender's timeline
// ---------------------------------------------------------------------

/// What the sender does next while a tick's cadence runs out.
#[derive(Debug, Clone, Copy, PartialEq, Eq, Structural)]
pub enum WaitStep {
    /// The cadence has elapsed: fetch and push the next snapshot.
    FetchNow,
    /// The remainder is within one ping interval: sleep it out, then fetch.
    SleepThenFetch(u64),
    /// The remainder is longer: sleep one ping interval, send a liveness
    /// ping, and wait on.
    SleepThenPing(u64),
}

/// Pings and data frames share one timeline: a tick never sends both in the
/// same step, and pings appear only while a cadence longer than the ping
/// interval runs out.
pub open spec fn next_wait_spec(elapsed_ms: u64, interval_ms: u64) -> WaitStep {
    if elapsed_ms >= interval_ms {
        WaitStep::FetchNow
    } else if interval_ms - elapsed_ms <= PING_INTERVAL_MS {
        WaitStep::SleepThenFetch((interval_ms - elapsed_ms) as u64)
    } else {
        WaitStep::SleepThenPing(PING_INTERVAL_MS)
    }
}

pub fn next_wait(elapsed_ms: u64, interval_ms: u64) -> (r: WaitStep)
    ensures
        r == next_wait_spec(elapsed_ms, interval_ms),
{
    if elapsed_ms >= interval_ms {
        WaitStep::FetchNow
    } else if interval_ms - elapsed_ms <= PING_INTERVAL_MS {
        WaitStep::SleepThenFetch(interval_ms - elapsed_ms)
    } else {
        WaitStep::SleepThenPing(PING_INTERVAL_MS)
    }
}

/// What the sender pushes: the fetched payload, or the empty snapshot when
/// the fetch timed out or hard-failed, so a slow or absent reader never
/// blocks the stream.
pub fn payload_or_empty(fetched: Option<String>) -> (r: String)
    ensures
        match fetched {
            Option::Some(s) => r@ == s@,
            Option::None => r@ == "[]"@,
        },
{
    match fetched {
        Option::Some(s) => s,
        Option::None => {
            let mut out = String::new();
            out.append("[]");
            out
        },
    }
}

// ---------------------------------------------------------------------
// Laws of the protocol
// ---------------------------------------------------------------------

/// A run of data ticks whose sends all succeed, at the given times.
pub open spec fn run_quiet_ticks(st: SessionState, times: Seq<u64>) -> SessionState
    decreases times.len(),
{
    if times.len() == 0 {
        st
    } else {
        run_quiet_ticks(send_step(st, true, times[0]).0, times.drop_first())
    }
}

/// A session that receives no client messages and meets no send failures
/// emits its frame every tick and never terminates, however long it runs;
/// its cadence never moves, and while a cadence longer than the ping
/// interval runs out, the wait steps are pings.
pub proof fn lemma_quiet_session_runs_forever(st: SessionState, times: Seq<u64>)
    requires
        st.phase is Active,
    ensures
        run_quiet_ticks(st, times).phase is Active,
        run_quiet_ticks(st, times).interval_ms == st.interval_ms,
        forall|i: int, e: u64|
            0 <= i <= times.len() && e < st.interval_ms && st.interval_ms - e > PING_INTERVAL_MS
                ==> next_wait_spec(e, run_quiet_ticks(st, times.take(i)).interval_ms)
                == WaitStep::SleepThenPing(PING_INTERVAL_MS),
        forall|i: int| 0 <= i < times.len() ==> send_step(
            run_quiet_ticks(st, times.take(i)),
            true,
            times[i],
        ).1 == SendAction::Proceed,
    decreases times.len(),
{
    if times.len() > 0 {
        let st2 = send_step(st, true, times[0]).0;
        lemma_quiet_session_runs_forever(st2, times.drop_first());
        assert forall|i: int| 0 <= i <= times.len() implies run_quiet_ticks(
            st,
            times.take(i),
        ).interval_ms == st.interval_ms && (0 <= i < times.len() ==> run_quiet_ticks(
            st,
            times.take(i),
        ).phase is Active) by {
            lemma_quiet_ticks_prefix(st, times, i);
        }
    } else {
        assert(times.take(0) =~= times);
    }
}

/// Every prefix of a quiet run is still active and keeps the cadence.
proof fn lemma_quiet_ticks_prefix(st: SessionState, times: Seq<u64>, i: int)
    requires
        st.phase is Active,
        0 <= i <= times.len(),
    ensures
        run_quiet_ticks(st, times.take(i)).phase is Active,
        run_quiet_ticks(st, times.take(i)).interval_ms == st.interval_ms,
    decreases i,
{
    if i == 0 {
        assert(times.take(0) =~= Seq::<u64>::empty());
    } else {
        let st2 = send_step(st, true, times[0]).0;
        lemma_quiet_ticks_prefix(st2, times.drop_first(), i - 1);
        assert(times.take(i).drop_first() =~= times.drop_first().take(i - 1));
        assert(times.take(i)[0] == times[0]);
    }
}

/// An interval message moves only the stored cadence: the session stays
/// active, the retry budget is untouched, and the new value is what the
/// next tick reads; a wait already planned from the old cadence is not
/// replanned.
pub proof fn lemma_interval_effective_next_tick(
    st: SessionState,
    v: u64,
    now_ms: u64,
    elapsed_ms: u64,
)
    requires
        st.phase is Active,
    ensures
        ({
            let st2 = client_step(st, ClientCommand::SetInterval(v), now_ms);
            &&& st2.phase is Active
            &&& st2.interval_ms == v
            &&& st2.failed_attempts == st.failed_attempts
            &&& st2.last_activity == now_ms
            &&& next_wait_spec(elapsed_ms, st2.interval_ms) == next_wait_spec(elapsed_ms, v)
        }),
{
}

/// A run of consecutive send failures, stopping once the session ends.
pub open spec fn run_failed_sends(st: SessionState, k: nat, now_ms: u64) -> SessionState
    decreases k,
{
    if k == 0 || !(st.phase is Active) {
        st
    } else {
        run_failed_sends(send_step(st, false, now_ms).0, (k - 1) as nat, now_ms)
    }
}

/// The backoff the failed sends of such a run schedule in total.
pub open spec fn total_retry_delay(st: SessionState, k: nat, now_ms: u64) -> int
    decreases k,
{
    if k == 0 || !(st.phase is Active) {
        0
    } else {
        (match send_step(st, false, now_ms).1 {
            SendAction::RetryAfter(delay) => delay as int,
            _ => 0,
        }) + total_retry_delay(send_step(st, false, now_ms).0, (k - 1) as nat, now_ms)
    }
}

proof fn lemma_failed_sends_helper(st: SessionState, k: nat, now_ms: u64)
    requires
        st.phase is Active,
        st.failed_attempts <= SEND_RETRY_LIMIT,
        k + st.failed_attempts > SEND_RETRY_LIMIT,
    ensures
        run_failed_sends(st, k, now_ms).phase == SessionPhase::Terminated(TermReason::SendFailed),
        total_retry_delay(st, k, now_ms) == (SEND_RETRY_LIMIT - st.failed_attempts)
            * SEND_RETRY_DELAY_MS,
    decreases k,
{
    let (st2, act) = send_step(st, false, now_ms);
    if st.failed_attempts == SEND_RETRY_LIMIT {
        assert(act == SendAction::Stop(TermReason::SendFailed));
        assert(!(st2.phase is Active));
        assert(total_retry_delay(st2, (k - 1) as nat, now_ms) == 0);
        assert(total_retry_delay(st, k, now_ms) == 0);
    } else {
        assert(act == SendAction::RetryAfter(SEND_RETRY_DELAY_MS));
        lemma_failed_sends_helper(st2, (k - 1) as nat, now_ms);
        assert(total_retry_delay(st, k, now_ms) == SEND_RETRY_DELAY_MS + total_retry_delay(
            st2,
            (k - 1) as nat,
            now_ms,
        ));
    }
}

/// A session whose writes fail on every retry attempt terminates: the first
/// `SEND_RETRY_LIMIT` failures each schedule one retry after
/// `SEND_RETRY_DELAY_MS`, the next failure ends the session, and the total
/// scheduled backoff is exactly `SEND_RETRY_LIMIT * SEND_RETRY_DELAY_MS` —
/// so the session is over within retry-count times retry-delay of the first
/// failure.
pub proof fn lemma_all_sends_failing_terminates(st: SessionState, k: nat, now_ms: u64)
    requires
        st.phase is Active,
        st.failed_attempts == 0,
        k > SEND_RETRY_LIMIT,
    ensures
        run_failed_sends(st, k, now_ms).phase == SessionPhase::Terminated(TermReason::SendFailed),
        total_retry_delay(st, k, now_ms) == SEND_RETRY_LIMIT * SEND_RETRY_DELAY_MS,
{
    lemma_failed_sends_helper(st, k, now_ms);
}

} // verus!

//! Time, session ids and trace lines.

use crate::bff::{
    events_outcome, events_request, post_view, posted, token_of, utf8_fault, Credentials, Request,
    Sent, Token,
};
use crate::events::{batch_tree, sample_events, sample_trees};
use crate::text::{chars_of, decimal, decimal_text};
use std::time::{Duration, SystemTime, UNIX_EPOCH};
use vstd::prelude::*;
use vstd::utf8::{decode_utf8, valid_utf8};

verus! {

// ---------------------------------------------------------------------------
// Time
// ---------------------------------------------------------------------------

/// `std::time::SystemTime`, carried through without looking inside.
#[verifier::external_type_specification]
#[verifier::external_body]
pub struct ExSystemTime(SystemTime);

/// `SystemTime::now`, the time on the clock. Nothing is known of it.
#[verifier::external_body]
fn clock() -> (r: SystemTime) {
    SystemTime::now()
}

/// `SystemTime::duration_since` the Unix epoch; nothing for a clock that is
/// set before it. Nothing is known of it, since nothing is known of the clock.
#[verifier::external_body]
fn since_epoch(time: SystemTime) -> (r: Option<Duration>) {
    time.duration_since(UNIX_EPOCH).ok()
}

/// `Duration::as_millis`, the whole milliseconds of a duration. A duration is
/// a `u64` of seconds and less than one second more. No more is said of the
/// number, since the duration comes from the clock.
#[verifier::external_body]
fn whole_millis(duration: Duration) -> (r: u128)
    ensures
        r <= u64::MAX as u128 * 1000 + 999,
{
    duration.as_millis()
}

/// The milliseconds that passed since the epoch: zero for a clock that is set
/// before it.
pub fn millis_or_zero(since_epoch: Option<u128>) -> (r: u128)
    ensures
        r == (match since_epoch {
            Some(ms) => ms,
            None => 0,
        }),
{
    match since_epoch {
        Some(ms) => ms,
        None => 0,
    }
}

/// The time in milliseconds since the Unix epoch, by the clock of the machine.
pub fn now_ms() -> (r: u128)
    ensures
        r <= u64::MAX as u128 * 1000 + 999,
{
    let since = match since_epoch(clock()) {
        Some(duration) => Some(whole_millis(duration)),
        None => None,
    };
    millis_or_zero(since)
}

// ---------------------------------------------------------------------------
// Session ids
// ---------------------------------------------------------------------------

/// The characters that a session id is made of.
pub open spec fn alphabet() -> Seq<char> {
    "ABCDEFGHIJKLMNOPQRSTUVWXYZabcdefghijklmnopqrstuvwxyz0123456789"@
}

/// How many characters a session id has.
pub const SESSION_ID_LEN: usize = 22;

/// The state of the generator after `n` steps from a seed.
pub open spec fn generator_state(seed: u64, n: nat) -> u64
    decreases n,
{
    if n == 0 {
        seed.wrapping_mul(0x9E3779B97F4A7C15)
    } else {
        generator_state(seed, (n - 1) as nat).wrapping_mul(6364136223846793005).wrapping_add(
            1442695040888963407,
        )
    }
}

/// The character that a state of the generator stands for.
pub open spec fn letter(state: u64) -> char {
    alphabet()[(state >> 33) as int % 62]
}

/// The session id of a seed.
pub open spec fn session_id(seed: u64) -> Seq<char> {
    Seq::new(SESSION_ID_LEN as nat, |i: int| letter(generator_state(seed, (i + 1) as nat)))
}

/// The session id of a seed.
pub fn session_id_from_seed(seed: u64) -> (r: String)
    ensures
        r@ == session_id(seed),
{
    let abc = chars_of("ABCDEFGHIJKLMNOPQRSTUVWXYZabcdefghijklmnopqrstuvwxyz0123456789");
    proof {
        reveal_strlit("ABCDEFGHIJKLMNOPQRSTUVWXYZabcdefghijklmnopqrstuvwxyz0123456789");
    }
    let mut r = String::new();
    let mut state: u64 = seed.wrapping_mul(0x9E3779B97F4A7C15);
    for i in 0..SESSION_ID_LEN
        invariant
            abc@ == alphabet(),
            abc.len() == 62,
            state == generator_state(seed, i as nat),
            r@ == session_id(seed).take(i as int),
    {
        state = state.wrapping_mul(6364136223846793005).wrapping_add(1442695040888963407);
        let high: u64 = state >> 33;
        assert(high <= 0x7fff_ffff) by (bit_vector)
            requires
                high == state >> 33,
        ;
        r.push(abc[high as usize % 62]);
        assert(r@ =~= session_id(seed).take(i + 1));
    }
    assert(session_id(seed).take(SESSION_ID_LEN as int) =~= session_id(seed));
    r
}

/// A session id for now: the clock is the seed.
pub fn random_session_id() -> (r: String)
    ensures
        exists|seed: u64| r@ == #[trigger] session_id(seed),
{
    let seed = now_ms() as u64;
    session_id_from_seed(seed)
}

// ---------------------------------------------------------------------------
// Trace
// ---------------------------------------------------------------------------

/// A line of the trace: when, which tool and which part of it, and what.
pub fn trace_line(ts_ms: u128, tool: &str, component: &str, msg: &str) -> (r: String)
    ensures
        r@ == decimal(ts_ms as nat) + " ["@ + tool@ + "::"@ + component@ + "] "@ + msg@ + "\n"@,
{
    let mut r = decimal_text(ts_ms);
    r.append(" [");
    r.append(tool);
    r.append("::");
    r.append(component);
    r.append("] ");
    r.append(msg);
    r.append("\n");
    r
}

// ---------------------------------------------------------------------------
// Trying the whole way out
// ---------------------------------------------------------------------------

/// Reports the sample events, by the time on the clock; without a token, what
/// is noted in the trace instead.
pub fn sample_report(credentials: Credentials, session_id: &str, clock_ms: u128) -> (r: Result<
    Request,
    String,
>)
    requires
        (clock_ms as u64) + 300 <= u64::MAX,
    ensures
        match credentials {
            Credentials::Unreadable(e) => r matches Err(note) && note@ == "keychain read FAILED: "@
                + e@,
            Credentials::Absent => r matches Err(note) && note@
                == "no JWT in keychain (run SignInFromFile first)"@,
            Credentials::Stored(bytes) => if valid_utf8(bytes@) {
                r matches Ok(request) && request@ == post_view(
                    "/events/batch"@,
                    decode_utf8(bytes@),
                    batch_tree(session_id@, sample_trees(clock_ms as u64)),
                )
            } else {
                r matches Err(note) && note@ == "JWT not UTF-8: "@ + utf8_fault(bytes@)
            },
        },
{
    match token_of(credentials) {
        Token::Unreadable(e) => Err("keychain read FAILED: ".to_string().concat(e.as_str())),
        Token::Absent => Err("no JWT in keychain (run SignInFromFile first)".to_string()),
        Token::Garbled(e) => Err("JWT not UTF-8: ".to_string().concat(e.as_str())),
        Token::Present(jwt) => Ok(
            events_request(jwt.as_str(), session_id, sample_events(clock_ms)),
        ),
    }
}

/// What is noted of a report of the sample events.
pub fn sample_note(sent: Sent) -> (r: String)
    ensures
        r@ == (match posted("/events/batch"@, sent) {
            Ok(body) => "OK: response body="@ + body,
            Err(e) => "FAILED: "@ + e,
        }),
{
    match events_outcome(sent) {
        Ok(body) => "OK: response body=".to_string().concat(body.as_str()),
        Err(e) => "FAILED: ".to_string().concat(e.as_str()),
    }
}

// ---------------------------------------------------------------------------
// Laws
// ---------------------------------------------------------------------------

/// Whatever the seed, a session id has its full length and is made of the
/// letters and digits of the alphabet.
pub proof fn law_session_id_shape(seed: u64)
    ensures
        session_id(seed).len() == SESSION_ID_LEN,
        forall|i: int|
            0 <= i < SESSION_ID_LEN ==> alphabet().contains(#[trigger] session_id(seed)[i]),
{
    reveal_strlit("ABCDEFGHIJKLMNOPQRSTUVWXYZabcdefghijklmnopqrstuvwxyz0123456789");
}

/// The whole numbers that the generator goes through from a seed, in ordinary
/// arithmetic.
pub open spec fn generator_number(seed: int, n: nat) -> int
    decreases n,
{
    if n == 0 {
        (seed * 0x9E3779B97F4A7C15) % 0x1_0000_0000_0000_0000
    } else {
        (generator_number(seed, (n - 1) as nat) * 6364136223846793005 + 1442695040888963407)
            % 0x1_0000_0000_0000_0000
    }
}

/// The states of the generator are those numbers.
proof fn lemma_generator_number(seed: u64, n: nat)
    ensures
        generator_state(seed, n) == generator_number(seed as int, n),
    decreases n,
{
    if n > 0 {
        lemma_generator_number(seed, (n - 1) as nat);
        let before = generator_state(seed, (n - 1) as nat);
        let product = before * 6364136223846793005;
        vstd::arithmetic::div_mod::lemma_add_mod_noop(
            product,
            1442695040888963407,
            0x1_0000_0000_0000_0000,
        );
    }
}

/// A session id has twenty-two characters. Each stands for the upper bits of the
/// next number of a linear congruential generator, which starts from the seed:
/// letters in upper case, letters in lower case, then digits.
pub proof fn law_session_id_follows_the_seed(seed: u64, at: int)
    requires
        0 <= at < 22,
    ensures
        session_id(seed).len() == 22,
        session_id(seed)[at]
            == "ABCDEFGHIJKLMNOPQRSTUVWXYZabcdefghijklmnopqrstuvwxyz0123456789"@[(generator_number(
            seed as int,
            (at + 1) as nat,
        ) / 0x2_0000_0000) % 62],
{
    lemma_generator_number(seed, (at + 1) as nat);
    let state = generator_state(seed, (at + 1) as nat);
    assert(state >> 33 == state / 0x2_0000_0000) by (bit_vector);
}

} // verus!

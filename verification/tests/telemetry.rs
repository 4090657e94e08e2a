use wolfcode_lessons::bff::{Body, Credentials, Sent};
use wolfcode_lessons::telemetry::{
    millis_or_zero, now_ms, random_session_id, sample_note, sample_report, session_id_from_seed,
    trace_line,
};

const ABC: &str = "ABCDEFGHIJKLMNOPQRSTUVWXYZabcdefghijklmnopqrstuvwxyz0123456789";

fn expected_id(seed: u64) -> String {
    let abc = ABC.as_bytes();
    let mut state = seed.wrapping_mul(0x9E3779B97F4A7C15);
    (0..22)
        .map(|_| {
            state = state.wrapping_mul(6364136223846793005).wrapping_add(1442695040888963407);
            abc[(state >> 33) as usize % abc.len()] as char
        })
        .collect()
}

#[test]
fn clock_gives_milliseconds() {
    let now = now_ms();
    assert!(now > 1_600_000_000_000);
    assert!(now < 100_000_000_000_000);
    assert_eq!(millis_or_zero(None), 0);
    assert_eq!(millis_or_zero(Some(7)), 7);
}

#[test]
fn session_id_is_that_of_its_seed() {
    for seed in [0u64, 1, 42, 1_700_000_000_000, u64::MAX] {
        assert_eq!(session_id_from_seed(seed), expected_id(seed));
    }
}

#[test]
fn session_id_has_letters_and_digits_only() {
    let id = random_session_id();
    assert_eq!(id.len(), 22);
    assert!(id.chars().all(|c| ABC.contains(c)));
}

#[test]
fn trace_line_tells_when_where_and_what() {
    assert_eq!(trace_line(12, "lesson_runner", "Run", "hi"), "12 [lesson_runner::Run] hi\n");
}

#[test]
fn sample_report_needs_a_token() {
    let report = |c: Credentials| sample_report(c, "s1", 1000);
    let request = report(Credentials::Stored(b"T".to_vec())).ok().unwrap();
    assert_eq!(request.headers[0].1, "Bearer T");
    assert!(request.body.unwrap().starts_with("{\"session_id\":\"s1\",\"events\":[{\"ts\":1000,"));
    assert_eq!(
        report(Credentials::Absent).err().unwrap(),
        "no JWT in keychain (run SignInFromFile first)"
    );
    assert_eq!(
        report(Credentials::Unreadable("x".to_string())).err().unwrap(),
        "keychain read FAILED: x"
    );
    assert_eq!(
        report(Credentials::Stored(vec![0xff])).err().unwrap(),
        "JWT not UTF-8: invalid utf-8 sequence of 1 bytes from index 0"
    );
}

#[test]
fn sample_report_is_noted() {
    let answered = |status: u16| Sent::Answered {
        status,
        shown: "S".to_string(),
        body: Body::Whole("b".to_string()),
    };
    assert_eq!(sample_note(answered(200)), "OK: response body=b");
    assert_eq!(sample_note(answered(500)), "FAILED: /events/batch returned S: b");
}

use trading_help::logging::{
    debug_excerpt, describe_payload, format_record_time, log_line, log_startup, rotation_plan,
    scrub, should_rotate, MAX_FILE_BYTES, REDACTED,
};

#[test]
fn a_built_string_is_scrubbed_exactly_like_a_literal() {
    let via_format = format!("{}{}", "AIza", "x".repeat(35));
    let via_concat = String::from("AI") + "za" + &"x".repeat(35);
    assert_eq!(via_format, via_concat, "oba warianty muszą dać ten sam ciąg wejściowy");
    assert_eq!(scrub(&via_format), scrub(&via_concat));
    assert_eq!(scrub(&via_format), REDACTED);
}

fn fake_google_key() -> String {
    format!("{}{}", "AIza", "Sy0000000000000000000000000000000000".to_string())
}

fn fake_bearer_token() -> String {
    format!("{}{}", "sk-", "0".repeat(24))
}

fn fake_finnhub_token() -> String {
    format!("{}{}", "z1", "0".repeat(38))
}

#[test]
fn a_bare_token_is_removed_even_without_its_parameter_name() {
    let token = fake_finnhub_token();
    let scrubbed = scrub(&format!("Finnhub call rejected for {token} at 12:00"));
    assert!(!scrubbed.contains(&token), "goły token przeszedł do logu");
    assert!(scrubbed.contains(REDACTED));
    assert!(scrubbed.contains("at 12:00"), "reszta linii ma zostać");
}

#[test]
fn a_commit_hash_is_not_mistaken_for_a_token() {
    let sha = "a5a0cdfe4f705edca51443dc836b9f1f43944f6e";
    assert_eq!(sha.len(), 40);
    assert_eq!(scrub(&format!("released {sha}")), format!("released {sha}"));
}

#[test]
fn google_api_key_is_removed() {
    let key = fake_google_key();
    let scrubbed = scrub(&format!("Gemini call failed with key {key} in header"));
    assert!(!scrubbed.contains(&key));
    assert!(scrubbed.contains(REDACTED));
}

#[test]
fn query_parameter_tokens_are_removed() {
    let token = fake_finnhub_token();
    let scrubbed = scrub(&format!(
        "GET https://finnhub.io/api/v1/company-news?symbol=AAPL&token={token}"
    ));
    assert!(!scrubbed.contains(&token));
    assert!(scrubbed.contains("token=[REDACTED]"));
    assert!(scrubbed.contains("symbol=AAPL"), "nie-sekretne parametry mają zostać");
}

#[test]
fn longest_marker_wins_so_key_does_not_shadow_api_key() {
    let scrubbed = scrub("?api_key=abcdef123456");
    assert_eq!(scrubbed, "?api_key=[REDACTED]");
}

#[test]
fn header_and_bearer_forms_are_removed() {
    let key = fake_google_key();
    assert!(!scrub(&format!("x-goog-api-key: {key}")).contains(&key));

    let bearer = fake_bearer_token();
    assert!(!scrub(&format!("authorization: Bearer {bearer}")).contains(&bearer));
}

#[test]
fn ordinary_text_is_left_alone() {
    let line = "Skipping verification of unknown instrument: DOWJONES";
    assert_eq!(scrub(line), line);
    assert_eq!(scrub("monkey=banana"), "monkey=banana");
    assert_eq!(scrub("AIzaShort"), "AIzaShort");
}

#[test]
fn multibyte_text_does_not_panic_or_corrupt() {
    let line = "Nie udało się pobrać danych — źródło padło 🚀";
    assert_eq!(scrub(line), line);
}

#[test]
fn rotation_happens_before_a_write_that_would_overflow() {
    assert!(!should_rotate(0, MAX_FILE_BYTES * 2, MAX_FILE_BYTES));
    assert!(!should_rotate(100, 50, 200));
    assert!(should_rotate(150, 50, 200));
    assert!(should_rotate(1, u64::MAX, 200));
}

#[test]
fn rotation_shifts_the_oldest_copy_first() {
    assert_eq!(rotation_plan(2), vec![(1, 2), (0, 1)]);
    assert!(rotation_plan(0).is_empty());
}

#[test]
fn payloads_are_described_by_shape_only() {
    assert_eq!(describe_payload("  {\"a\": {}}"), "len=11 prefix=brace braces=2/2");
    assert_eq!(describe_payload("```json"), "len=7 prefix=code_fence braces=0/0");
    assert_eq!(describe_payload("[1]"), "len=3 prefix=bracket braces=0/0");
    assert_eq!(describe_payload("   "), "len=3 prefix=empty braces=0/0");
    assert_eq!(describe_payload("żaden json"), "len=11 prefix=prose braces=0/0");
}

#[test]
fn startup_line_reports_presence_of_the_key_never_the_key() {
    assert_eq!(
        log_startup("0.4.0", "gemini-3.6-flash", 3, true),
        "trading_help 0.4.0 started; model=gemini-3.6-flash; stored_tactics=3; gemini_key_present=true"
    );
}

#[test]
fn debug_excerpts_are_short_and_scrubbed() {
    let long = "a".repeat(300);
    let excerpt = debug_excerpt("odpowiedź", &long);
    assert_eq!(excerpt, format!("odpowiedź (debug excerpt, max 200 chars): {}", "a".repeat(200)));
    let secret = format!("key={}", "x".repeat(10));
    assert_eq!(debug_excerpt("l", &secret), "l (debug excerpt, max 200 chars): key=[REDACTED]");
}

#[test]
fn record_times_are_zero_padded_utc() {
    assert_eq!(format_record_time(2026, 7, 9, 8, 5, 3), "2026-07-09T08:05:03Z");
    assert_eq!(format_record_time(2026, 12, 31, 23, 59, 59), "2026-12-31T23:59:59Z");
}

#[test]
fn log_lines_pad_the_level_and_are_scrubbed() {
    assert_eq!(
        log_line("2026-07-09T08:05:03Z", "INFO", "startup", "hello"),
        "2026-07-09T08:05:03Z INFO  startup - hello"
    );
    assert_eq!(
        log_line("t", "ERROR", "gemini", "token=abc"),
        "t ERROR gemini - token=[REDACTED]"
    );
}

#[test]
fn scrubbing_a_scrubbed_line_changes_nothing() {
    let lines = vec![
        format!("GET https://finnhub.io/api/v1/company-news?symbol=AAPL&token={}", fake_finnhub_token()),
        format!("Gemini call failed with key {} in header", fake_google_key()),
        format!("authorization: Bearer {}", fake_bearer_token()),
        format!("Finnhub call rejected for {} at 12:00", fake_finnhub_token()),
        "token=&key= api_key=[REDACTED]x monkey=banana".to_string(),
        "Nie udało się pobrać danych — źródło padło 🚀".to_string(),
    ];
    for line in lines {
        let once = scrub(&line);
        assert_eq!(scrub(&once), once);
    }
}

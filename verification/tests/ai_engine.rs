use std::cell::Cell;

use trading_help::ai_engine::briefing::{
    explain_signal_pine_script, generate_signal_pine_script, instrument_briefing_prompt,
    resolve_citations, CitationResponse, PineVariant, MAX_CITATIONS,
};
use trading_help::ai_engine::cancel::{
    cancel, is_valid_operation_id, CancelSignal, OperationRegistry, MAX_ID_LEN,
};
use trading_help::ai_engine::correlation_pine::{
    explain_correlation_script, explain_gsr_script, generate_correlation_pine_script,
    generate_gsr_pine_script,
};
use trading_help::ai_engine::gemini_client::{
    backoff_fits, is_pacific_dst, is_retryable_transport, pacific_day, quota_scope,
    remaining_budget, should_retry, success_text, CallContext, CallState, CallStep, ErrorReply,
    GeminiProvider, QuotaScope, TransportFacts, UsageCounter, FREE_TIER_DAILY_LIMIT,
    REQUEST_TIMEOUT_SECS, TOTAL_BUDGET_SECS,
};
use trading_help::ai_engine::tactic::{normalize_scenario, trading_tactic_prompt, TACTIC_DISCLAIMER};
use trading_help::ai_engine::{
    client_error_message, format_news_lines, label_to_tv_ticker, strip_json_fence, AiEngineError,
};
use trading_help::catalog::find;
use trading_help::models::NewsItem;

// ---------------------------------------------------------------------------
// Pine variants and citations
// ---------------------------------------------------------------------------

#[test]
fn from_ai_choice_maps_known_strings() {
    assert_eq!(PineVariant::from_ai_choice("trend_wzrostowy"), PineVariant::Uptrend);
    assert_eq!(PineVariant::from_ai_choice("trend_spadkowy"), PineVariant::Downtrend);
    assert_eq!(PineVariant::from_ai_choice("konsolidacja"), PineVariant::Consolidation);
}

#[test]
fn from_ai_choice_defaults_unknown_strings_to_consolidation() {
    assert_eq!(PineVariant::from_ai_choice("cokolwiek innego"), PineVariant::Consolidation);
    assert_eq!(PineVariant::from_ai_choice(""), PineVariant::Consolidation);
}

fn assert_well_formed_pine_script(code: &str) {
    assert!(code.trim_start().starts_with("//@version=6"));
    assert!(code.contains("indicator("));
    let open = code.matches('(').count();
    let close = code.matches(')').count();
    assert_eq!(open, close, "niezbalansowane nawiasy okrągłe w:\n{code}");
}

#[test]
fn all_variants_generate_well_formed_pine_script_for_each_instrument() {
    for variant in [PineVariant::Uptrend, PineVariant::Downtrend, PineVariant::Consolidation] {
        for instrument in ["NASDAQ", "SP500", "GOLD", "SILVER"] {
            assert_well_formed_pine_script(&generate_signal_pine_script(instrument, variant));
        }
    }
}

#[test]
fn gold_and_silver_use_dedicated_tickers_not_the_sp500_fallback() {
    assert!(generate_signal_pine_script("GOLD", PineVariant::Consolidation).contains("TVC:GOLD"));
    assert!(generate_signal_pine_script("SILVER", PineVariant::Consolidation).contains("TVC:SILVER"));
}

#[test]
fn signal_scripts_carry_the_variant_condition_and_the_instrument() {
    let up = generate_signal_pine_script("NASDAQ", PineVariant::Uptrend);
    assert!(up.contains("Trading Help: NASDAQ - Sygnał trendu wzrostowego"));
    assert!(up.contains("bullishSignal = rsiValue > rsiThresholdInput and macdLine > signalLine"));
    let down = generate_signal_pine_script("NASDAQ", PineVariant::Downtrend);
    assert!(down.contains("bearishSignal = rsiValue < rsiThresholdInput and macdLine < signalLine"));
    let flat = generate_signal_pine_script("NASDAQ", PineVariant::Consolidation);
    assert!(!flat.contains("macd"));
    assert!(flat.contains(find("NASDAQ").unwrap().tv_ticker));
}

#[test]
fn explanations_share_the_base_sentence_and_name_the_variant() {
    let base = "Ten wskaźnik dla GOLD pokazuje RSI(14) w osobnym panelu, z progami 70 (wykupienie) i 30 (wyprzedanie).";
    for variant in [PineVariant::Uptrend, PineVariant::Downtrend, PineVariant::Consolidation] {
        assert!(explain_signal_pine_script("GOLD", variant).starts_with(base));
    }
    assert!(explain_signal_pine_script("GOLD", PineVariant::Uptrend).contains("trend wzrostowy"));
    assert!(explain_signal_pine_script("GOLD", PineVariant::Downtrend).contains("trend spadkowy"));
    assert!(explain_signal_pine_script("GOLD", PineVariant::Consolidation).contains("konsolidację"));
}

fn news(title: &str, link: &str) -> NewsItem {
    NewsItem {
        title: title.to_string(),
        description: "opis".to_string(),
        link: link.to_string(),
        published: "2026-01-01".to_string(),
    }
}

fn raw(claim: &str, evidence_type: &str, evidence_label: &str) -> CitationResponse {
    CitationResponse {
        claim: claim.to_string(),
        evidence_type: evidence_type.to_string(),
        evidence_label: evidence_label.to_string(),
    }
}

#[test]
fn news_citation_gets_real_link_on_exact_title_match() {
    let items = vec![news("Fed podnosi stopy", "https://example.com/fed")];
    let result = resolve_citations(vec![raw("stopy w górę", "news", "Fed podnosi stopy")], &items);

    assert_eq!(result.len(), 1);
    assert_eq!(result[0].evidence_link, Some("https://example.com/fed".to_string()));
}

#[test]
fn news_citation_is_dropped_when_title_does_not_match_any_real_news() {
    let items = vec![news("Fed podnosi stopy", "https://example.com/fed")];
    let result = resolve_citations(vec![raw("coś", "news", "Zupełnie inny tytuł")], &items);

    assert!(result.is_empty());
}

#[test]
fn numeric_citation_passes_through_without_a_link() {
    let result = resolve_citations(vec![raw("RSI wysoki", "numeric", "RSI(14) = 63.2")], &[]);

    assert_eq!(result.len(), 1);
    assert_eq!(result[0].evidence_type, "numeric");
    assert_eq!(result[0].evidence_link, None);
}

#[test]
fn citations_are_capped_at_max_citations() {
    let raws: Vec<CitationResponse> = (0..10)
        .map(|i| raw(&format!("claim {i}"), "numeric", &format!("label {i}")))
        .collect();

    let result = resolve_citations(raws, &[]);
    assert_eq!(result.len(), MAX_CITATIONS);
}

#[test]
fn news_citation_matches_ignoring_ascii_case_and_padding_and_takes_the_feed_title() {
    let items = vec![news("Fed Raises Rates", "https://example.com/fed")];
    let result = resolve_citations(vec![raw("stopy", "news", "  fed raises rates  ")], &items);
    assert_eq!(result.len(), 1);
    assert_eq!(result[0].evidence_type, "news");
    assert_eq!(result[0].evidence_label, "Fed Raises Rates");
    assert_eq!(result[0].claim, "stopy");
}

#[test]
fn any_other_evidence_type_becomes_numeric_and_order_is_kept() {
    let items = vec![news("A", "https://a")];
    let result = resolve_citations(
        vec![raw("1", "news", "missing"), raw("2", "chart", "x"), raw("3", "news", "A")],
        &items,
    );
    let claims: Vec<&str> = result.iter().map(|c| c.claim.as_str()).collect();
    assert_eq!(claims, vec!["2", "3"]);
    assert_eq!(result[0].evidence_type, "numeric");
    assert_eq!(result[1].evidence_link, Some("https://a".to_string()));
}

#[test]
fn briefing_prompt_carries_the_instrument_data_and_news_section() {
    let items = vec![news("Gold rally", "https://g")];
    let prompt = instrument_briefing_prompt("GOLD", "- GOLD: cena=1.00", Some(items.as_slice()));
    assert!(prompt.starts_with("Jesteś doświadczonym analitykiem rynków finansowych analizującym instrument: GOLD."));
    assert!(prompt.contains("DANE LICZBOWE:\n- GOLD: cena=1.00\n"));
    assert!(prompt.contains("- Gold rally: opis"));
    assert!(prompt.contains("{\"commentary\": \"...\""));
    let offline = instrument_briefing_prompt("GOLD", "x", None);
    assert!(offline.contains("NIE twierdź"));
}

// ---------------------------------------------------------------------------
// Correlation and GSR scripts
// ---------------------------------------------------------------------------

#[test]
fn correlation_script_plots_both_catalogued_tickers() {
    let leader = find("NASDAQ").unwrap();
    let follower = find("SP500").unwrap();
    let script = generate_correlation_pine_script(&leader, &follower);
    assert!(script.contains(&format!("request.security(\"{}\"", leader.tv_ticker)));
    assert!(script.contains(&format!("request.security(\"{}\"", follower.tv_ticker)));
    assert!(script.contains(&format!("Trading Help: {}/{} Correlation", leader.label, follower.label)));
    let explanation = explain_correlation_script(&leader, &follower);
    assert!(explanation.contains(leader.label) && explanation.contains(follower.label));
}

#[test]
fn gsr_script_reads_the_goldsilver_index() {
    assert!(generate_gsr_pine_script().contains("TVC:GOLDSILVER"));
    assert!(generate_gsr_pine_script().starts_with("//@version=6"));
    assert!(explain_gsr_script().starts_with("Ten wskaźnik pokazuje relację Gold/Silver Ratio"));
}

// ---------------------------------------------------------------------------
// Cancellation
// ---------------------------------------------------------------------------

struct FlagToken(Cell<bool>);

impl CancelSignal for FlagToken {
    fn cancel(&self) {
        self.0.set(true);
    }
}

fn token() -> FlagToken {
    FlagToken(Cell::new(false))
}

#[test]
fn cancelling_an_unknown_id_is_false_not_a_panic() {
    let registry: OperationRegistry<FlagToken> = OperationRegistry::new();
    assert!(!cancel(&registry, "00000000-0000-0000-0000-000000000000"));
    assert!(!cancel(&registry, ""));
    assert!(!cancel(&registry, "!@#$%^&*()"));
}

#[test]
fn malformed_ids_are_never_stored() {
    let mut registry: OperationRegistry<FlagToken> = OperationRegistry::new();
    let before = registry.len();
    let mut guard = registry.register("short", token());
    assert_eq!(registry.len(), before, "zbyt krótkie id nie może wejść do rejestru");
    registry.release(&mut guard);

    let mut guard = registry.register(&"x".repeat(MAX_ID_LEN + 1), token());
    assert_eq!(registry.len(), before, "zbyt długie id nie może wejść do rejestru");
    registry.release(&mut guard);
}

#[test]
fn guard_releases_the_entry_even_on_an_error_path() {
    let id = "guarded-error-path-1234";
    let mut registry: OperationRegistry<FlagToken> = OperationRegistry::new();
    let before = registry.len();

    let result: Result<(), &str> = {
        let mut guard = registry.register(id, token());
        assert_eq!(registry.len(), before + 1);
        let outcome = Err("coś poszło nie tak");
        registry.release(&mut guard);
        outcome
    };

    assert!(result.is_err());
    assert_eq!(registry.len(), before, "wpis został w rejestrze po błędzie");
    assert!(!cancel(&registry, id));
}

#[test]
fn cancel_by_id_reaches_the_registered_token() {
    let mut registry: OperationRegistry<FlagToken> = OperationRegistry::new();
    let guard = registry.register("wakes-a-waiter-abcd1234", token());
    assert_eq!(guard.id.as_deref(), Some("wakes-a-waiter-abcd1234"));
    assert!(cancel(&registry, "wakes-a-waiter-abcd1234"));
    assert!(registry.token_to_cancel("wakes-a-waiter-abcd1234").unwrap().0.get());
}

#[test]
fn a_full_registry_runs_new_operations_uncancellable_but_refreshes_known_ones() {
    let mut registry: OperationRegistry<FlagToken> = OperationRegistry::new();
    for i in 0..32 {
        let guard = registry.register(&format!("operation-{i:04}"), token());
        assert!(guard.id.is_some());
    }
    let overflow = registry.register("operation-9999", token());
    assert!(overflow.id.is_none());
    assert_eq!(registry.len(), 32);
    let again = registry.register("operation-0000", token());
    assert!(again.id.is_some());
    assert_eq!(registry.len(), 32);
}

#[test]
fn operation_ids_accept_only_the_bounded_shape() {
    assert!(is_valid_operation_id("abcd-1234"));
    assert!(is_valid_operation_id("00000000-0000-0000-0000-000000000000"));
    assert!(!is_valid_operation_id("abc-123"));
    assert!(!is_valid_operation_id("abcd_1234"));
    assert!(!is_valid_operation_id("żółtość-1234"));
    assert!(!is_valid_operation_id(&"a".repeat(65)));
    assert!(is_valid_operation_id(&"a".repeat(64)));
}

#[test]
fn releasing_twice_is_harmless() {
    let mut registry: OperationRegistry<FlagToken> = OperationRegistry::new();
    let mut guard = registry.register("release-twice-0001", token());
    registry.release(&mut guard);
    registry.release(&mut guard);
    assert_eq!(registry.len(), 0);
    assert!(guard.id.is_none());
}

// ---------------------------------------------------------------------------
// Gemini retry policy
// ---------------------------------------------------------------------------

#[test]
fn a_deterministic_503_is_not_retried_three_times() {
    assert!(should_retry(503, 0, QuotaScope::Unknown, false));
    assert!(!should_retry(503, 1, QuotaScope::Unknown, true));
    assert!(!should_retry(503, 1, QuotaScope::Unknown, false));
}

#[test]
fn a_repeated_response_stops_the_loop_whatever_the_status() {
    assert!(!should_retry(429, 0, QuotaScope::PerMinute, true));
    assert!(!should_retry(503, 0, QuotaScope::Unknown, true));
}

#[test]
fn an_exhausted_daily_quota_is_never_retried() {
    assert!(!should_retry(429, 0, QuotaScope::PerDay, false));
    assert!(should_retry(429, 0, QuotaScope::PerMinute, false));
    assert!(should_retry(429, 0, QuotaScope::Unknown, false));
}

#[test]
fn other_server_errors_keep_the_previous_behaviour() {
    assert!(!should_retry(500, 0, QuotaScope::Unknown, false));
    assert!(!should_retry(502, 0, QuotaScope::Unknown, false));
    assert!(!should_retry(400, 0, QuotaScope::Unknown, false));
}

#[test]
fn quota_scope_reads_googles_identifier() {
    assert_eq!(
        quota_scope(Some("GenerateRequestsPerDayPerProjectPerModel-FreeTier")),
        QuotaScope::PerDay
    );
    assert_eq!(
        quota_scope(Some("GenerateRequestsPerMinutePerProjectPerModel-FreeTier")),
        QuotaScope::PerMinute
    );
    assert_eq!(quota_scope(None), QuotaScope::Unknown);
}

#[test]
fn daily_and_per_minute_limits_say_different_things() {
    let per_minute = AiEngineError::RateLimitExceeded.message();
    let per_day = AiEngineError::DailyQuotaExhausted { limit: FREE_TIER_DAILY_LIMIT }.message();

    assert_ne!(per_minute, per_day);
    assert!(per_minute.contains("za chwilę"));
    assert!(!per_day.contains("za chwilę"));
    assert!(per_day.contains("dobę") && per_day.contains("północy"));
}

fn pacific_day_at(unix: i64) -> i64 {
    pacific_day(unix).expect("w zakresie kalendarza")
}

#[test]
fn usage_counts_failed_requests_too() {
    // 2026-07-29 18:00 UTC
    let now = 1_785_348_000;
    let today = pacific_day_at(now);
    let mut counter = UsageCounter::new(today);
    let first = counter.record(today);
    let second = counter.record(today);
    assert_eq!(second, first + 1, "nieudane żądanie też zużywa kwotę");
}

#[test]
fn the_counter_rolls_over_at_pacific_midnight_not_utc_midnight() {
    // 2026-07-30 06:30 UTC is still 29 July in Pacific (PDT, UTC-7).
    let late_pacific = 1_785_393_000;
    // 2026-07-30 07:30 UTC
    let next_pacific_day = 1_785_396_600;
    // 2026-07-29 20:00 UTC
    let evening = 1_785_355_200;
    assert_eq!(pacific_day_at(late_pacific), pacific_day_at(evening));
    assert_eq!(pacific_day_at(next_pacific_day), pacific_day_at(late_pacific) + 1);
}

#[test]
fn pacific_dst_boundaries_follow_the_us_rules() {
    assert!(!is_pacific_dst(2026, 3, 7));
    assert!(is_pacific_dst(2026, 3, 8));
    assert!(is_pacific_dst(2026, 10, 31));
    assert!(!is_pacific_dst(2026, 11, 1));
    assert!(!is_pacific_dst(2026, 1, 15));
    assert!(is_pacific_dst(2026, 7, 29));
}

#[test]
fn pacific_day_is_the_julian_day_of_the_local_date() {
    // 2026-07-29 20:00 UTC is 13:00 PDT on 2026-07-29, Julian day 2461251.
    assert_eq!(pacific_day(1_785_355_200), Some(2_461_251));
    // In winter the offset is -8 h: 2026-01-05 07:59 UTC is still 4 January.
    assert_eq!(pacific_day(1_767_571_200 + 7 * 3600 + 59 * 60), Some(2_461_045));
    assert_eq!(pacific_day(1_767_571_200 + 8 * 3600), Some(2_461_046));
}

#[test]
fn a_new_pacific_day_starts_counting_from_one() {
    let mut counter = UsageCounter::new(10);
    assert_eq!(counter.record(10), 1);
    assert_eq!(counter.record(10), 2);
    assert_eq!(counter.record(11), 1);
    assert_eq!(counter.day, 11);
}

#[test]
fn cancellation_message_is_the_frontend_contract() {
    assert_eq!(AiEngineError::Cancelled.message(), "Analiza została przerwana.");
}

#[test]
fn cancellation_is_a_different_variant_than_the_time_budget() {
    let cancelled = AiEngineError::Cancelled;
    let timed_out = AiEngineError::TimeBudgetExceeded { seconds: TOTAL_BUDGET_SECS };

    assert!(!matches!(cancelled, AiEngineError::TimeBudgetExceeded { .. }));
    assert_ne!(cancelled.message(), timed_out.message());
    assert!(!cancelled.message().to_lowercase().contains("błąd"));
    assert!(timed_out.message().contains("limit czasu"));
}

fn facts() -> TransportFacts {
    TransportFacts::default()
}

#[test]
fn transient_faults_are_retried() {
    assert!(is_retryable_transport(&TransportFacts { is_timeout: true, ..facts() }));
    assert!(is_retryable_transport(&TransportFacts { is_connect: true, ..facts() }));
    assert!(is_retryable_transport(&TransportFacts { is_request: true, ..facts() }));
    assert!(is_retryable_transport(&TransportFacts { is_body: true, ..facts() }));
}

#[test]
fn certain_failures_are_not_retried() {
    assert!(!is_retryable_transport(&TransportFacts { is_builder: true, ..facts() }));
    assert!(!is_retryable_transport(&TransportFacts { is_redirect: true, ..facts() }));
    assert!(!is_retryable_transport(&TransportFacts { is_decode: true, ..facts() }));
}

#[test]
fn tls_failures_are_not_retried_even_though_they_look_like_connect_errors() {
    let tls = TransportFacts {
        is_connect: true,
        chain: "error sending request; invalid peer certificate: unknown issuer".to_string(),
        ..facts()
    };
    assert!(!is_retryable_transport(&tls));
}

#[test]
fn unclassified_errors_fail_fast() {
    assert!(!is_retryable_transport(&facts()));
}

#[test]
fn budget_reports_exhaustion() {
    let now: u64 = 1_000_000;
    assert!(remaining_budget(now - 1_000, now).is_none());
    assert!(remaining_budget(now + 10_000, now).is_some());
}

#[test]
fn backoff_is_skipped_when_the_budget_would_not_survive_it() {
    let now: u64 = 1_000_000;
    let deadline = now + 5_000;
    assert!(!backoff_fits(deadline, now, 60_000));
    assert!(backoff_fits(deadline, now, 2_000));
    assert!(!backoff_fits(now - 1_000, now, 1_000));
}

#[test]
fn budget_covers_every_attempt_and_backoff() {
    assert!(TOTAL_BUDGET_SECS < REQUEST_TIMEOUT_SECS * 3);
    assert!(TOTAL_BUDGET_SECS > REQUEST_TIMEOUT_SECS, "budżet musi mieścić choć jedną pełną próbę");
}

fn reply(code: u16, body_len: usize) -> ErrorReply {
    ErrorReply { code, body_len, api_status: None, quota_id: None, retry_delay_secs: None }
}

#[test]
fn a_first_attempt_gets_the_full_request_timeout() {
    let mut call = CallState::new(0);
    assert_eq!(call.deadline_ms, 75_000);
    assert!(matches!(call.begin_attempt(0), CallStep::Send { timeout_ms: 45_000 }));
    // Late in the budget only what is left is granted.
    assert!(matches!(call.begin_attempt(70_000), CallStep::Send { timeout_ms: 5_000 }));
    match call.begin_attempt(75_000) {
        CallStep::Fail(e) => assert!(matches!(e, AiEngineError::TimeBudgetExceeded { seconds: 75 })),
        _ => panic!("budżet się skończył"),
    }
}

#[test]
fn a_first_503_backs_off_two_seconds_and_a_repeat_ends_the_call() {
    let mut call = CallState::new(0);
    assert!(matches!(call.http_failed(&reply(503, 120), 1_000), CallStep::Sleep { ms: 2_000 }));
    assert_eq!(call.attempt, 1);
    match call.http_failed(&reply(503, 120), 20_000) {
        CallStep::Fail(e) => {
            assert!(matches!(e, AiEngineError::ApiServerError { status: 503, attempts: 2 }));
        }
        _ => panic!("powtórzona odpowiedź miała zakończyć wywołanie"),
    }
}

#[test]
fn a_daily_quota_fails_at_once_with_its_own_message() {
    let mut call = CallState::new(0);
    let answer = ErrorReply {
        code: 429,
        body_len: 300,
        api_status: Some("RESOURCE_EXHAUSTED".to_string()),
        quota_id: Some("GenerateRequestsPerDayPerProjectPerModel-FreeTier".to_string()),
        retry_delay_secs: Some(30),
    };
    match call.http_failed(&answer, 1_000) {
        CallStep::Fail(e) => assert!(matches!(e, AiEngineError::DailyQuotaExhausted { limit: 20 })),
        _ => panic!("dzienny limit nie może być ponawiany"),
    }
}

#[test]
fn a_per_minute_limit_waits_as_long_as_google_asks_if_the_budget_allows() {
    let mut call = CallState::new(0);
    let answer = ErrorReply {
        code: 429,
        body_len: 300,
        api_status: None,
        quota_id: None,
        retry_delay_secs: Some(30),
    };
    assert!(matches!(call.http_failed(&answer, 1_000), CallStep::Sleep { ms: 30_000 }));
    let mut late = CallState::new(0);
    match late.http_failed(&answer, 50_000) {
        CallStep::Fail(e) => assert!(matches!(e, AiEngineError::RateLimitExceeded)),
        _ => panic!("backoff dłuższy niż pozostały budżet"),
    }
}

#[test]
fn a_client_error_is_reported_with_its_own_text_and_never_retried() {
    let mut call = CallState::new(0);
    match call.http_failed(&reply(403, 50), 1_000) {
        CallStep::Fail(AiEngineError::ApiClientError { status, message }) => {
            assert_eq!(status, 403);
            assert_eq!(message, client_error_message(403));
        }
        _ => panic!("4xx kończy wywołanie"),
    }
}

#[test]
fn transport_faults_back_off_two_then_four_seconds_then_give_up() {
    let mut call = CallState::new(0);
    assert!(matches!(call.transport_failed(true, "reset".to_string(), 1_000), CallStep::Sleep { ms: 2_000 }));
    assert!(matches!(call.transport_failed(true, "reset".to_string(), 5_000), CallStep::Sleep { ms: 4_000 }));
    match call.transport_failed(true, "reset".to_string(), 10_000) {
        CallStep::Fail(e) => assert_eq!(e.message(), "Błąd połączenia z Gemini API: reset"),
        _ => panic!("trzecia próba była ostatnią"),
    }
    let mut fatal = CallState::new(0);
    assert!(matches!(fatal.transport_failed(false, "tls".to_string(), 1_000), CallStep::Fail(_)));
}

#[test]
fn a_timed_out_attempt_is_a_connection_fault_unless_the_budget_is_gone() {
    let mut call = CallState::new(0);
    assert!(matches!(call.timed_out(45_000), CallStep::Sleep { ms: 2_000 }));
    match call.timed_out(75_000) {
        CallStep::Fail(e) => assert!(matches!(e, AiEngineError::TimeBudgetExceeded { seconds: 75 })),
        _ => panic!("budżet się skończył"),
    }
}

#[test]
fn running_out_of_attempts_reports_the_last_error_seen() {
    let mut call = CallState::new(0);
    call.http_failed(&reply(429, 10), 0);
    call.http_failed(&reply(429, 11), 3_000);
    assert_eq!(call.attempt, 2);
    match call.http_failed(&reply(429, 12), 8_000) {
        CallStep::Fail(e) => assert!(matches!(e, AiEngineError::RateLimitExceeded)),
        _ => panic!("koniec prób"),
    }
}

#[test]
fn the_answer_text_is_trimmed_and_a_missing_one_is_an_error() {
    assert_eq!(success_text(Some("  wynik \n")).unwrap(), "wynik");
    assert!(matches!(success_text(None), Err(AiEngineError::EmptyResponse)));
}

#[test]
fn a_provider_carries_its_call_context() {
    let provider = GeminiProvider::new(CallContext::new(7u32));
    assert_eq!(provider.context.cancel, 7);
    let detached: GeminiProvider<u32> = GeminiProvider::detached();
    assert_eq!(detached.context.cancel, 0);
}

// ---------------------------------------------------------------------------
// Error messages and shared helpers
// ---------------------------------------------------------------------------

#[test]
fn bad_key_message_points_at_settings_not_at_retrying() {
    for status in [401, 403] {
        let msg = client_error_message(status);
        assert!(msg.contains("Ustawieniach"), "status {status}: {msg}");
        assert!(!msg.contains("Spróbuj ponownie"), "status {status}: {msg}");
    }
}

#[test]
fn client_error_messages_never_suggest_retry() {
    for status in [400, 404, 418] {
        let msg = client_error_message(status);
        assert!(!msg.contains("Spróbuj ponownie"), "status {status}: {msg}");
    }
}

#[test]
fn server_error_keeps_retry_framing_and_hides_raw_body() {
    let err = AiEngineError::ApiServerError { status: 503, attempts: 3 };
    let msg = err.message();
    assert!(msg.contains("Spróbuj ponownie"));
    assert!(msg.contains("503"));
}

#[test]
fn client_error_message_is_the_whole_user_facing_text() {
    let err = AiEngineError::ApiClientError {
        status: 403,
        message: client_error_message(403),
    };
    assert_eq!(err.message(), client_error_message(403));
}

#[test]
fn news_lines_distinguish_missing_feed_from_no_matches() {
    let unavailable = format_news_lines(None);
    let no_matches = format_news_lines(Some(&[]));

    assert_ne!(unavailable, no_matches);
    assert!(unavailable.contains("NIE twierdź"));
}

#[test]
fn news_lines_join_title_and_description_one_per_line() {
    let items = vec![news("A", "https://a"), news("B", "https://b")];
    assert_eq!(format_news_lines(Some(items.as_slice())), "- A: opis\n- B: opis");
}

#[test]
fn every_error_variant_has_its_message() {
    assert!(AiEngineError::MissingApiKey.message().starts_with("Brak klucza API Gemini."));
    assert_eq!(
        AiEngineError::UnknownInstrument("BTC".to_string()).message(),
        "Instrument BTC nie jest obsługiwany przez aplikację."
    );
    assert_eq!(
        AiEngineError::ClientBuildFailed("x".to_string()).message(),
        "Nie udało się zainicjalizować klienta HTTP: x"
    );
    assert_eq!(
        AiEngineError::ResponseParseFailed("y".to_string()).message(),
        "Błąd parsowania odpowiedzi Gemini: y"
    );
    assert_eq!(AiEngineError::EmptyResponse.message(), "Gemini nie zwróciło żadnej treści");
    assert!(AiEngineError::TimeBudgetExceeded { seconds: 75 }.message().contains("(75 s)"));
    assert!(AiEngineError::DailyQuotaExhausted { limit: 20 }.message().contains("20 zapytań na dobę"));
    assert_eq!(
        AiEngineError::ApiServerError { status: 502, attempts: 2 }.message(),
        "Gemini API jest chwilowo niedostępne (błąd 502, nieudane próby: 2). Spróbuj ponownie za chwilę."
    );
    assert_eq!(
        client_error_message(418),
        "Gemini API odrzuciło zapytanie (błąd 418). Szczegóły techniczne zapisano w logu."
    );
}

#[test]
fn unknown_labels_have_no_tradingview_ticker() {
    assert_eq!(label_to_tv_ticker("GOLD"), Some("TVC:GOLD"));
    assert_eq!(label_to_tv_ticker("BITCOIN"), None);
}

#[test]
fn json_fences_are_stripped_before_parsing() {
    assert_eq!(strip_json_fence("```json\n{\"a\": 1}\n```"), "{\"a\": 1}");
    assert_eq!(strip_json_fence("  ```\n[1]\n```  "), "[1]");
    assert_eq!(strip_json_fence("  {\"a\": 1} "), "{\"a\": 1}");
}

// ---------------------------------------------------------------------------
// Tactics
// ---------------------------------------------------------------------------

#[test]
fn normalize_scenario_maps_known_strings() {
    assert_eq!(normalize_scenario("bull"), "bull");
    assert_eq!(normalize_scenario("bear"), "bear");
    assert_eq!(normalize_scenario("neutral"), "neutral");
}

#[test]
fn normalize_scenario_defaults_unknown_strings_to_neutral() {
    assert_eq!(normalize_scenario("byczy"), "neutral");
    assert_eq!(normalize_scenario(""), "neutral");
}

#[test]
fn tactic_prompt_states_the_level_cap_and_the_disclaimer_is_fixed() {
    let prompt = trading_tactic_prompt("SP500", "- SP500: x", Some(&[]));
    assert!(prompt.contains("dla instrumentu SP500."));
    assert!(prompt.ends_with("Wartości bezwzględne nie powinny przekraczać 20."));
    assert!(prompt.contains("(feed działa, ale żaden news nie pasuje do tego instrumentu)"));
    assert!(TACTIC_DISCLAIMER.starts_with("To NIE jest porada inwestycyjna."));
}

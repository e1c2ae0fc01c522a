use trading_help::keychain::{key_to_store, save_gemini_api_key};
use trading_help::models::TacticVerification;
use trading_help::tactic_store::write_needed;
use trading_help::tactic_engine::{
    compute_track_record, evaluate_outcome, is_due, record_outcome, window_end, CandleTouch,
    VerificationRecord, Window, DAYS_7_SECONDS, HOUR_24_SECONDS,
};

fn tactic() -> VerificationRecord {
    VerificationRecord { generated_at: 1000, verified_24h: None, verified_7d: None }
}

#[test]
fn compute_track_record_counts_only_verified_and_excludes_neutral() {
    let mut hit = tactic();
    hit.verified_24h = Some(TacticVerification { outcome: "target_hit".to_string(), checked_at: 5000 });

    let mut miss = tactic();
    miss.verified_24h = Some(TacticVerification { outcome: "stop_hit".to_string(), checked_at: 5000 });

    let unverified = tactic();

    let record = compute_track_record(&[hit, miss, unverified]);
    assert_eq!(record.verified_24h_total, 2);
    assert_eq!(record.verified_24h_hits, 1);
    assert_eq!(record.verified_7d_total, 0);
}

#[test]
fn a_window_is_due_only_once_it_has_elapsed_and_is_still_empty() {
    let t = tactic();
    assert!(!is_due(&t, Window::Day, 1000 + HOUR_24_SECONDS - 1));
    assert!(is_due(&t, Window::Day, 1000 + HOUR_24_SECONDS));
    assert!(!is_due(&t, Window::Week, 1000 + HOUR_24_SECONDS));
    assert!(is_due(&t, Window::Week, 1000 + DAYS_7_SECONDS));
    assert_eq!(window_end(1000, Window::Week), 1000 + 604_800);
}

#[test]
fn a_recorded_outcome_is_never_overwritten() {
    let mut t = tactic();
    assert!(record_outcome(&mut t, Window::Day, "stop_hit", 90_000));
    assert!(!record_outcome(&mut t, Window::Day, "target_hit", 95_000));
    let v = t.verified_24h.as_ref().unwrap();
    assert_eq!((v.outcome.as_str(), v.checked_at), ("stop_hit", 90_000));
    assert!(t.verified_7d.is_none());
    assert!(!is_due(&t, Window::Day, 1_000_000));
}

#[test]
fn the_week_window_is_counted_on_its_own() {
    let mut t = tactic();
    record_outcome(&mut t, Window::Week, "target_hit", 700_000);
    let record = compute_track_record(&[t]);
    assert_eq!(
        (record.verified_24h_total, record.verified_7d_total, record.verified_7d_hits),
        (0, 1, 1)
    );
}

#[test]
fn a_key_is_stored_trimmed_and_an_empty_one_is_refused_before_the_store() {
    assert_eq!(key_to_store("  AIza-test-key \n"), Ok("AIza-test-key"));
    assert_eq!(key_to_store("   "), Err("Klucz API nie może być pusty.".to_string()));
    assert_eq!(save_gemini_api_key(" \t "), Err("Klucz API nie może być pusty.".to_string()));
}

#[test]
fn unicode_white_space_around_a_key_is_trimmed_too() {
    assert_eq!(key_to_store("\u{3000}\u{a0}key\u{2003}\u{85}"), Ok("key"));
    assert_eq!(key_to_store("\u{202f}\u{2028}"), Err("Klucz API nie może być pusty.".to_string()));
    assert_eq!(key_to_store("\u{200b}key"), Ok("\u{200b}key"));
}

#[test]
fn identical_content_is_not_written_again() {
    assert!(write_needed(None, "[]"));
    assert!(!write_needed(Some("[]"), "[]"));
    assert!(write_needed(Some("[]"), "[{}]"));
}

/// A candle as (timestamp, high, low), read against a tactic generated at
/// 1000 with the given levels, as the application reads it.
fn touches(scenario: &str, reference_price: f64, target_pct: f64, stop_loss_pct: f64, candles: &[(i64, f64, f64)]) -> Vec<CandleTouch> {
    let target_price = reference_price * (1.0 + target_pct / 100.0);
    let stop_price = reference_price * (1.0 + stop_loss_pct / 100.0);
    candles
        .iter()
        .map(|&(timestamp, high, low)| {
            let (target_hit, stop_hit) = if scenario == "bull" {
                (high >= target_price, low <= stop_price)
            } else {
                (low <= target_price, high >= stop_price)
            };
            CandleTouch { timestamp, target_hit, stop_hit }
        })
        .collect()
}

fn score(scenario: &str, reference_price: f64, target_pct: f64, stop_loss_pct: f64, candles: &[(i64, f64, f64)], until: i64) -> Option<&'static str> {
    let t = touches(scenario, reference_price, target_pct, stop_loss_pct, candles);
    evaluate_outcome(scenario, 1000, &t, until)
}

#[test]
fn neutral_scenario_is_never_evaluated() {
    assert_eq!(score("neutral", 100.0, 2.0, -1.0, &[(2000, 110.0, 90.0)], 3000), None);
}

#[test]
fn returns_none_when_no_candles_fall_in_window() {
    assert_eq!(score("bull", 100.0, 2.0, -1.0, &[(500, 110.0, 90.0)], 3000), None);
}

#[test]
fn bull_hits_target_when_high_reaches_it() {
    assert_eq!(score("bull", 100.0, 2.0, -1.0, &[(2000, 103.0, 100.5)], 3000), Some("target_hit"));
}

#[test]
fn bull_hits_stop_when_low_reaches_it() {
    assert_eq!(score("bull", 100.0, 2.0, -1.0, &[(2000, 100.5, 98.5)], 3000), Some("stop_hit"));
}

#[test]
fn bull_neither_when_price_stays_in_range() {
    assert_eq!(score("bull", 100.0, 2.0, -1.0, &[(2000, 100.8, 99.5)], 3000), Some("neither"));
}

#[test]
fn same_day_double_touch_is_conservatively_counted_as_stop() {
    assert_eq!(score("bull", 100.0, 2.0, -1.0, &[(2000, 105.0, 95.0)], 3000), Some("stop_hit"));
}

#[test]
fn bear_hits_target_when_low_drops_to_it() {
    assert_eq!(score("bear", 100.0, -2.0, 1.0, &[(2000, 100.5, 97.0)], 3000), Some("target_hit"));
}

#[test]
fn bear_hits_stop_when_high_rises_to_it() {
    assert_eq!(score("bear", 100.0, -2.0, 1.0, &[(2000, 101.5, 99.5)], 3000), Some("stop_hit"));
}

#[test]
fn earlier_day_outcome_wins_over_later_day() {
    let history = [(2000, 103.0, 100.5), (3000, 90.0, 80.0)];
    assert_eq!(score("bull", 100.0, 2.0, -1.0, &history, 4000), Some("target_hit"));
}

#[test]
fn candles_given_out_of_order_are_taken_in_time_order() {
    let t = [
        CandleTouch { timestamp: 3000, target_hit: false, stop_hit: true },
        CandleTouch { timestamp: 2000, target_hit: true, stop_hit: false },
    ];
    assert_eq!(evaluate_outcome("bull", 1000, &t, 4000), Some("target_hit"));
}

#[test]
fn of_two_candles_at_one_time_the_first_given_decides() {
    let t = [
        CandleTouch { timestamp: 2000, target_hit: true, stop_hit: false },
        CandleTouch { timestamp: 2000, target_hit: false, stop_hit: true },
    ];
    assert_eq!(evaluate_outcome("bear", 1000, &t, 4000), Some("target_hit"));
}

#[test]
fn candles_after_the_window_and_at_generation_do_not_count() {
    let t = [
        CandleTouch { timestamp: 1000, target_hit: false, stop_hit: true },
        CandleTouch { timestamp: 5000, target_hit: false, stop_hit: true },
        CandleTouch { timestamp: 4000, target_hit: false, stop_hit: false },
    ];
    assert_eq!(evaluate_outcome("bull", 1000, &t, 4000), Some("neither"));
}

#[test]
fn reordering_candles_with_distinct_times_does_not_change_the_outcome() {
    let a = CandleTouch { timestamp: 2000, target_hit: false, stop_hit: false };
    let b = CandleTouch { timestamp: 2500, target_hit: true, stop_hit: false };
    let c = CandleTouch { timestamp: 3000, target_hit: false, stop_hit: true };
    let orders = [[a, b, c], [c, b, a], [b, c, a], [c, a, b]];
    for order in orders {
        assert_eq!(evaluate_outcome("bull", 1000, &order, 4000), Some("target_hit"));
    }
}

use trading_help::catalog::find;
use trading_help::commands::cross_market::{
    dated_returns, join_on_date, lagged_pairs, overlapping_observations, session_day, DEFAULT_LAG,
};
use trading_help::commands::custom_pair::validate_ticker;
use trading_help::commands::error::CommandError;
use trading_help::commands::instruments::{is_metal, is_supported, yahoo_symbol_for};
use trading_help::commands::live_quotes::{
    collect_live_quotes, resolve_watchlist, QuoteOutcome, MAX_INSTRUMENTS,
};
use trading_help::commands::market_context::{correlation_scripts, resolve_pair};
use trading_help::commands::precious_metals::{lookback_start, nearest_index};
use trading_help::market_engine::{MarketDataError, MIN_CLOSES_FOR_INDICATORS};

// ---------------------------------------------------------------------------
// Instruments and tickers
// ---------------------------------------------------------------------------

#[test]
fn maps_the_original_four_instruments() {
    assert_eq!(yahoo_symbol_for("NASDAQ"), Some("^IXIC"));
    assert_eq!(yahoo_symbol_for("SP500"), Some("^GSPC"));
    assert_eq!(yahoo_symbol_for("GOLD"), Some("GC=F"));
    assert_eq!(yahoo_symbol_for("SILVER"), Some("SI=F"));
}

#[test]
fn unknown_instrument_has_no_symbol() {
    assert_eq!(yahoo_symbol_for("BITCOIN"), None);
}

#[test]
fn is_metal_matches_only_metals() {
    assert!(is_metal("GOLD"));
    assert!(is_metal("SILVER"));
    assert!(!is_metal("NASDAQ"));
    assert!(!is_metal("SP500"));
    assert!(!is_metal("GLD"), "ETF na złoto nie jest metalem w sensie GSR");
}

#[test]
fn is_supported_rejects_unknown() {
    assert!(is_supported("NASDAQ"));
    assert!(!is_supported("BITCOIN"));
}

#[test]
fn accepts_typical_yahoo_tickers() {
    assert!(validate_ticker("AAPL").is_ok());
    assert!(validate_ticker("^IXIC").is_ok());
    assert!(validate_ticker("GC=F").is_ok());
    assert!(validate_ticker("RDS-A.L").is_ok());
}

#[test]
fn rejects_empty_or_too_long() {
    assert!(validate_ticker("").is_err());
    assert!(validate_ticker("   ").is_err());
    assert!(validate_ticker(&"A".repeat(16)).is_err());
}

#[test]
fn rejects_unexpected_characters() {
    assert!(validate_ticker("AAPL; DROP TABLE").is_err());
    assert!(validate_ticker("<script>").is_err());
    assert!(validate_ticker("has space").is_err());
}

#[test]
fn a_ticker_is_judged_after_trimming_and_reported_as_typed() {
    assert!(validate_ticker("  AAPL  ").is_ok());
    assert!(validate_ticker(&"A".repeat(15)).is_ok());
    match validate_ticker(" złoto ") {
        Err(e) => assert_eq!(e.message(), "Nieprawidłowy symbol tickera:  złoto "),
        Ok(()) => panic!("znaki spoza ASCII"),
    }
}

// ---------------------------------------------------------------------------
// Live quotes
// ---------------------------------------------------------------------------

fn fetch_error(symbol: &str) -> MarketDataError {
    MarketDataError::NoData { symbol: symbol.to_string() }
}

#[test]
fn every_task_panicking_is_an_error_not_an_empty_list() {
    let results: Vec<QuoteOutcome<&str>> = vec![QuoteOutcome::TaskFailed, QuoteOutcome::TaskFailed];
    assert!(
        matches!(collect_live_quotes(results), Err(CommandError::LiveQuoteTaskFailed)),
        "wszystkie zadania padły, a komenda nie zgłosiła błędu"
    );
}

#[test]
fn every_fetch_failing_reports_the_providers_error() {
    let results: Vec<QuoteOutcome<&str>> = vec![
        QuoteOutcome::FetchFailed(fetch_error("GC=F")),
        QuoteOutcome::FetchFailed(fetch_error("SI=F")),
    ];

    match collect_live_quotes(results) {
        Err(CommandError::MarketData(e)) => {
            assert!(e.message().contains("GC=F"), "otrzymano {}", e.message());
        }
        _ => panic!("oczekiwano błędu dostawcy"),
    }
}

#[test]
fn one_panic_among_successes_still_returns_the_successes() {
    let results = vec![
        QuoteOutcome::Fetched("GOLD"),
        QuoteOutcome::TaskFailed,
        QuoteOutcome::Fetched("SILVER"),
    ];
    let quotes = collect_live_quotes(results).expect("wyniki częściowe mają przechodzić");
    assert_eq!(quotes, vec!["GOLD", "SILVER"]);
}

#[test]
fn one_fetch_failure_among_successes_still_returns_the_successes() {
    let results = vec![QuoteOutcome::FetchFailed(fetch_error("GC=F")), QuoteOutcome::Fetched("NASDAQ")];
    let quotes = collect_live_quotes(results).expect("wyniki częściowe mają przechodzić");
    assert_eq!(quotes.len(), 1);
    assert_eq!(quotes[0], "NASDAQ");
}

#[test]
fn the_first_failure_wins_and_later_ones_do_not_overwrite_it() {
    let fetch_first: Vec<QuoteOutcome<&str>> =
        vec![QuoteOutcome::FetchFailed(fetch_error("GC=F")), QuoteOutcome::TaskFailed];
    match collect_live_quotes(fetch_first) {
        Err(CommandError::MarketData(e)) => assert!(e.message().contains("GC=F")),
        _ => panic!("pierwszy błąd miał wygrać"),
    }

    let panic_first: Vec<QuoteOutcome<&str>> =
        vec![QuoteOutcome::TaskFailed, QuoteOutcome::FetchFailed(fetch_error("SI=F"))];
    assert!(matches!(collect_live_quotes(panic_first), Err(CommandError::LiveQuoteTaskFailed)));
}

#[test]
fn an_empty_input_is_an_empty_success() {
    let quotes = collect_live_quotes::<&str>(Vec::new()).expect("pusty wektor nie jest awarią");
    assert!(quotes.is_empty());
}

#[test]
fn unknown_instrument_is_an_error_before_any_fetch() {
    let result = resolve_watchlist(vec!["GOLD".to_string(), "BITCOIN".to_string()]);
    assert!(matches!(result, Err(CommandError::UnknownInstrument(id)) if id == "BITCOIN"));
}

#[test]
fn empty_watchlist_yields_empty_quotes_not_an_error() {
    assert!(resolve_watchlist(Vec::new()).unwrap().is_empty());
    assert!(collect_live_quotes::<&str>(Vec::new()).unwrap().is_empty());
}

#[test]
fn oversized_request_is_rejected() {
    let too_many: Vec<String> = (0..MAX_INSTRUMENTS + 1).map(|i| format!("X{i}")).collect();
    let result = resolve_watchlist(too_many);
    match result {
        Err(CommandError::InvalidTicker(text)) => {
            assert_eq!(text, "zbyt wiele instrumentów w jednym zapytaniu: 33")
        }
        _ => panic!("za długa lista"),
    }
}

#[test]
fn a_watchlist_resolves_in_order_to_yahoo_symbols() {
    let resolved = resolve_watchlist(vec!["SILVER".to_string(), "NASDAQ".to_string()]).unwrap();
    assert_eq!(resolved, vec![("SILVER".to_string(), "SI=F"), ("NASDAQ".to_string(), "^IXIC")]);
}

#[test]
fn task_failure_message_carries_no_panic_details() {
    let message = CommandError::LiveQuoteTaskFailed.message();

    for leak in ["joinerror", "panic", "unwrap", "src/", ".rs"] {
        assert!(
            !message.to_lowercase().contains(leak),
            "komunikat dla usera zawiera szczegół techniczny '{leak}': {message}"
        );
    }
    assert!(message.contains("logu"), "komunikat ma kierować po szczegóły do logu");
}

#[test]
fn task_failure_is_a_distinct_variant_from_a_fetch_failure() {
    let task_failed = CommandError::LiveQuoteTaskFailed;
    let fetch_failed = CommandError::MarketData(MarketDataError::NoData { symbol: "TEST".to_string() });

    assert!(!matches!(task_failed, CommandError::MarketData(_)));
    assert_ne!(task_failed.message(), fetch_failed.message());
}

#[test]
fn every_command_error_has_its_message() {
    assert_eq!(
        CommandError::Storage("dysk".to_string()).message(),
        "Błąd zapisu/odczytu lokalnej historii: dysk"
    );
    assert_eq!(CommandError::Keychain("x".to_string()).message(), "Błąd magazynu kluczy systemu: x");
    assert_eq!(CommandError::UnknownInstrument("BTC".to_string()).message(), "Nieznany instrument: BTC");
    assert_eq!(
        CommandError::InvalidReferencePrice { instrument: "GOLD".to_string(), price: "0".to_string() }
            .message(),
        "Nieprawidłowa cena odniesienia dla GOLD: 0. Taktyka nie została zapisana."
    );
    assert_eq!(
        CommandError::Ai(trading_help::ai_engine::AiEngineError::Cancelled).message(),
        "Analiza została przerwana."
    );
}

// ---------------------------------------------------------------------------
// Market context
// ---------------------------------------------------------------------------

#[test]
fn no_measurable_correlation_costs_the_script_and_nothing_else() {
    assert_eq!(correlation_scripts(None), (None, None));
}

#[test]
fn measured_pair_is_scripted_for_the_instruments_it_names() {
    let (script, explanation) = correlation_scripts(Some("NASDAQ->SP500"));

    assert_eq!(script.is_some(), explanation.is_some());

    let script = script.expect("a measured pair must produce a script");
    let explanation = explanation.expect("a script is never emitted without its explanation");

    let nasdaq = find("NASDAQ").expect("NASDAQ is catalogued");
    let sp500 = find("SP500").expect("SP500 is catalogued");
    assert!(script.contains(nasdaq.tv_ticker), "script must plot {}", nasdaq.tv_ticker);
    assert!(script.contains(sp500.tv_ticker), "script must plot {}", sp500.tv_ticker);
    assert!(explanation.contains(nasdaq.label), "explanation must name the pair it describes");
    assert!(explanation.contains(sp500.label), "explanation must name the pair it describes");
}

#[test]
fn pair_the_catalogue_does_not_know_degrades_instead_of_failing() {
    assert_eq!(correlation_scripts(Some("FOO->BAR")), (None, None));
}

#[test]
fn a_pair_symbol_splits_on_the_first_arrow_and_trims_each_side() {
    let (leader, follower) = resolve_pair(" GOLD -> SILVER ").unwrap();
    assert_eq!((leader.id, follower.id), ("GOLD", "SILVER"));
    assert!(resolve_pair("GOLD SILVER").is_none());
    assert!(resolve_pair("GOLD->").is_none());
    assert!(resolve_pair("GOLD->SILVER->NASDAQ").is_none());
}

// ---------------------------------------------------------------------------
// Dated series
// ---------------------------------------------------------------------------

/// 2026-01-05 00:00 UTC and its Julian day number.
const BASE_UNIX: i64 = 1_767_571_200;
const BASE_DAY: i64 = 2_461_046;

fn day(offset: i64) -> i64 {
    BASE_DAY + offset
}

fn series(offsets: impl IntoIterator<Item = i64>, value: impl Fn(i64) -> f64) -> Vec<(i64, f64)> {
    offsets.into_iter().map(|d| (day(d), value(d))).collect()
}

fn wave(d: i64) -> f64 {
    ((d * 7) % 11) as f64 - 5.0
}

/// Each candle after the first, with its return since the previous candle
/// (none after a zero close).
fn window_returns(candles: &[(i64, f64)]) -> Vec<(i64, Option<f64>)> {
    candles
        .windows(2)
        .map(|w| {
            let (previous, current) = (w[0], w[1]);
            let value = if previous.1 == 0.0 { None } else { Some((current.1 - previous.1) / previous.1) };
            (current.0, value)
        })
        .collect()
}

fn candle_on(offset: i64, close: f64) -> (i64, f64) {
    (BASE_UNIX + offset * 86_400 + 14 * 3_600, close)
}

#[test]
fn session_days_are_julian_day_numbers_of_the_utc_date() {
    assert_eq!(session_day(BASE_UNIX), Some(BASE_DAY));
    assert_eq!(session_day(BASE_UNIX + 86_399), Some(BASE_DAY));
    assert_eq!(session_day(BASE_UNIX - 1), Some(BASE_DAY - 1));
}

#[test]
fn zero_close_drops_one_observation_without_shifting_the_rest() {
    let candles = vec![
        candle_on(0, 100.0),
        candle_on(1, 110.0),
        candle_on(2, 0.0),
        candle_on(3, 120.0),
        candle_on(4, 132.0),
    ];

    let returns = dated_returns(&window_returns(&candles));

    let dates: Vec<i64> = returns.iter().map(|(d, _)| *d).collect();
    assert_eq!(dates, vec![day(1), day(2), day(4)]);
    assert!((returns[2].1 - 0.1).abs() < 1e-9);
}

#[test]
fn duplicate_date_keeps_the_later_occurrence() {
    let candles = vec![candle_on(0, 100.0), candle_on(1, 110.0), candle_on(1, 105.0)];

    let returns = dated_returns(&window_returns(&candles));

    assert_eq!(returns.len(), 1);
    assert_eq!(returns[0].0, day(1));
    assert!((returns[0].1 - (105.0 - 110.0) / 110.0).abs() < 1e-9);
}

#[test]
fn returns_come_out_in_day_order_whatever_the_input_order() {
    let points = vec![(candle_on(3, 0.0).0, Some(3.0)), (candle_on(1, 0.0).0, Some(1.0)), (candle_on(2, 0.0).0, Some(2.0))];
    assert_eq!(dated_returns(&points), vec![(day(1), 1.0), (day(2), 2.0), (day(3), 3.0)]);
}

#[test]
fn correlation_uses_only_the_dates_both_calendars_share() {
    let leader = series(0..50, |d| if d == 3 || d == 7 { 5.0 } else { wave(d) });
    let follower = series((0..50).filter(|d| *d != 3 && *d != 7), wave);

    assert_eq!(overlapping_observations(&leader, &follower), 48);
    let (xs, ys) = lagged_pairs(&leader, &follower, 0).expect("48 wspólnych dni");
    assert_eq!(xs.len(), 48);
    assert_eq!(xs, ys, "poza wspólnymi dniami nic nie wchodzi do porównania");
}

#[test]
fn disjoint_calendars_report_no_measurement_rather_than_zero() {
    let leader = series(0..50, wave);
    let follower = series(200..250, wave);

    assert_eq!(overlapping_observations(&leader, &follower), 0);
    assert_eq!(lagged_pairs(&leader, &follower, 0), None);
}

#[test]
fn overlap_exactly_at_the_threshold_is_measured() {
    let at_threshold = series(0..MIN_CLOSES_FOR_INDICATORS as i64, wave);
    assert_eq!(overlapping_observations(&at_threshold, &at_threshold), MIN_CLOSES_FOR_INDICATORS);
    assert!(lagged_pairs(&at_threshold, &at_threshold, 0).is_some());
}

#[test]
fn overlap_one_below_the_threshold_is_not_measured() {
    let below = series(0..MIN_CLOSES_FOR_INDICATORS as i64 - 1, wave);
    assert_eq!(overlapping_observations(&below, &below), MIN_CLOSES_FOR_INDICATORS - 1);
    assert_eq!(lagged_pairs(&below, &below, 0), None);
}

#[test]
fn lag_consumes_one_observation_against_the_threshold() {
    let at_threshold = series(0..MIN_CLOSES_FOR_INDICATORS as i64, wave);
    assert_eq!(lagged_pairs(&at_threshold, &at_threshold, DEFAULT_LAG), None);
}

#[test]
fn lag_shifts_by_a_shared_session_not_by_array_index() {
    let shared: Vec<i64> = (0..45).filter(|d| *d != 5 && *d != 11).collect();

    let mut leader: Vec<(i64, f64)> = shared
        .iter()
        .enumerate()
        .map(|(i, d)| (day(*d), wave(i as i64)))
        .collect();
    leader.push((day(5), 42.0));
    leader.push((day(11), -42.0));
    leader.sort_by_key(|(d, _)| *d);

    let follower: Vec<(i64, f64)> = shared
        .iter()
        .enumerate()
        .skip(1)
        .map(|(i, d)| (day(*d), wave(i as i64 - 1)))
        .collect();

    let (xs, ys) = lagged_pairs(&leader, &follower, 1).expect("42 wspólne dni");
    assert_eq!(xs.len(), 41);
    assert_eq!(xs, ys, "opóźnienie o jedną wspólną sesję zestawia identyczne wartości");

    let (xs0, ys0) = lagged_pairs(&leader, &follower, 0).expect("42 wspólne dni");
    assert_ne!(xs0, ys0);
}

#[test]
fn join_drops_gaps_instead_of_forward_filling_them() {
    let a = series(0..10, |d| d as f64);
    let b = series((0..10).filter(|d| *d != 4), |d| d as f64 * 2.0);

    let (values_a, values_b) = join_on_date(&a, &b);

    assert_eq!(values_a.len(), 9);
    assert_eq!(values_b.len(), 9);
    assert_eq!(values_a, vec![0.0, 1.0, 2.0, 3.0, 5.0, 6.0, 7.0, 8.0, 9.0]);
    assert_eq!(values_b, vec![0.0, 2.0, 4.0, 6.0, 10.0, 12.0, 14.0, 16.0, 18.0]);
}

// ---------------------------------------------------------------------------
// Precious metals
// ---------------------------------------------------------------------------

#[test]
fn the_nearest_candle_wins_and_ties_go_to_the_earlier_one() {
    assert_eq!(nearest_index(&[], 10), None);
    assert_eq!(nearest_index(&[0, 100, 200, 300], 190), Some(2));
    assert_eq!(nearest_index(&[0, 100, 200, 300], 150), Some(1));
    assert_eq!(nearest_index(&[i64::MIN, i64::MAX], 0), Some(1));
    assert_eq!(nearest_index(&[0, 200], 100), Some(0));
}

#[test]
fn the_gsr_looks_back_thirty_days() {
    assert_eq!(lookback_start(BASE_UNIX), BASE_UNIX - 30 * 86_400);
}

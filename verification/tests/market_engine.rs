use trading_help::market_engine::{
    candle_date_text,
    is_fresh, sorted_by_time, validate_history, CandleCache, MarketDataError, CACHE_TTL_MS,
    MAX_CACHE_ENTRIES, MIN_CLOSES_FOR_INDICATORS,
};

fn series(len: usize) -> Vec<u32> {
    (0..len as u32).collect()
}

#[test]
fn empty_series_is_an_error_not_an_empty_ok() {
    let err = validate_history::<u32>("GC=F", Vec::new()).unwrap_err();
    assert!(matches!(err, MarketDataError::NoData { .. }));
    assert!(err.message().contains("awaria źródła"));
}

#[test]
fn series_below_the_threshold_is_rejected_as_too_short() {
    let err = validate_history("GC=F", series(MIN_CLOSES_FOR_INDICATORS - 1)).unwrap_err();
    match &err {
        MarketDataError::InsufficientHistory { valid, required, .. } => {
            assert_eq!(*valid, MIN_CLOSES_FOR_INDICATORS - 1);
            assert_eq!(*required, MIN_CLOSES_FOR_INDICATORS);
        }
        _ => panic!("oczekiwano InsufficientHistory"),
    }
    assert!(!err.message().contains("spróbuj ponownie"));
}

#[test]
fn series_exactly_at_the_threshold_passes() {
    let history = validate_history("GC=F", series(MIN_CLOSES_FOR_INDICATORS)).unwrap();
    assert_eq!(history.len(), MIN_CLOSES_FOR_INDICATORS);
}

#[test]
fn market_errors_say_what_the_user_can_do() {
    let short = MarketDataError::InsufficientHistory { symbol: "X".to_string(), valid: 3, required: 34 };
    assert_eq!(
        short.message(),
        "Za mało danych dla 'X': 3 poprawnych notowań, wymagane minimum 34. Ten instrument ma zbyt krótką historię, żeby policzyć wskaźniki - ponawianie nic nie zmieni."
    );
    let fetch = MarketDataError::Fetch { symbol: "GOLDX".to_string(), message: "404".to_string() };
    assert!(fetch.message().starts_with("Nie udało się pobrać danych dla 'GOLDX' z Yahoo Finance: 404."));
}

const T0: u64 = 1_000_000;

#[test]
fn fresh_entry_is_returned_and_expired_one_is_not() {
    let mut cache = CandleCache::new();
    let now = T0;
    cache.store("GC=F", series(40), now);

    assert!(cache.lookup("GC=F", now).is_some());
    assert!(cache.lookup("GC=F", now + CACHE_TTL_MS).is_none());
}

#[test]
fn expired_entries_are_evicted_on_write_not_just_ignored() {
    let mut cache = CandleCache::new();
    let now = T0;
    cache.store("OLD", series(40), now);

    cache.store("NEW", series(40), now + CACHE_TTL_MS);

    assert!(!cache.contains("OLD"), "wpis po TTL zostaje w mapie na zawsze");
    assert!(cache.contains("NEW"));
}

#[test]
fn cache_size_is_capped_by_dropping_the_oldest_entry() {
    let mut cache = CandleCache::new();
    let now = T0;
    for i in 0..MAX_CACHE_ENTRIES {
        cache.store(&format!("SYM{i}"), series(40), now + i as u64);
    }
    assert_eq!(cache.len(), MAX_CACHE_ENTRIES);

    cache.store("OVERFLOW", series(40), now + MAX_CACHE_ENTRIES as u64);

    assert_eq!(cache.len(), MAX_CACHE_ENTRIES);
    assert!(!cache.contains("SYM0"), "najstarszy wpis powinien wypaść");
    assert!(cache.contains("OVERFLOW"));
}

#[test]
fn refreshing_an_existing_symbol_does_not_evict_anything() {
    let mut cache = CandleCache::new();
    let now = T0;
    for i in 0..MAX_CACHE_ENTRIES {
        cache.store(&format!("SYM{i}"), series(40), now);
    }

    cache.store("SYM0", series(41), now);

    assert_eq!(cache.len(), MAX_CACHE_ENTRIES);
    assert_eq!(cache.lookup("SYM0", now).unwrap().len(), 41);
}

#[test]
fn a_stored_entry_reads_back_until_it_expires() {
    let mut cache = CandleCache::new();
    cache.store("GC=F", vec![1u32, 2, 3], T0);
    assert_eq!(cache.lookup("GC=F", T0 + CACHE_TTL_MS - 1), Some(&vec![1, 2, 3]));
    assert_eq!(cache.lookup("SI=F", T0), None);
    assert!(is_fresh(T0, T0 - 10), "zegar cofnięty nie postarza wpisu");
    assert!(!is_fresh(T0, T0 + CACHE_TTL_MS));
}

fn candle_at(timestamp: i64, close: f64) -> (i64, f64) {
    (timestamp, close)
}

#[test]
fn history_is_sorted_ascending_whatever_order_the_source_used() {
    let descending = vec![candle_at(300, 3.0), candle_at(200, 2.0), candle_at(100, 1.0)];
    let shuffled = vec![candle_at(200, 2.0), candle_at(300, 3.0), candle_at(100, 1.0)];

    for input in [descending, shuffled] {
        let sorted = sorted_by_time(input);
        let timestamps: Vec<i64> = sorted.iter().map(|c| c.0).collect();
        assert_eq!(timestamps, vec![100, 200, 300]);
        assert_eq!(sorted.last().unwrap().1, 3.0);
    }
}

#[test]
fn already_ascending_history_is_left_unchanged() {
    let ascending = vec![candle_at(100, 1.0), candle_at(200, 2.0), candle_at(300, 3.0)];
    let sorted = sorted_by_time(ascending.clone());
    let expected: Vec<i64> = ascending.iter().map(|c| c.0).collect();
    assert_eq!(sorted.iter().map(|c| c.0).collect::<Vec<_>>(), expected);
}

#[test]
fn candles_with_the_same_time_keep_their_order() {
    let input = vec![(200, 'a'), (100, 'b'), (200, 'c'), (100, 'd')];
    assert_eq!(sorted_by_time(input), vec![(100, 'b'), (100, 'd'), (200, 'a'), (200, 'c')]);
}

#[test]
fn a_candle_is_labelled_with_its_utc_date() {
    // 2026-01-01T00:00:00Z plus an hour
    assert_eq!(candle_date_text(1_767_225_600 + 3600), "2026-01-01");
    assert_eq!(candle_date_text(1_767_225_600 - 1), "2025-12-31");
    assert_eq!(candle_date_text(0), "1970-01-01");
}

#[test]
fn an_instant_beyond_the_calendar_is_labelled_with_its_number() {
    assert_eq!(candle_date_text(1 << 62), "4611686018427387904");
}

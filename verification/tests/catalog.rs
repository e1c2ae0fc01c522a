use std::collections::HashSet;

use trading_help::catalog::{all, by_class, find, InstrumentClass, CATALOG_LEN};

#[test]
fn ids_are_unique() {
    let mut seen = HashSet::new();
    for instrument in all() {
        assert!(seen.insert(instrument.id), "zduplikowane id: {}", instrument.id);
    }
}

#[test]
fn benchmarks_point_at_existing_instruments() {
    for instrument in all() {
        if let Some(benchmark) = instrument.benchmark_id {
            assert!(
                find(benchmark).is_some(),
                "{} wskazuje na nieistniejący benchmark {benchmark}",
                instrument.id
            );
            assert_ne!(benchmark, instrument.id, "{} jest własnym benchmarkiem", instrument.id);
        }
    }
}

#[test]
fn news_proxies_point_at_existing_instruments() {
    for instrument in all() {
        if let Some(proxy) = instrument.news_symbol {
            assert!(
                find(proxy).is_some(),
                "{} wskazuje na nieistniejące proxy newsów {proxy}",
                instrument.id
            );
        }
    }
}

#[test]
fn news_proxies_are_listed_tickers() {
    for instrument in all() {
        let Some(proxy) = instrument.news_symbol else { continue };
        let target = find(proxy).expect("proxy istnieje");
        assert!(
            matches!(
                target.class,
                InstrumentClass::Etf | InstrumentClass::Sector | InstrumentClass::Stock
            ),
            "{} używa proxy {proxy}, które nie jest notowanym tickerem",
            instrument.id
        );
    }
}

#[test]
fn find_returns_none_for_unknown_id() {
    assert!(find("BITCOIN").is_none());
    assert!(find("").is_none());
    assert!(find("sp500").is_none(), "id są wielkością liter znaczące");
}

#[test]
fn by_class_filters() {
    let metals: Vec<_> = by_class(InstrumentClass::Metal).iter().map(|i| i.id).collect();
    assert_eq!(metals, vec!["GOLD", "SILVER"]);
    assert!(by_class(InstrumentClass::Stock).first().is_none());
}

#[test]
fn tv_tickers_are_exchange_qualified() {
    for instrument in all() {
        let ticker = instrument.tv_ticker;
        let mut parts = ticker.split(':');
        let exchange = parts.next().unwrap_or("");
        let symbol = parts.next().unwrap_or("");
        assert!(
            !exchange.is_empty() && !symbol.is_empty() && parts.next().is_none(),
            "{} ma tv_ticker '{ticker}' spoza formatu GIEŁDA:SYMBOL",
            instrument.id
        );
    }
}

#[test]
fn every_instrument_has_a_description() {
    for instrument in all() {
        assert!(!instrument.description.is_empty(), "{} bez opisu", instrument.id);
    }
}

#[test]
fn keyword_presence_matches_having_a_news_source() {
    for instrument in all() {
        if instrument.news_symbol.is_some() {
            assert!(
                !instrument.keywords.is_empty(),
                "{} ma źródło newsów, ale nie ma słów kluczowych",
                instrument.id
            );
        } else {
            assert!(
                instrument.keywords.is_empty(),
                "{} nie ma źródła newsów, więc słowa kluczowe są nieosiągalne",
                instrument.id
            );
        }
    }
}

#[test]
fn keywords_are_lowercase_ascii() {
    for instrument in all() {
        for keyword in instrument.keywords {
            assert!(
                keyword.chars().all(|c| !c.is_uppercase()) && keyword.is_ascii(),
                "{}: słowo kluczowe '{keyword}' nigdy nie trafi",
                instrument.id
            );
        }
    }
}

#[test]
fn the_catalogue_keeps_its_display_order_and_size() {
    let rows = all();
    assert_eq!(rows.len(), CATALOG_LEN);
    assert_eq!(rows[0].id, "GOLD");
    let gold = find("GOLD").unwrap();
    assert_eq!(gold.yahoo_symbol, "GC=F");
    assert_eq!(gold.class, InstrumentClass::Metal);
}

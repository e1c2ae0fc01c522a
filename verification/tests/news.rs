use trading_help::models::NewsItem;
use trading_help::news_engine::{
    contains_whole_word, filter_news_for_instrument, merge_feeds, news_source_for, parse_feed,
    NewsSource,
};

fn keywords(instrument: &str) -> &'static [&'static str] {
    match news_source_for(instrument) {
        NewsSource::Keywords(k) => k,
        NewsSource::Unassigned => panic!("{instrument} nie ma przypisanego źródła wiadomości"),
    }
}

fn item(title: &str) -> NewsItem {
    NewsItem {
        title: title.to_string(),
        description: String::new(),
        link: String::new(),
        published: String::new(),
    }
}

#[test]
fn sourceless_instruments_report_unassigned_not_an_empty_keyword_list() {
    for instrument in ["VIX", "DXY", "US10Y", "OIL"] {
        assert!(
            matches!(news_source_for(instrument), NewsSource::Unassigned),
            "{instrument} powinien zgłaszać brak źródła"
        );
    }
}

#[test]
fn instruments_with_a_source_report_a_non_empty_keyword_list() {
    for instrument in ["GOLD", "SILVER", "NASDAQ", "SP500", "GDX", "XLE"] {
        match news_source_for(instrument) {
            NewsSource::Keywords(k) => assert!(!k.is_empty()),
            NewsSource::Unassigned => panic!("{instrument} powinien mieć źródło"),
        }
    }
}

#[test]
fn unknown_instrument_reports_unassigned() {
    assert!(matches!(news_source_for("BITCOIN"), NewsSource::Unassigned));
}

#[test]
fn gold_keyword_does_not_match_goldman_sachs() {
    let news = vec![item("Goldman Sachs raises TOPIX 12-month target")];
    let result = filter_news_for_instrument(&news, keywords("GOLD"), 5);
    assert!(result.is_empty());
}

#[test]
fn gold_keyword_matches_standalone_word() {
    let news = vec![item("Gold rally risks becoming a bull trap")];
    let result = filter_news_for_instrument(&news, keywords("GOLD"), 5);
    assert_eq!(result.len(), 1);
}

#[test]
fn multi_word_keyword_still_matches() {
    let news = vec![item("S&P 500 closes at record high")];
    let result = filter_news_for_instrument(&news, keywords("SP500"), 5);
    assert_eq!(result.len(), 1);
}

#[test]
fn keyword_starting_with_a_multibyte_char_does_not_panic() {
    assert!(contains_whole_word("ażelazo żelazo dziś", "żelazo"));
    assert!(contains_whole_word("cena żelazo dziś", "żelazo"));
}

#[test]
fn word_boundary_is_checked_on_characters_not_bytes() {
    assert!(!contains_whole_word("złotożółty pierścień", "złoto"));
    assert!(!contains_whole_word("żelazożelazo rośnie", "żelazo"));
    assert!(!contains_whole_word("żgold rally", "gold"));
    assert!(!contains_whole_word("złotoryja", "złoto"));
    assert!(!contains_whole_word("złotówka umacnia się", "złoto"));
}

#[test]
fn inflected_forms_are_not_matched() {
    assert!(!contains_whole_word("cena złota spada", "złoto"));
}

#[test]
fn characters_outside_the_bmp_around_the_match_are_handled() {
    assert!(contains_whole_word("📈 gold rally 🚀", "gold"));
    assert!(contains_whole_word("📈gold🚀", "gold"));
    assert!(!contains_whole_word("🚀goldman sachs", "gold"));
}

#[test]
fn fed_keyword_does_not_match_federal_as_substring() {
    let news = vec![item("Federation of retailers reports steady sales")];
    let result = filter_news_for_instrument(&news, keywords("SP500"), 5);
    assert!(result.is_empty());
}

#[test]
fn matching_is_case_insensitive_and_reads_the_description_too() {
    let mut in_description = item("Markets today");
    in_description.description = "GOLD jumps as the dollar slides".to_string();
    let news = vec![item("SILVER and GOLD both up"), in_description, item("Oil falls")];
    let result = filter_news_for_instrument(&news, keywords("GOLD"), 5);
    let titles: Vec<&str> = result.iter().map(|n| n.title.as_str()).collect();
    assert_eq!(titles, vec!["SILVER and GOLD both up", "Markets today"]);
}

#[test]
fn the_limit_keeps_the_first_matches_in_feed_order() {
    let news: Vec<NewsItem> = (0..8).map(|i| item(&format!("gold update {i}"))).collect();
    let result = filter_news_for_instrument(&news, keywords("GOLD"), 3);
    let titles: Vec<&str> = result.iter().map(|n| n.title.as_str()).collect();
    assert_eq!(titles, vec!["gold update 0", "gold update 1", "gold update 2"]);
}

#[test]
fn an_empty_needle_never_matches() {
    assert!(!contains_whole_word("anything", ""));
    assert!(contains_whole_word("gold", "gold"));
}

#[test]
fn one_dead_feed_does_not_sink_the_others() {
    let merged = merge_feeds(vec![Err("feed 1 down".to_string()), Ok(vec![item("a"), item("b")])]).unwrap();
    let titles: Vec<&str> = merged.iter().map(|n| n.title.as_str()).collect();
    assert_eq!(titles, vec!["a", "b"]);
}

#[test]
fn nothing_at_all_reports_the_last_failure() {
    let result = merge_feeds(vec![Err("pierwszy".to_string()), Ok(Vec::new()), Err("drugi".to_string())]);
    assert_eq!(result.map(|v| v.len()), Err("drugi".to_string()));
    assert!(merge_feeds(vec![Ok(Vec::new())]).unwrap().is_empty());
}

#[test]
fn a_feed_parses_into_items_in_document_order() {
    let xml = br#"<?xml version="1.0"?><rss version="2.0"><channel><title>t</title><link>l</link><description>d</description>
<item><title>Gold rally</title><description>up</description><link>https://a</link><pubDate>Mon, 05 Jan 2026 10:00:00 GMT</pubDate></item>
<item><title>Second</title></item>
</channel></rss>"#;
    let items = parse_feed(xml).unwrap();
    assert_eq!(items.len(), 2);
    assert_eq!(items[0].title, "Gold rally");
    assert_eq!(items[0].description, "up");
    assert_eq!(items[0].link, "https://a");
    assert_eq!(items[0].published, "Mon, 05 Jan 2026 10:00:00 GMT");
    assert_eq!(items[1].title, "Second");
    assert_eq!(items[1].link, "");
}

#[test]
fn bytes_that_are_not_a_feed_are_a_parse_error() {
    match parse_feed(b"to nie jest rss") {
        Err(message) => assert!(message.starts_with("Błąd parsowania RSS: ")),
        Ok(_) => panic!("to nie jest kanał RSS"),
    }
}

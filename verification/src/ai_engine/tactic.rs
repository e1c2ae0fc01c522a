//! An on-demand trading tactic: a bull, bear or neutral scenario with levels
//! relative to the current price, always shown with a fixed disclaimer that the
//! model never writes.

use vstd::prelude::*;
use crate::ai_engine::briefing::news_section;
use crate::ai_engine::format_news_lines;
use crate::models::NewsItem;
use crate::text::{decimal, extend_str, push_decimal, str_eq, string_from_chars};

verus! {

/// Attached to every tactic, verbatim: legal text is never left to the model.
pub const TACTIC_DISCLAIMER: &'static str = "To NIE jest porada inwestycyjna. Scenariusz i poziomy poniżej to orientacyjna interpretacja danych liczbowych przez model AI, wygenerowana automatycznie i obarczona ryzykiem błędu - może być całkowicie nietrafna. Nie podejmuj decyzji inwestycyjnych wyłącznie na tej podstawie.";

/// Largest level, in percent of the current price, that a tactic may carry
/// in either direction.
pub const MAX_LEVEL_PCT: u64 = 20;

pub open spec fn spec_normalize_scenario(s: Seq<char>) -> Seq<char> {
    if s == "bull"@ {
        "bull"@
    } else if s == "bear"@ {
        "bear"@
    } else {
        "neutral"@
    }
}

/// An unknown scenario lands safely on "neutral", as an unknown Pine variant
/// lands on consolidation.
pub fn normalize_scenario(s: &str) -> (r: &'static str)
    ensures
        r@ == spec_normalize_scenario(s@),
{
    if str_eq(s, "bull") {
        "bull"
    } else if str_eq(s, "bear") {
        "bear"
    } else {
        "neutral"
    }
}

/// The prompt of one tactic call.
pub open spec fn tactic_prompt(instrument: Seq<char>, numeric_context: Seq<char>, news_lines: Seq<char>) -> Seq<char> {
    "Jesteś doświadczonym analitykiem rynków finansowych. Na podstawie poniższych danych zaproponuj JEDEN scenariusz tradingowy dla instrumentu "@ + instrument + ".\n\nDANE LICZBOWE:\n"@ + numeric_context + "\n\nNAJNOWSZE NEWSY (mogą być nieistotne - pomiń je wtedy):\n"@ + news_lines + "\n\nWAŻNE OGRANICZENIE DANYCH: RSI i MACD powyżej to WYŁĄCZNIE bieżąca, pojedyncza migawka (jeden punkt w czasie) - nie masz dostępu do ich wcześniejszych wartości ani historii. NIE PISZ, że coś \"przecięło\", \"przebiło\" albo \"crossover\" linii sygnałowej/poziomu - to zakładałoby wiedzę o tym, co działo się wcześniej, której nie posiadasz. Opisuj tylko BIEŻĄCY stan, np. \"MACD znajduje się powyżej/poniżej linii sygnałowej\", \"RSI jest powyżej/ poniżej poziomu 50\" - bez sugerowania świeżości czy kierunku zmiany tego stanu.\n\nOdpowiedz WYŁĄCZNIE poprawnym obiektem JSON, bez markdown, bez bloków kodu, bez żadnego tekstu przed ani po - dokładnie w tej postaci:\n{\"scenario\": \"...\", \"reasoning\": \"...\", \"target_pct\": 0.0, \"stop_loss_pct\": 0.0}\n\nPole \"scenario\": DOKŁADNIE jedna z trzech wartości: \"bull\", \"bear\" albo \"neutral\".\n\nPole \"reasoning\": uzasadnienie po polsku (3-5 zdań, ok. 60-100 słów) odwołujące się KONKRETNIE do podanych danych liczbowych (korelacja, RSI, MACD, sentyment newsów) - dlaczego wybrałeś ten scenariusz, nie ogólniki. Wejście zawsze następuje po bieżącej cenie (nie proponuj innego poziomu wejścia).\n\nPola \"target_pct\", \"stop_loss_pct\": liczby zmiennoprzecinkowe, procentowe przesunięcie względem BIEŻĄCEJ ceny (nie realna cena) - target_pct dodatnie dla \"bull\" / ujemne dla \"bear\", stop_loss_pct odwrotny znak niż target_pct i mniejsza wartość bezwzględna (ryzyko mniejsze niż potencjalny zysk). Dla \"neutral\" ustaw obie wartości blisko 0.0. Wartości bezwzględne nie powinny przekraczać "@ + decimal(MAX_LEVEL_PCT as nat) + "."@
}

/// The prompt of one tactic call for `instrument`; `news` is `None` when the
/// feed is unavailable.
pub fn trading_tactic_prompt(instrument: &str, numeric_context: &str, news: Option<&[NewsItem]>) -> (r: String)
    ensures
        r@ == tactic_prompt(
            instrument@,
            numeric_context@,
            news_section(
                match news {
                    Some(items) => Some(items@),
                    None => None,
                },
            ),
        ),
{
    let news_lines = format_news_lines(news);
    let mut out: Vec<char> = Vec::new();
    extend_str(&mut out, "Jesteś doświadczonym analitykiem rynków finansowych. Na podstawie poniższych danych zaproponuj JEDEN scenariusz tradingowy dla instrumentu ");
    extend_str(&mut out, instrument);
    extend_str(&mut out, ".\n\nDANE LICZBOWE:\n");
    extend_str(&mut out, numeric_context);
    extend_str(&mut out, "\n\nNAJNOWSZE NEWSY (mogą być nieistotne - pomiń je wtedy):\n");
    extend_str(&mut out, news_lines.as_str());
    extend_str(&mut out, "\n\nWAŻNE OGRANICZENIE DANYCH: RSI i MACD powyżej to WYŁĄCZNIE bieżąca, pojedyncza migawka (jeden punkt w czasie) - nie masz dostępu do ich wcześniejszych wartości ani historii. NIE PISZ, że coś \"przecięło\", \"przebiło\" albo \"crossover\" linii sygnałowej/poziomu - to zakładałoby wiedzę o tym, co działo się wcześniej, której nie posiadasz. Opisuj tylko BIEŻĄCY stan, np. \"MACD znajduje się powyżej/poniżej linii sygnałowej\", \"RSI jest powyżej/ poniżej poziomu 50\" - bez sugerowania świeżości czy kierunku zmiany tego stanu.\n\nOdpowiedz WYŁĄCZNIE poprawnym obiektem JSON, bez markdown, bez bloków kodu, bez żadnego tekstu przed ani po - dokładnie w tej postaci:\n{\"scenario\": \"...\", \"reasoning\": \"...\", \"target_pct\": 0.0, \"stop_loss_pct\": 0.0}\n\nPole \"scenario\": DOKŁADNIE jedna z trzech wartości: \"bull\", \"bear\" albo \"neutral\".\n\nPole \"reasoning\": uzasadnienie po polsku (3-5 zdań, ok. 60-100 słów) odwołujące się KONKRETNIE do podanych danych liczbowych (korelacja, RSI, MACD, sentyment newsów) - dlaczego wybrałeś ten scenariusz, nie ogólniki. Wejście zawsze następuje po bieżącej cenie (nie proponuj innego poziomu wejścia).\n\nPola \"target_pct\", \"stop_loss_pct\": liczby zmiennoprzecinkowe, procentowe przesunięcie względem BIEŻĄCEJ ceny (nie realna cena) - target_pct dodatnie dla \"bull\" / ujemne dla \"bear\", stop_loss_pct odwrotny znak niż target_pct i mniejsza wartość bezwzględna (ryzyko mniejsze niż potencjalny zysk). Dla \"neutral\" ustaw obie wartości blisko 0.0. Wartości bezwzględne nie powinny przekraczać ");
    push_decimal(&mut out, MAX_LEVEL_PCT);
    extend_str(&mut out, ".");
    assert(out@ =~= tactic_prompt(instrument@, numeric_context@, news_lines@));
    string_from_chars(&out)
}

} // verus!

//! One briefing per instrument: the prompt handed to the model, the Pine
//! Script variant the model may choose (never the script itself: the code always
//! comes from one of three fixed templates) and the citations that back
//! individual sentences. A news citation only survives when its title matches a
//! headline that was actually in the prompt, so the model can never invent a
//! source or a link.

use vstd::prelude::*;
use crate::ai_engine::{format_news_lines, label_to_tv_ticker, news_lines, feed_unavailable_text, no_matching_news_text};
use crate::catalog::spec_find;
use crate::models::{Citation, NewsItem};
use crate::text::{
    chars_eq_ignore_ascii_case, extend_str, seq_eq_ignore_ascii_case, spec_trim, str_eq, str_trim,
    string_from_chars, string_from_str, to_chars,
};

verus! {

/// The model picks only the name of a variant.
#[derive(Clone, Copy, Debug, PartialEq, Eq, Structural)]
pub enum PineVariant {
    Uptrend,
    Downtrend,
    Consolidation,
}

pub open spec fn spec_from_ai_choice(s: Seq<char>) -> PineVariant {
    if s == "trend_wzrostowy"@ {
        PineVariant::Uptrend
    } else if s == "trend_spadkowy"@ {
        PineVariant::Downtrend
    } else {
        PineVariant::Consolidation
    }
}

impl PineVariant {
    /// An unknown name (a typo, a hallucination) lands safely on
    /// `Consolidation`.
    pub fn from_ai_choice(s: &str) -> (r: PineVariant)
        ensures
            r == spec_from_ai_choice(s@),
    {
        if str_eq(s, "trend_wzrostowy") {
            PineVariant::Uptrend
        } else if str_eq(s, "trend_spadkowy") {
            PineVariant::Downtrend
        } else {
            PineVariant::Consolidation
        }
    }
}

/// The uptrend template: RSI coloured green while RSI is above the
/// threshold and the MACD line is above its signal line.
pub open spec fn uptrend_script(instrument: Seq<char>, ticker: Seq<char>) -> Seq<char> {
    "//@version=6\nindicator(\"Trading Help: "@ + instrument + " - Sygnał trendu wzrostowego\", overlay=false)\n\nrsiLengthInput = input.int(14, title=\"Okres RSI\")\nrsiThresholdInput = input.float(50.0, title=\"Próg RSI dla sygnału wzrostowego\")\n\nprice = request.security(\""@ + ticker + "\", timeframe.period, close)\nrsiValue = ta.rsi(price, rsiLengthInput)\n[macdLine, signalLine, _] = ta.macd(price, 12, 26, 9)\n\nbullishSignal = rsiValue > rsiThresholdInput and macdLine > signalLine\n\nplot(rsiValue, title=\"RSI\", color=bullishSignal ? color.green : color.gray, linewidth=2)\nhline(rsiThresholdInput, \"Próg sygnału\", color=color.blue)\nhline(70, \"Wykupienie\", color=color.red)\nhline(30, \"Wyprzedanie\", color=color.green)\n"@
}

/// The downtrend template: RSI coloured red while RSI is below the
/// threshold and the MACD line is below its signal line.
pub open spec fn downtrend_script(instrument: Seq<char>, ticker: Seq<char>) -> Seq<char> {
    "//@version=6\nindicator(\"Trading Help: "@ + instrument + " - Sygnał trendu spadkowego\", overlay=false)\n\nrsiLengthInput = input.int(14, title=\"Okres RSI\")\nrsiThresholdInput = input.float(50.0, title=\"Próg RSI dla sygnału spadkowego\")\n\nprice = request.security(\""@ + ticker + "\", timeframe.period, close)\nrsiValue = ta.rsi(price, rsiLengthInput)\n[macdLine, signalLine, _] = ta.macd(price, 12, 26, 9)\n\nbearishSignal = rsiValue < rsiThresholdInput and macdLine < signalLine\n\nplot(rsiValue, title=\"RSI\", color=bearishSignal ? color.red : color.gray, linewidth=2)\nhline(rsiThresholdInput, \"Próg sygnału\", color=color.blue)\nhline(70, \"Wykupienie\", color=color.red)\nhline(30, \"Wyprzedanie\", color=color.green)\n"@
}

/// The consolidation template: plain RSI with no directional marking.
pub open spec fn consolidation_script(instrument: Seq<char>, ticker: Seq<char>) -> Seq<char> {
    "//@version=6\nindicator(\"Trading Help: "@ + instrument + " - Konsolidacja\", overlay=false)\n\nrsiLengthInput = input.int(14, title=\"Okres RSI\")\n\nprice = request.security(\""@ + ticker + "\", timeframe.period, close)\nrsiValue = ta.rsi(price, rsiLengthInput)\n\nplot(rsiValue, title=\"RSI\", color=color.gray, linewidth=2)\nhline(70, \"Wykupienie\", color=color.red)\nhline(50, \"Środek zakresu\", color=color.blue)\nhline(30, \"Wyprzedanie\", color=color.green)\n"@
}

/// The opening sentence every explanation shares.
pub open spec fn explanation_base(instrument: Seq<char>) -> Seq<char> {
    "Ten wskaźnik dla "@ + instrument + " pokazuje RSI(14) w osobnym panelu, z progami 70 (wykupienie) i 30 (wyprzedanie)."@
}

pub open spec fn uptrend_explanation(base: Seq<char>) -> Seq<char> {
    base + " AI oceniło obecną sytuację jako trend wzrostowy - linia RSI zmienia kolor na zielony, gdy RSI jest powyżej progu sygnału ORAZ linia MACD jest powyżej linii sygnałowej MACD, czyli gdy oba wskaźniki potwierdzają się nawzajem. Sam zielony kolor nie jest rekomendacją zakupu, tylko wizualnym potwierdzeniem tych dwóch warunków naraz."@
}

pub open spec fn downtrend_explanation(base: Seq<char>) -> Seq<char> {
    base + " AI oceniło obecną sytuację jako trend spadkowy - linia RSI zmienia kolor na czerwony, gdy RSI jest poniżej progu sygnału ORAZ linia MACD jest poniżej linii sygnałowej MACD. Sam czerwony kolor nie jest rekomendacją sprzedaży, tylko wizualnym potwierdzeniem tych dwóch warunków naraz."@
}

pub open spec fn consolidation_explanation(base: Seq<char>) -> Seq<char> {
    base + " AI oceniło obecną sytuację jako konsolidację (brak wyraźnego trendu) - wskaźnik pokazuje sam RSI bez dodatkowego oznaczania sygnałów kierunkowych, żeby nie sugerować kierunku, którego obecnie nie widać w danych."@
}

/// The prompt of one briefing call.
pub open spec fn briefing_prompt(instrument: Seq<char>, numeric_context: Seq<char>, news_lines: Seq<char>) -> Seq<char> {
    "Jesteś doświadczonym analitykiem rynków finansowych analizującym instrument: "@ + instrument + ".\n\nDANE LICZBOWE:\n"@ + numeric_context + "\n\nNAJNOWSZE NEWSY Z PORTALU FINANSOWEGO (mogą być nieistotne - pomiń je wtedy):\n"@ + news_lines + "\n\nWAŻNE OGRANICZENIE DANYCH: RSI i MACD powyżej to WYŁĄCZNIE bieżąca, pojedyncza migawka (jeden punkt w czasie) - nie masz dostępu do ich wcześniejszych wartości ani historii. NIE PISZ, że coś \"przecięło\", \"przebiło\" albo \"crossover\" linii sygnałowej/poziomu - to zakładałoby wiedzę o tym, co działo się wcześniej, której nie posiadasz. Opisuj tylko BIEŻĄCY stan, np. \"MACD znajduje się powyżej/poniżej linii sygnałowej\", \"RSI jest powyżej/ poniżej poziomu 50\" - bez sugerowania świeżości czy kierunku zmiany tego stanu.\n\nOdpowiedz WYŁĄCZNIE poprawnym obiektem JSON, bez markdown, bez bloków kodu, bez żadnego tekstu przed ani po - dokładnie w tej postaci:\n{\"commentary\": \"...\", \"sentiment_impact\": 0.0, \"pine_variant\": \"...\", \"citations\": [{\"claim\": \"...\", \"evidence_type\": \"...\", \"evidence_label\": \"...\"}]}\n\nPole \"commentary\": OBSZERNA analiza po polsku (2-3 krótkie akapity, łącznie ok. 150-250 słów) jako pojedynczy string (znaki nowej linii jako \\n), obejmująca:\n1) Co obecnie dzieje się z "@ + instrument + " na podstawie danych liczbowych,\n2) Czy newsy powyżej mają realny związek z "@ + instrument + ", i jeśli tak - jak mogą wpłynąć na jego zachowanie w najbliższych sesjach,\n3) Na co warto zwrócić uwagę / jakie jest ryzyko błędnej interpretacji tych danych.\nPisz prostym, konkretnym językiem, bez żargonu, bez nagłówków markdown.\n\nPole \"sentiment_impact\": liczba zmiennoprzecinkowa od -1.0 do 1.0 opisująca wydźwięk newsów powyżej DLA "@ + instrument + " - -1.0 to skrajnie negatywny, 1.0 skrajnie pozytywny, 0.0 gdy newsy są neutralne lub nieistotne dla "@ + instrument + ".\n\nPole \"pine_variant\": DOKŁADNIE jedna z trzech wartości: \"trend_wzrostowy\", \"trend_spadkowy\" albo \"konsolidacja\" - wybierz na podstawie RSI i MACD z DANYCH LICZBOWYCH powyżej. Wskazówka: RSI wyraźnie powyżej 50 razem z linią MACD powyżej linii sygnałowej MACD sugeruje \"trend_wzrostowy\"; RSI wyraźnie poniżej 50 razem z linią MACD poniżej linii sygnałowej sugeruje \"trend_spadkowy\"; w pozostałych przypadkach (sprzeczne wskazania albo RSI blisko 50) wybierz \"konsolidacja\".\n\nPole \"citations\": lista 2-4 obiektów, każdy uzasadniający JEDNO konkretne stwierdzenie z pola \"commentary\" - żeby user widział NA CZYM dokładnie oparte jest dane zdanie, zamiast musieć ufać samemu tekstowi. Każdy obiekt ma:\n- \"claim\": krótki fragment (kilka słów) z Twojej analizy, który ten dowód uzasadnia,\n- \"evidence_type\": \"news\" jeśli dowodem jest jeden z newsów powyżej, albo \"numeric\" jeśli dowodem jest jedna z DANYCH LICZBOWYCH powyżej,\n- \"evidence_label\": dla \"news\" - DOKŁADNY tytuł newsa SKOPIOWANY z listy powyżej (nie parafrazuj, musi być identyczny znak w znak, inaczej cytowanie zostanie odrzucone); dla \"numeric\" - konkretna nazwa i wartość, np. \"RSI(14) = 63.2\" albo \"korelacja "@ + instrument + "->SP500 = 0.18\".\nJeśli żadne konkretne stwierdzenie nie da się sensownie uzasadnić dostępnymi danymi, zwróć pustą listę [] zamiast wymyślać dowód."@
}


/// The TradingView ticker the catalogue gives `instrument`.
pub open spec fn catalog_ticker(instrument: Seq<char>) -> Seq<char> {
    spec_find(instrument).unwrap().tv_ticker@
}

pub open spec fn signal_script(instrument: Seq<char>, variant: PineVariant) -> Seq<char> {
    let ticker = catalog_ticker(instrument);
    match variant {
        PineVariant::Uptrend => uptrend_script(instrument, ticker),
        PineVariant::Downtrend => downtrend_script(instrument, ticker),
        PineVariant::Consolidation => consolidation_script(instrument, ticker),
    }
}

pub open spec fn signal_explanation(instrument: Seq<char>, variant: PineVariant) -> Seq<char> {
    let base = explanation_base(instrument);
    match variant {
        PineVariant::Uptrend => uptrend_explanation(base),
        PineVariant::Downtrend => downtrend_explanation(base),
        PineVariant::Consolidation => consolidation_explanation(base),
    }
}

/// Renders the template of the variant the model chose; nothing in the
/// script is generated. Only catalogued instruments have a ticker, so no
/// script can point at a market other than the one asked about.
pub fn generate_signal_pine_script(instrument: &str, variant: PineVariant) -> (r: String)
    requires
        spec_find(instrument@) is Some,
    ensures
        r@ == signal_script(instrument@, variant),
{
    let ticker = match label_to_tv_ticker(instrument) {
        Some(t) => t,
        None => {
            return String::new();
        },
    };
    let mut out: Vec<char> = Vec::new();
    match variant {
        PineVariant::Uptrend => {
        extend_str(&mut out, "//@version=6\nindicator(\"Trading Help: ");
        extend_str(&mut out, instrument);
        extend_str(&mut out, " - Sygnał trendu wzrostowego\", overlay=false)\n\nrsiLengthInput = input.int(14, title=\"Okres RSI\")\nrsiThresholdInput = input.float(50.0, title=\"Próg RSI dla sygnału wzrostowego\")\n\nprice = request.security(\"");
        extend_str(&mut out, ticker);
        extend_str(&mut out, "\", timeframe.period, close)\nrsiValue = ta.rsi(price, rsiLengthInput)\n[macdLine, signalLine, _] = ta.macd(price, 12, 26, 9)\n\nbullishSignal = rsiValue > rsiThresholdInput and macdLine > signalLine\n\nplot(rsiValue, title=\"RSI\", color=bullishSignal ? color.green : color.gray, linewidth=2)\nhline(rsiThresholdInput, \"Próg sygnału\", color=color.blue)\nhline(70, \"Wykupienie\", color=color.red)\nhline(30, \"Wyprzedanie\", color=color.green)\n");
        },
        PineVariant::Downtrend => {
        extend_str(&mut out, "//@version=6\nindicator(\"Trading Help: ");
        extend_str(&mut out, instrument);
        extend_str(&mut out, " - Sygnał trendu spadkowego\", overlay=false)\n\nrsiLengthInput = input.int(14, title=\"Okres RSI\")\nrsiThresholdInput = input.float(50.0, title=\"Próg RSI dla sygnału spadkowego\")\n\nprice = request.security(\"");
        extend_str(&mut out, ticker);
        extend_str(&mut out, "\", timeframe.period, close)\nrsiValue = ta.rsi(price, rsiLengthInput)\n[macdLine, signalLine, _] = ta.macd(price, 12, 26, 9)\n\nbearishSignal = rsiValue < rsiThresholdInput and macdLine < signalLine\n\nplot(rsiValue, title=\"RSI\", color=bearishSignal ? color.red : color.gray, linewidth=2)\nhline(rsiThresholdInput, \"Próg sygnału\", color=color.blue)\nhline(70, \"Wykupienie\", color=color.red)\nhline(30, \"Wyprzedanie\", color=color.green)\n");
        },
        PineVariant::Consolidation => {
        extend_str(&mut out, "//@version=6\nindicator(\"Trading Help: ");
        extend_str(&mut out, instrument);
        extend_str(&mut out, " - Konsolidacja\", overlay=false)\n\nrsiLengthInput = input.int(14, title=\"Okres RSI\")\n\nprice = request.security(\"");
        extend_str(&mut out, ticker);
        extend_str(&mut out, "\", timeframe.period, close)\nrsiValue = ta.rsi(price, rsiLengthInput)\n\nplot(rsiValue, title=\"RSI\", color=color.gray, linewidth=2)\nhline(70, \"Wykupienie\", color=color.red)\nhline(50, \"Środek zakresu\", color=color.blue)\nhline(30, \"Wyprzedanie\", color=color.green)\n");
        },
    }
    assert(out@ =~= signal_script(instrument@, variant));
    string_from_chars(&out)
}

/// The fixed explanation of the script; not written by the model.
pub fn explain_signal_pine_script(instrument: &str, variant: PineVariant) -> (r: String)
    ensures
        r@ == signal_explanation(instrument@, variant),
{
    let mut out: Vec<char> = Vec::new();
    extend_str(&mut out, "Ten wskaźnik dla ");
    extend_str(&mut out, instrument);
    extend_str(&mut out, " pokazuje RSI(14) w osobnym panelu, z progami 70 (wykupienie) i 30 (wyprzedanie).");
    match variant {
        PineVariant::Uptrend => {
            extend_str(&mut out, " AI oceniło obecną sytuację jako trend wzrostowy - linia RSI zmienia kolor na zielony, gdy RSI jest powyżej progu sygnału ORAZ linia MACD jest powyżej linii sygnałowej MACD, czyli gdy oba wskaźniki potwierdzają się nawzajem. Sam zielony kolor nie jest rekomendacją zakupu, tylko wizualnym potwierdzeniem tych dwóch warunków naraz.");
        },
        PineVariant::Downtrend => {
            extend_str(&mut out, " AI oceniło obecną sytuację jako trend spadkowy - linia RSI zmienia kolor na czerwony, gdy RSI jest poniżej progu sygnału ORAZ linia MACD jest poniżej linii sygnałowej MACD. Sam czerwony kolor nie jest rekomendacją sprzedaży, tylko wizualnym potwierdzeniem tych dwóch warunków naraz.");
        },
        PineVariant::Consolidation => {
            extend_str(&mut out, " AI oceniło obecną sytuację jako konsolidację (brak wyraźnego trendu) - wskaźnik pokazuje sam RSI bez dodatkowego oznaczania sygnałów kierunkowych, żeby nie sugerować kierunku, którego obecnie nie widać w danych.");
        },
    }
    assert(out@ =~= signal_explanation(instrument@, variant));
    string_from_chars(&out)
}

/// The news section a prompt carries for `news`.
pub open spec fn news_section(news: Option<Seq<NewsItem>>) -> Seq<char> {
    match news {
        None => feed_unavailable_text(),
        Some(items) => if items.len() == 0 {
            no_matching_news_text()
        } else {
            news_lines(items)
        },
    }
}

/// The prompt of one briefing call. `news` is `None` when the feed is
/// unavailable.
pub fn instrument_briefing_prompt(instrument: &str, numeric_context: &str, news: Option<&[NewsItem]>) -> (r: String)
    ensures
        r@ == briefing_prompt(
            instrument@,
            numeric_context@,
            news_section(
                match news {
                    Some(items) => Some(items@),
                    None => None,
                },
            ),
        ),
{
    let news_lines = format_news_lines(news);
    let mut out: Vec<char> = Vec::new();
    extend_str(&mut out, "Jesteś doświadczonym analitykiem rynków finansowych analizującym instrument: ");
    extend_str(&mut out, instrument);
    extend_str(&mut out, ".\n\nDANE LICZBOWE:\n");
    extend_str(&mut out, numeric_context);
    extend_str(&mut out, "\n\nNAJNOWSZE NEWSY Z PORTALU FINANSOWEGO (mogą być nieistotne - pomiń je wtedy):\n");
    extend_str(&mut out, news_lines.as_str());
    extend_str(&mut out, "\n\nWAŻNE OGRANICZENIE DANYCH: RSI i MACD powyżej to WYŁĄCZNIE bieżąca, pojedyncza migawka (jeden punkt w czasie) - nie masz dostępu do ich wcześniejszych wartości ani historii. NIE PISZ, że coś \"przecięło\", \"przebiło\" albo \"crossover\" linii sygnałowej/poziomu - to zakładałoby wiedzę o tym, co działo się wcześniej, której nie posiadasz. Opisuj tylko BIEŻĄCY stan, np. \"MACD znajduje się powyżej/poniżej linii sygnałowej\", \"RSI jest powyżej/ poniżej poziomu 50\" - bez sugerowania świeżości czy kierunku zmiany tego stanu.\n\nOdpowiedz WYŁĄCZNIE poprawnym obiektem JSON, bez markdown, bez bloków kodu, bez żadnego tekstu przed ani po - dokładnie w tej postaci:\n{\"commentary\": \"...\", \"sentiment_impact\": 0.0, \"pine_variant\": \"...\", \"citations\": [{\"claim\": \"...\", \"evidence_type\": \"...\", \"evidence_label\": \"...\"}]}\n\nPole \"commentary\": OBSZERNA analiza po polsku (2-3 krótkie akapity, łącznie ok. 150-250 słów) jako pojedynczy string (znaki nowej linii jako \\n), obejmująca:\n1) Co obecnie dzieje się z ");
    extend_str(&mut out, instrument);
    extend_str(&mut out, " na podstawie danych liczbowych,\n2) Czy newsy powyżej mają realny związek z ");
    extend_str(&mut out, instrument);
    extend_str(&mut out, ", i jeśli tak - jak mogą wpłynąć na jego zachowanie w najbliższych sesjach,\n3) Na co warto zwrócić uwagę / jakie jest ryzyko błędnej interpretacji tych danych.\nPisz prostym, konkretnym językiem, bez żargonu, bez nagłówków markdown.\n\nPole \"sentiment_impact\": liczba zmiennoprzecinkowa od -1.0 do 1.0 opisująca wydźwięk newsów powyżej DLA ");
    extend_str(&mut out, instrument);
    extend_str(&mut out, " - -1.0 to skrajnie negatywny, 1.0 skrajnie pozytywny, 0.0 gdy newsy są neutralne lub nieistotne dla ");
    extend_str(&mut out, instrument);
    extend_str(&mut out, ".\n\nPole \"pine_variant\": DOKŁADNIE jedna z trzech wartości: \"trend_wzrostowy\", \"trend_spadkowy\" albo \"konsolidacja\" - wybierz na podstawie RSI i MACD z DANYCH LICZBOWYCH powyżej. Wskazówka: RSI wyraźnie powyżej 50 razem z linią MACD powyżej linii sygnałowej MACD sugeruje \"trend_wzrostowy\"; RSI wyraźnie poniżej 50 razem z linią MACD poniżej linii sygnałowej sugeruje \"trend_spadkowy\"; w pozostałych przypadkach (sprzeczne wskazania albo RSI blisko 50) wybierz \"konsolidacja\".\n\nPole \"citations\": lista 2-4 obiektów, każdy uzasadniający JEDNO konkretne stwierdzenie z pola \"commentary\" - żeby user widział NA CZYM dokładnie oparte jest dane zdanie, zamiast musieć ufać samemu tekstowi. Każdy obiekt ma:\n- \"claim\": krótki fragment (kilka słów) z Twojej analizy, który ten dowód uzasadnia,\n- \"evidence_type\": \"news\" jeśli dowodem jest jeden z newsów powyżej, albo \"numeric\" jeśli dowodem jest jedna z DANYCH LICZBOWYCH powyżej,\n- \"evidence_label\": dla \"news\" - DOKŁADNY tytuł newsa SKOPIOWANY z listy powyżej (nie parafrazuj, musi być identyczny znak w znak, inaczej cytowanie zostanie odrzucone); dla \"numeric\" - konkretna nazwa i wartość, np. \"RSI(14) = 63.2\" albo \"korelacja ");
    extend_str(&mut out, instrument);
    extend_str(&mut out, "->SP500 = 0.18\".\nJeśli żadne konkretne stwierdzenie nie da się sensownie uzasadnić dostępnymi danymi, zwróć pustą listę [] zamiast wymyślać dowód.");
    assert(out@ =~= briefing_prompt(instrument@, numeric_context@, news_lines@));
    string_from_chars(&out)
}

/// One citation as the model returned it.
pub struct CitationResponse {
    pub claim: String,
    pub evidence_type: String,
    pub evidence_label: String,
}

/// Upper bound on citations per briefing; the prompt asks for no more, this
/// only enforces it.
pub const MAX_CITATIONS: usize = 5;

/// A citation as plain text.
pub struct CitationView {
    pub claim: Seq<char>,
    pub evidence_type: Seq<char>,
    pub evidence_label: Seq<char>,
    pub evidence_link: Option<Seq<char>>,
}

impl View for Citation {
    type V = CitationView;

    open spec fn view(&self) -> CitationView {
        CitationView {
            claim: self.claim@,
            evidence_type: self.evidence_type@,
            evidence_label: self.evidence_label@,
            evidence_link: match self.evidence_link {
                Some(l) => Some(l@),
                None => None,
            },
        }
    }
}

/// Position of the first news item, from `k` on, whose title equals `label`
/// ignoring ASCII case.
pub open spec fn first_title_match(news: Seq<NewsItem>, label: Seq<char>, k: int) -> Option<int>
    decreases news.len() - k,
{
    if k < 0 || k >= news.len() {
        None
    } else if seq_eq_ignore_ascii_case(news[k].title@, label) {
        Some(k)
    } else {
        first_title_match(news, label, k + 1)
    }
}

/// A news citation takes its title and link from the matching headline, never
/// from the model, and is dropped when no headline matches; any other citation
/// is numeric and carries no link.
pub open spec fn resolve_one(c: CitationResponse, news: Seq<NewsItem>) -> Option<CitationView> {
    if c.evidence_type@ == "news"@ {
        match first_title_match(news, spec_trim(c.evidence_label@), 0) {
            Some(k) => Some(
                CitationView {
                    claim: c.claim@,
                    evidence_type: "news"@,
                    evidence_label: news[k].title@,
                    evidence_link: Some(news[k].link@),
                },
            ),
            None => None,
        }
    } else {
        Some(
            CitationView {
                claim: c.claim@,
                evidence_type: "numeric"@,
                evidence_label: c.evidence_label@,
                evidence_link: None,
            },
        )
    }
}

/// Every citation that survives, in the model's order.
pub open spec fn resolve_all(raw: Seq<CitationResponse>, news: Seq<NewsItem>) -> Seq<CitationView>
    decreases raw.len(),
{
    if raw.len() == 0 {
        Seq::empty()
    } else {
        let rest = resolve_all(raw.drop_last(), news);
        match resolve_one(raw.last(), news) {
            Some(c) => rest.push(c),
            None => rest,
        }
    }
}

/// At most the first `MAX_CITATIONS` of `s`.
pub open spec fn capped(s: Seq<CitationView>) -> Seq<CitationView> {
    if s.len() <= MAX_CITATIONS {
        s
    } else {
        s.take(MAX_CITATIONS as int)
    }
}

pub open spec fn citation_views(v: Seq<Citation>) -> Seq<CitationView> {
    v.map_values(|c: Citation| c@)
}

fn titles_match(title: &str, label: &Vec<char>) -> (r: bool)
    ensures
        r == seq_eq_ignore_ascii_case(title@, label@),
{
    let t = to_chars(title);
    if t.len() != label.len() {
        return false;
    }
    let n = t.len();
    let mut i: usize = 0;
    while i < n
        invariant
            n == t@.len(),
            n == label@.len(),
            t@ == title@,
            i <= n,
            forall|k: int| 0 <= k < i ==> crate::text::eq_ignore_ascii_case(#[trigger] t@[k], label@[k]),
        decreases n - i,
    {
        if !chars_eq_ignore_ascii_case(t[i], label[i]) {
            return false;
        }
        i = i + 1;
    }
    true
}

fn find_title(news: &[NewsItem], label: &Vec<char>) -> (r: Option<usize>)
    ensures
        match r {
            Some(j) => j < news@.len() && first_title_match(news@, label@, 0) == Some(j as int),
            None => first_title_match(news@, label@, 0) is None,
        },
{
    let n = news.len();
    let mut j: usize = 0;
    while j < n
        invariant
            n == news@.len(),
            j <= n,
            first_title_match(news@, label@, 0) == first_title_match(news@, label@, j as int),
        decreases n - j,
    {
        if titles_match(news[j].title.as_str(), label) {
            return Some(j);
        }
        j = j + 1;
    }
    None
}

/// Keeps the citations whose evidence is real: a news citation gets the
/// title and link of the headline it names (compared ignoring ASCII case,
/// after trimming the label) or is dropped; a numeric one passes without a
/// link. At most `MAX_CITATIONS` are kept.
pub fn resolve_citations(raw: Vec<CitationResponse>, news: &[NewsItem]) -> (r: Vec<Citation>)
    ensures
        citation_views(r@) == capped(resolve_all(raw@, news@)),
{
    let mut out: Vec<Citation> = Vec::new();
    let n = raw.len();
    let mut k: usize = 0;
    while k < n
        invariant
            n == raw@.len(),
            k <= n,
            citation_views(out@) == capped(resolve_all(raw@.take(k as int), news@)),
        decreases n - k,
    {
        let ghost prev = resolve_all(raw@.take(k as int), news@);
        proof {
            assert(raw@.take(k + 1).drop_last() =~= raw@.take(k as int));
            assert(raw@.take(k + 1).last() == raw@[k as int]);
        }
        let c = &raw[k];
        let ghost expected = resolve_one(raw@[k as int], news@);
        let resolved: Option<Citation> = if str_eq(c.evidence_type.as_str(), "news") {
            let label = to_chars(str_trim(c.evidence_label.as_str()));
            match find_title(news, &label) {
                Some(j) => {
                    let cit = Citation {
                        claim: c.claim.clone(),
                        evidence_type: string_from_str("news"),
                        evidence_label: news[j].title.clone(),
                        evidence_link: Some(news[j].link.clone()),
                    };
                    assert(expected == Some(cit@));
                    Some(cit)
                },
                None => None,
            }
        } else {
            let cit = Citation {
                claim: c.claim.clone(),
                evidence_type: string_from_str("numeric"),
                evidence_label: c.evidence_label.clone(),
                evidence_link: None,
            };
            assert(expected == Some(cit@));
            Some(cit)
        };
        match resolved {
            Some(cit) => {
                let ghost before = out@;
                if out.len() < MAX_CITATIONS {
                    out.push(cit);
                    assert(citation_views(out@) =~= citation_views(before).push(cit@));
                    assert(citation_views(out@) =~= capped(prev.push(cit@)));
                } else {
                    assert(capped(prev.push(cit@)) =~= capped(prev));
                }
            },
            None => {
                assert(resolve_one(raw@[k as int], news@) is None);
            },
        }
        k = k + 1;
    }
    assert(raw@.take(n as int) =~= raw@);
    out
}

/// A citation backed by a real headline: a news citation names the title
/// and link of an item of `news`; any other citation carries no link.
pub open spec fn grounded(c: CitationView, news: Seq<NewsItem>) -> bool {
    if c.evidence_type == "news"@ {
        exists|k: int|
            0 <= k < news.len() && #[trigger] news[k].title@ == c.evidence_label && c.evidence_link
                == Some(news[k].link@)
    } else {
        c.evidence_type == "numeric"@ && c.evidence_link is None
    }
}

proof fn lemma_first_title_match_in_range(news: Seq<NewsItem>, label: Seq<char>, k: int)
    requires
        0 <= k,
    ensures
        first_title_match(news, label, k) matches Some(j) ==> k <= j < news.len(),
    decreases news.len() - k,
{
    if k < news.len() && !seq_eq_ignore_ascii_case(news[k].title@, label) {
        lemma_first_title_match_in_range(news, label, k + 1);
    }
}

proof fn lemma_resolve_all_grounded(raw: Seq<CitationResponse>, news: Seq<NewsItem>)
    ensures
        forall|i: int|
            0 <= i < resolve_all(raw, news).len() ==> grounded(#[trigger] resolve_all(raw, news)[i], news),
    decreases raw.len(),
{
    if raw.len() > 0 {
        lemma_resolve_all_grounded(raw.drop_last(), news);
        let rest = resolve_all(raw.drop_last(), news);
        let c = raw.last();
        lemma_first_title_match_in_range(news, spec_trim(c.evidence_label@), 0);
        reveal_strlit("news");
        reveal_strlit("numeric");
        match resolve_one(c, news) {
            Some(v) => {
                if c.evidence_type@ == "news"@ {
                    let k = first_title_match(news, spec_trim(c.evidence_label@), 0).unwrap();
                    assert(0 <= k < news.len());
                    assert(v.evidence_type == "news"@);
                    assert(news[k].title@ == v.evidence_label);
                    assert(v.evidence_link == Some(news[k].link@));
                    assert(grounded(v, news));
                } else {
                    assert(v.evidence_type == "numeric"@);
                    assert(v.evidence_link is None);
                    assert(grounded(v, news));
                }
                assert(resolve_all(raw, news) == rest.push(v));
                assert forall|i: int| 0 <= i < resolve_all(raw, news).len() implies grounded(
                    #[trigger] resolve_all(raw, news)[i],
                    news,
                ) by {
                    if i < rest.len() {
                        assert(resolve_all(raw, news)[i] == rest[i]);
                    }
                }
            },
            None => {
                assert(resolve_all(raw, news) == rest);
            },
        }
    }
}

/// The model can never fabricate a source: every citation a briefing shows
/// is either numeric and unlinked, or carries the exact title and link of a
/// headline that was in the prompt; and no briefing shows more than
/// `MAX_CITATIONS`.
pub proof fn law_citations_are_grounded(raw: Seq<CitationResponse>, news: Seq<NewsItem>)
    ensures
        capped(resolve_all(raw, news)).len() <= MAX_CITATIONS,
        forall|i: int|
            0 <= i < capped(resolve_all(raw, news)).len() ==> grounded(
                #[trigger] capped(resolve_all(raw, news))[i],
                news,
            ),
{
    lemma_resolve_all_grounded(raw, news);
    let all = resolve_all(raw, news);
    assert forall|i: int| 0 <= i < capped(all).len() implies grounded(#[trigger] capped(all)[i], news) by {
        assert(capped(all)[i] == all[i]);
    }
}

} // verus!

//! Gemini integration: typed errors (`AiEngineError`) with their user-facing
//! messages, and the helpers shared by the prompt builders (`label_to_tv_ticker`,
//! `format_news_lines`, `strip_json_fence`). The network transport and the
//! provider trait live with the application; everything that decides what is
//! sent, retried, reported or shown is here.

use vstd::prelude::*;
use crate::catalog::{find, spec_find};
use crate::models::NewsItem;
use crate::text::{
    decimal, extend_str, occurs_at, push_decimal, spec_trim, str_trim, string_from_chars,
    to_chars,
};

pub mod briefing;
pub mod cancel;
pub mod correlation_pine;
pub mod gemini_client;
pub mod tactic;

verus! {

/// Typed Gemini errors; the frontend receives `message()`.
#[derive(Debug)]
pub enum AiEngineError {
    MissingApiKey,
    /// Raised before the Gemini call, so an instrument missing from the
    /// catalogue costs no quota.
    UnknownInstrument(String),
    ClientBuildFailed(String),
    ConnectionFailed(String),
    /// Not a failure: the user asked for it. The frontend recognises this
    /// message and returns to idle instead of showing an error panel.
    Cancelled,
    /// Hard ceiling covering every attempt and backoff together.
    TimeBudgetExceeded { seconds: u64 },
    ResponseParseFailed(String),
    EmptyResponse,
    /// Per-minute cap: waiting genuinely helps.
    RateLimitExceeded,
    /// Per-day cap on the free tier: the next attempt that can succeed is
    /// tomorrow, so the message never suggests retrying soon.
    DailyQuotaExhausted { limit: u32 },
    /// 4xx: the request itself is at fault; the message never suggests a retry
    /// and never carries the raw response body.
    ApiClientError { status: u16, message: String },
    /// 5xx: a fault on Google's side, where retrying is meaningful.
    ApiServerError { status: u16, attempts: u32 },
}

/// An `AiEngineError` with its text payloads taken as character sequences.
pub enum AiErrorView {
    MissingApiKey,
    UnknownInstrument(Seq<char>),
    ClientBuildFailed(Seq<char>),
    ConnectionFailed(Seq<char>),
    Cancelled,
    TimeBudgetExceeded { seconds: u64 },
    ResponseParseFailed(Seq<char>),
    EmptyResponse,
    RateLimitExceeded,
    DailyQuotaExhausted { limit: u32 },
    ApiClientError { status: u16, message: Seq<char> },
    ApiServerError { status: u16, attempts: u32 },
}

impl View for AiEngineError {
    type V = AiErrorView;

    open spec fn view(&self) -> AiErrorView {
        match self {
            AiEngineError::MissingApiKey => AiErrorView::MissingApiKey,
            AiEngineError::UnknownInstrument(s) => AiErrorView::UnknownInstrument(s@),
            AiEngineError::ClientBuildFailed(s) => AiErrorView::ClientBuildFailed(s@),
            AiEngineError::ConnectionFailed(s) => AiErrorView::ConnectionFailed(s@),
            AiEngineError::Cancelled => AiErrorView::Cancelled,
            AiEngineError::TimeBudgetExceeded { seconds } => AiErrorView::TimeBudgetExceeded {
                seconds: *seconds,
            },
            AiEngineError::ResponseParseFailed(s) => AiErrorView::ResponseParseFailed(s@),
            AiEngineError::EmptyResponse => AiErrorView::EmptyResponse,
            AiEngineError::RateLimitExceeded => AiErrorView::RateLimitExceeded,
            AiEngineError::DailyQuotaExhausted { limit } => AiErrorView::DailyQuotaExhausted {
                limit: *limit,
            },
            AiEngineError::ApiClientError { status, message } => AiErrorView::ApiClientError {
                status: *status,
                message: message@,
            },
            AiEngineError::ApiServerError { status, attempts } => AiErrorView::ApiServerError {
                status: *status,
                attempts: *attempts,
            },
        }
    }
}

/// The user-facing (Polish) text of an error.
pub open spec fn error_message(e: AiErrorView) -> Seq<char> {
    match e {
        AiErrorView::MissingApiKey => "Brak klucza API Gemini. Ustaw go w ustawieniach aplikacji (pierwsze uruchomienie lub panel ustawień)."@,
        AiErrorView::UnknownInstrument(s) => "Instrument "@ + s + " nie jest obsługiwany przez aplikację."@,
        AiErrorView::ClientBuildFailed(s) => "Nie udało się zainicjalizować klienta HTTP: "@ + s,
        AiErrorView::ConnectionFailed(s) => "Błąd połączenia z Gemini API: "@ + s,
        AiErrorView::Cancelled => "Analiza została przerwana."@,
        AiErrorView::TimeBudgetExceeded { seconds } => "Przekroczono limit czasu ("@ + decimal(
            seconds as nat,
        ) + " s) na odpowiedź od Gemini. Sprawdź połączenie i spróbuj ponownie."@,
        AiErrorView::ResponseParseFailed(s) => "Błąd parsowania odpowiedzi Gemini: "@ + s,
        AiErrorView::EmptyResponse => "Gemini nie zwróciło żadnej treści"@,
        AiErrorView::RateLimitExceeded => "Przekroczono minutowy limit zapytań Gemini API. Spróbuj ponownie za chwilę."@,
        AiErrorView::DailyQuotaExhausted { limit } => "Wyczerpano dzienny limit zapytań do Gemini (darmowy tier: "@
            + decimal(limit as nat)
            + " zapytań na dobę dla tego modelu). Limit odnawia się o północy czasu pacyficznego, czyli około 9:00 czasu polskiego."@,
        AiErrorView::ApiClientError { status, message } => message,
        AiErrorView::ApiServerError { status, attempts } => "Gemini API jest chwilowo niedostępne (błąd "@
            + decimal(status as nat) + ", nieudane próby: "@ + decimal(attempts as nat)
            + "). Spróbuj ponownie za chwilę."@,
    }
}

impl AiEngineError {
    /// The message shown to the user.
    pub fn message(&self) -> (r: String)
        ensures
            r@ == error_message(self@),
    {
        let mut out: Vec<char> = Vec::new();
        match self {
            AiEngineError::MissingApiKey => {
                extend_str(&mut out, "Brak klucza API Gemini. Ustaw go w ustawieniach aplikacji (pierwsze uruchomienie lub panel ustawień).");
            },
            AiEngineError::UnknownInstrument(s) => {
                extend_str(&mut out, "Instrument ");
                extend_str(&mut out, s.as_str());
                extend_str(&mut out, " nie jest obsługiwany przez aplikację.");
            },
            AiEngineError::ClientBuildFailed(s) => {
                extend_str(&mut out, "Nie udało się zainicjalizować klienta HTTP: ");
                extend_str(&mut out, s.as_str());
            },
            AiEngineError::ConnectionFailed(s) => {
                extend_str(&mut out, "Błąd połączenia z Gemini API: ");
                extend_str(&mut out, s.as_str());
            },
            AiEngineError::Cancelled => {
                extend_str(&mut out, "Analiza została przerwana.");
            },
            AiEngineError::TimeBudgetExceeded { seconds } => {
                extend_str(&mut out, "Przekroczono limit czasu (");
                push_decimal(&mut out, *seconds);
                extend_str(&mut out, " s) na odpowiedź od Gemini. Sprawdź połączenie i spróbuj ponownie.");
            },
            AiEngineError::ResponseParseFailed(s) => {
                extend_str(&mut out, "Błąd parsowania odpowiedzi Gemini: ");
                extend_str(&mut out, s.as_str());
            },
            AiEngineError::EmptyResponse => {
                extend_str(&mut out, "Gemini nie zwróciło żadnej treści");
            },
            AiEngineError::RateLimitExceeded => {
                extend_str(&mut out, "Przekroczono minutowy limit zapytań Gemini API. Spróbuj ponownie za chwilę.");
            },
            AiEngineError::DailyQuotaExhausted { limit } => {
                extend_str(&mut out, "Wyczerpano dzienny limit zapytań do Gemini (darmowy tier: ");
                push_decimal(&mut out, *limit as u64);
                extend_str(&mut out, " zapytań na dobę dla tego modelu). Limit odnawia się o północy czasu pacyficznego, czyli około 9:00 czasu polskiego.");
            },
            AiEngineError::ApiClientError { status, message } => {
                extend_str(&mut out, message.as_str());
            },
            AiEngineError::ApiServerError { status, attempts } => {
                extend_str(&mut out, "Gemini API jest chwilowo niedostępne (błąd ");
                push_decimal(&mut out, *status as u64);
                extend_str(&mut out, ", nieudane próby: ");
                push_decimal(&mut out, *attempts as u64);
                extend_str(&mut out, "). Spróbuj ponownie za chwilę.");
            },
        }
        assert(out@ =~= error_message(self@));
        string_from_chars(&out)
    }
}

/// Message for a 4xx answer: factual, and never implies that retrying would
/// help.
pub open spec fn client_error_text(status: u16) -> Seq<char> {
    if status == 401 || status == 403 {
        "Klucz API Gemini został odrzucony. Sprawdź, czy jest poprawny i aktywny - możesz go zmienić w Ustawieniach."@
    } else if status == 400 {
        "Gemini odrzuciło treść zapytania (400). To błąd aplikacji, nie Twoich danych - zgłoś go, jeśli się powtarza."@
    } else if status == 404 {
        "Nie znaleziono modelu Gemini (404). Model mógł zostać wycofany - to błąd aplikacji, zgłoś go."@
    } else {
        "Gemini API odrzuciło zapytanie (błąd "@ + decimal(status as nat)
            + "). Szczegóły techniczne zapisano w logu."@
    }
}

pub fn client_error_message(status: u16) -> (r: String)
    ensures
        r@ == client_error_text(status),
{
    let mut out: Vec<char> = Vec::new();
    if status == 401 || status == 403 {
        extend_str(&mut out, "Klucz API Gemini został odrzucony. Sprawdź, czy jest poprawny i aktywny - możesz go zmienić w Ustawieniach.");
    } else if status == 400 {
        extend_str(&mut out, "Gemini odrzuciło treść zapytania (400). To błąd aplikacji, nie Twoich danych - zgłoś go, jeśli się powtarza.");
    } else if status == 404 {
        extend_str(&mut out, "Nie znaleziono modelu Gemini (404). Model mógł zostać wycofany - to błąd aplikacji, zgłoś go.");
    } else {
        extend_str(&mut out, "Gemini API odrzuciło zapytanie (błąd ");
        push_decimal(&mut out, status as u64);
        extend_str(&mut out, "). Szczegóły techniczne zapisano w logu.");
    }
    assert(out@ =~= client_error_text(status));
    string_from_chars(&out)
}

/// Maps an instrument id to its TradingView ticker via the catalogue; `None`
/// for unknown ids, never a substitute market.
pub fn label_to_tv_ticker(label: &str) -> (r: Option<&'static str>)
    ensures
        r == (match spec_find(label@) {
            Some(row) => Some(row.tv_ticker),
            None => None,
        }),
{
    match find(label) {
        Some(entry) => Some(entry.tv_ticker),
        None => None,
    }
}

pub open spec fn fence() -> Seq<char> {
    seq!['`', '`', '`']
}

pub open spec fn json_fence() -> Seq<char> {
    seq!['`', '`', '`', 'j', 's', 'o', 'n']
}

/// `t` without a trailing fence, if it has one.
pub open spec fn without_closing_fence(t: Seq<char>) -> Seq<char> {
    if t.len() >= 3 && occurs_at(t, fence(), t.len() - 3) {
        t.take(t.len() - 3)
    } else {
        t
    }
}

/// The body of a response wrapped in a ```json (or bare ```) fence; any other
/// text is returned as it is, trimmed.
pub open spec fn unfenced(raw: Seq<char>) -> Seq<char> {
    let t = spec_trim(raw);
    if occurs_at(t, json_fence(), 0) {
        spec_trim(without_closing_fence(t.skip(7)))
    } else if occurs_at(t, fence(), 0) {
        spec_trim(without_closing_fence(t.skip(3)))
    } else {
        spec_trim(t)
    }
}

/// Gemini sometimes wraps the response in a ```json fence; strip it before
/// parsing.
pub fn strip_json_fence(raw: &str) -> (r: String)
    ensures
        r@ == unfenced(raw@),
{
    let trimmed = str_trim(raw);
    let t = to_chars(trimmed);
    let json_fence_chars = vec!['`', '`', '`', 'j', 's', 'o', 'n'];
    let fence_chars = vec!['`', '`', '`'];
    assert(json_fence_chars@ =~= json_fence());
    assert(fence_chars@ =~= fence());
    let start: usize = if crate::text::chars_at(&t, 0, &json_fence_chars) {
        7
    } else if crate::text::chars_at(&t, 0, &fence_chars) {
        3
    } else {
        0
    };
    if start == 0 {
        let again = str_trim(trimmed);
        return crate::text::string_from_str(again);
    }
    let n = t.len();
    let end: usize = if n - start >= 3 && crate::text::chars_at(&t, n - 3, &fence_chars) {
        n - 3
    } else {
        n
    };
    let mut body: Vec<char> = Vec::new();
    crate::text::extend_range(&mut body, &t, start, end);
    proof {
        let rest = t@.skip(start as int);
        if rest.len() >= 3 && occurs_at(rest, fence(), rest.len() - 3) {
            assert(t@.subrange(n - 3, n as int) =~= rest.subrange(rest.len() - 3, rest.len() as int));
        } else if n - start >= 3 && occurs_at(t@, fence(), n - 3) {
            assert(t@.subrange(n - 3, n as int) =~= rest.subrange(rest.len() - 3, rest.len() as int));
        }
        assert(body@ =~= without_closing_fence(rest));
    }
    let body_text = string_from_chars(&body);
    let result = str_trim(body_text.as_str());
    crate::text::string_from_str(result)
}

/// One prompt line for a news item.
pub open spec fn news_line(item: NewsItem) -> Seq<char> {
    "- "@ + item.title@ + ": "@ + item.description@
}

/// The news lines of a prompt, one per item, joined by newlines.
pub open spec fn news_lines(items: Seq<NewsItem>) -> Seq<char>
    decreases items.len(),
{
    if items.len() == 0 {
        Seq::empty()
    } else if items.len() == 1 {
        news_line(items[0])
    } else {
        news_lines(items.drop_last()) + "\n"@ + news_line(items.last())
    }
}

pub open spec fn feed_unavailable_text() -> Seq<char> {
    "(źródło newsów chwilowo niedostępne - NIE twierdź, że brak jest nowych wiadomości; po prostu pomiń wątek newsowy i oprzyj się na danych liczbowych)"@
}

pub open spec fn no_matching_news_text() -> Seq<char> {
    "(feed działa, ale żaden news nie pasuje do tego instrumentu)"@
}

/// The news section of a prompt. `None` means the feed is unavailable, which
/// differs from "the feed works but nothing matches"; without that distinction
/// the model claimed there was no news when the feed had simply failed.
pub fn format_news_lines(news: Option<&[NewsItem]>) -> (r: String)
    ensures
        r@ == (match news {
            None => feed_unavailable_text(),
            Some(items) => if items@.len() == 0 {
                no_matching_news_text()
            } else {
                news_lines(items@)
            },
        }),
{
    let mut out: Vec<char> = Vec::new();
    match news {
        None => {
            extend_str(&mut out, "(źródło newsów chwilowo niedostępne - NIE twierdź, że brak jest nowych wiadomości; po prostu pomiń wątek newsowy i oprzyj się na danych liczbowych)");
        },
        Some(items) => {
            if items.len() == 0 {
                extend_str(&mut out, "(feed działa, ale żaden news nie pasuje do tego instrumentu)");
            } else {
                let n = items.len();
                let mut k: usize = 0;
                while k < n
                    invariant
                        n == items@.len(),
                        n > 0,
                        k <= n,
                        k == 0 ==> out@ == Seq::<char>::empty(),
                        k > 0 ==> out@ == news_lines(items@.take(k as int)),
                    decreases n - k,
                {
                    if k > 0 {
                        extend_str(&mut out, "\n");
                    }
                    extend_str(&mut out, "- ");
                    extend_str(&mut out, items[k].title.as_str());
                    extend_str(&mut out, ": ");
                    extend_str(&mut out, items[k].description.as_str());
                    proof {
                        let taken = items@.take(k + 1);
                        assert(taken.drop_last() =~= items@.take(k as int));
                        if k == 0 {
                            assert(taken.len() == 1);
                            assert(out@ =~= news_line(taken[0]));
                        } else {
                            assert(out@ =~= news_lines(taken.drop_last()) + "\n"@ + news_line(
                                taken.last(),
                            ));
                        }
                    }
                    k = k + 1;
                }
                assert(items@.take(n as int) =~= items@);
            }
        },
    }
    string_from_chars(&out)
}

} // verus!

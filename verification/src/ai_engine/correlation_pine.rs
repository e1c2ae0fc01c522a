//! Pine Script for an equity correlation and for the Gold/Silver Ratio: fixed,
//! hand-written templates with no model involved. The tickers come from the
//! catalogue entries the caller resolved, so an unparseable pair can never
//! silently render a script for another market.

use vstd::prelude::*;
use crate::catalog::Instrument;
use crate::text::{extend_str, string_from_chars, string_from_str};

verus! {

/// The correlation indicator for `leader` (shifted by the lag) against
/// `follower`.
pub open spec fn correlation_script(leader: Instrument, follower: Instrument) -> Seq<char> {
    "//@version=6\nindicator(\"Trading Help: "@ + leader.label@ + "/"@ + follower.label@ + " Correlation\", overlay=false)\n\nlengthInput = input.int(20, title=\"Okno korelacji (świece)\")\nlagInput = input.int(1, title=\"Przesunięcie (lag, świece)\")\n\nleaderClose = request.security(\""@ + leader.tv_ticker@ + "\", timeframe.period, close)\nfollowerClose = request.security(\""@ + follower.tv_ticker@ + "\", timeframe.period, close)\nleaderShifted = leaderClose[lagInput]\ncorrelation = ta.correlation(leaderShifted, followerClose, lengthInput)\n\nplot(correlation, title=\"Korelacja "@ + leader.label@ + "->"@ + follower.label@ + "\", color=color.aqua)\nhline(0, \"Zero\", color=color.gray)\nhline(0.5, \"+0.5\", color=color.green)\nhline(-0.5, \"-0.5\", color=color.red)\n"@
}

pub open spec fn correlation_explanation(leader: Instrument, follower: Instrument) -> Seq<char> {
    "Ten wskaźnik pokazuje, jak silnie "@ + leader.label@ + " 'przewiduje' ruch "@ + follower.label@ + " z jednodniowym wyprzedzeniem. Linia korelacji porusza się w zakresie od -1 do +1: wartości bliskie +1 oznaczają, że wzrost "@ + leader.label@ + " wczoraj zwykle poprzedza wzrost "@ + follower.label@ + " dzisiaj; wartości bliskie -1 oznaczają zależność odwrotną; wartości bliskie 0 oznaczają brak przewidywalnego związku.\n\nParametr 'Okno korelacji' (domyślnie 20 świec) to liczba dni branych pod uwagę przy każdym przeliczeniu - mniejsza wartość daje bardziej czułą, ale bardziej 'szarpaną' linię; większa wartość wygładza wykres, ale wolniej reaguje na zmiany.\n\nParametr 'Przesunięcie (lag)' określa, o ile sesji do przodu sprawdzamy wpływ - domyślnie 1, zgodnie z analizą w aplikacji. Oba parametry możesz swobodnie zmieniać w ustawieniach wskaźnika w TradingView (ikona koła zębatego przy nazwie wskaźnika)."@
}

pub open spec fn gsr_script() -> Seq<char> {
    "//@version=6\nindicator(\"Trading Help: Gold/Silver Ratio (GSR)\", overlay=false)\n\nmaLengthInput = input.int(50, title=\"Okres średniej kroczącej\")\nhighBandInput = input.float(80.0, title=\"Górne pasmo GSR\")\nlowBandInput = input.float(50.0, title=\"Dolne pasmo GSR\")\n\ngsr = request.security(\"TVC:GOLDSILVER\", timeframe.period, close)\ngsrMa = ta.sma(gsr, maLengthInput)\n\nplot(gsr, title=\"GSR\", color=color.yellow, linewidth=2)\nplot(gsrMa, title=\"Średnia krocząca GSR\", color=color.blue)\nhline(highBandInput, \"GSR wysoki\", color=color.red)\nhline(lowBandInput, \"GSR niski\", color=color.green)\n"@
}

pub open spec fn gsr_explanation() -> Seq<char> {
    "Ten wskaźnik pokazuje relację Gold/Silver Ratio (GSR) - ile uncji srebra kosztuje jedna uncja złota - bezpośrednio z wbudowanego w TradingView indeksu GOLDSILVER, więc nie musi nic samodzielnie przeliczać.\n\nŻółta linia to bieżąca wartość GSR, niebieska to jej średnia krocząca (domyślnie z 50 świec) pokazująca długoterminowy trend bez dziennego 'szumu'.\n\nCzerwona pozioma linia (domyślnie 80) oznacza historycznie wysoki poziom GSR - zwykle interpretowany jako srebro relatywnie tanie względem złota. Zielona pozioma linia (domyślnie 50) oznacza historycznie niski poziom - srebro relatywnie drogie względem złota. Oba progi możesz dowolnie zmienić w ustawieniach wskaźnika, żeby dopasować je do własnej analizy historycznej - to tylko orientacyjne wartości domyślne, nie sztywna reguła."@
}

/// The correlation indicator for a resolved pair of catalogue entries.
pub fn generate_correlation_pine_script(leader: &Instrument, follower: &Instrument) -> (r: String)
    ensures
        r@ == correlation_script(*leader, *follower),
{
    let mut out: Vec<char> = Vec::new();
    extend_str(&mut out, "//@version=6\nindicator(\"Trading Help: ");
    extend_str(&mut out, leader.label);
    extend_str(&mut out, "/");
    extend_str(&mut out, follower.label);
    extend_str(&mut out, " Correlation\", overlay=false)\n\nlengthInput = input.int(20, title=\"Okno korelacji (świece)\")\nlagInput = input.int(1, title=\"Przesunięcie (lag, świece)\")\n\nleaderClose = request.security(\"");
    extend_str(&mut out, leader.tv_ticker);
    extend_str(&mut out, "\", timeframe.period, close)\nfollowerClose = request.security(\"");
    extend_str(&mut out, follower.tv_ticker);
    extend_str(&mut out, "\", timeframe.period, close)\nleaderShifted = leaderClose[lagInput]\ncorrelation = ta.correlation(leaderShifted, followerClose, lengthInput)\n\nplot(correlation, title=\"Korelacja ");
    extend_str(&mut out, leader.label);
    extend_str(&mut out, "->");
    extend_str(&mut out, follower.label);
    extend_str(&mut out, "\", color=color.aqua)\nhline(0, \"Zero\", color=color.gray)\nhline(0.5, \"+0.5\", color=color.green)\nhline(-0.5, \"-0.5\", color=color.red)\n");
    assert(out@ =~= correlation_script(*leader, *follower));
    string_from_chars(&out)
}

/// The fixed explanation of the correlation indicator.
pub fn explain_correlation_script(leader: &Instrument, follower: &Instrument) -> (r: String)
    ensures
        r@ == correlation_explanation(*leader, *follower),
{
    let mut out: Vec<char> = Vec::new();
    extend_str(&mut out, "Ten wskaźnik pokazuje, jak silnie ");
    extend_str(&mut out, leader.label);
    extend_str(&mut out, " 'przewiduje' ruch ");
    extend_str(&mut out, follower.label);
    extend_str(&mut out, " z jednodniowym wyprzedzeniem. Linia korelacji porusza się w zakresie od -1 do +1: wartości bliskie +1 oznaczają, że wzrost ");
    extend_str(&mut out, leader.label);
    extend_str(&mut out, " wczoraj zwykle poprzedza wzrost ");
    extend_str(&mut out, follower.label);
    extend_str(&mut out, " dzisiaj; wartości bliskie -1 oznaczają zależność odwrotną; wartości bliskie 0 oznaczają brak przewidywalnego związku.\n\nParametr 'Okno korelacji' (domyślnie 20 świec) to liczba dni branych pod uwagę przy każdym przeliczeniu - mniejsza wartość daje bardziej czułą, ale bardziej 'szarpaną' linię; większa wartość wygładza wykres, ale wolniej reaguje na zmiany.\n\nParametr 'Przesunięcie (lag)' określa, o ile sesji do przodu sprawdzamy wpływ - domyślnie 1, zgodnie z analizą w aplikacji. Oba parametry możesz swobodnie zmieniać w ustawieniach wskaźnika w TradingView (ikona koła zębatego przy nazwie wskaźnika).");
    assert(out@ =~= correlation_explanation(*leader, *follower));
    string_from_chars(&out)
}

/// The Gold/Silver Ratio indicator, read straight from TradingView's
/// GOLDSILVER index.
pub fn generate_gsr_pine_script() -> (r: String)
    ensures
        r@ == gsr_script(),
{
    string_from_str("//@version=6\nindicator(\"Trading Help: Gold/Silver Ratio (GSR)\", overlay=false)\n\nmaLengthInput = input.int(50, title=\"Okres średniej kroczącej\")\nhighBandInput = input.float(80.0, title=\"Górne pasmo GSR\")\nlowBandInput = input.float(50.0, title=\"Dolne pasmo GSR\")\n\ngsr = request.security(\"TVC:GOLDSILVER\", timeframe.period, close)\ngsrMa = ta.sma(gsr, maLengthInput)\n\nplot(gsr, title=\"GSR\", color=color.yellow, linewidth=2)\nplot(gsrMa, title=\"Średnia krocząca GSR\", color=color.blue)\nhline(highBandInput, \"GSR wysoki\", color=color.red)\nhline(lowBandInput, \"GSR niski\", color=color.green)\n")
}

/// The fixed explanation of the GSR indicator.
pub fn explain_gsr_script() -> (r: String)
    ensures
        r@ == gsr_explanation(),
{
    string_from_str("Ten wskaźnik pokazuje relację Gold/Silver Ratio (GSR) - ile uncji srebra kosztuje jedna uncja złota - bezpośrednio z wbudowanego w TradingView indeksu GOLDSILVER, więc nie musi nic samodzielnie przeliczać.\n\nŻółta linia to bieżąca wartość GSR, niebieska to jej średnia krocząca (domyślnie z 50 świec) pokazująca długoterminowy trend bez dziennego 'szumu'.\n\nCzerwona pozioma linia (domyślnie 80) oznacza historycznie wysoki poziom GSR - zwykle interpretowany jako srebro relatywnie tanie względem złota. Zielona pozioma linia (domyślnie 50) oznacza historycznie niski poziom - srebro relatywnie drogie względem złota. Oba progi możesz dowolnie zmienić w ustawieniach wskaźnika, żeby dopasować je do własnej analizy historycznej - to tylko orientacyjne wartości domyślne, nie sztywna reguła.")
}

} // verus!

//! Instrument catalogue: the single source of truth for every instrument the
//! app supports. The Yahoo symbol, TradingView ticker, metal flag and news
//! keywords of an instrument are one row here, so adding an instrument means
//! adding one row and nothing else.
//!
//! Lookups never fall back to a default instrument: an unknown id is an error
//! for the caller to handle, not something to silently resolve to S&P 500.

use vstd::prelude::*;
use crate::text::{is_ascii_char, is_ascii_upper, str_eq};

verus! {

#[derive(Debug, Clone, Copy, PartialEq, Eq, Structural)]
pub enum InstrumentClass {
    Metal,
    Index,
    Etf,
    Macro,
    Sector,
    Stock,
}

#[derive(Clone, Copy)]
pub struct Instrument {
    /// Identifier used in the command API and persisted with stored tactics.
    pub id: &'static str,
    pub label: &'static str,
    /// User-facing, hence Polish.
    pub description: &'static str,
    pub yahoo_symbol: &'static str,
    /// Always exchange-qualified (`EXCHANGE:SYMBOL`): a bare symbol resolves to
    /// whatever exchange TradingView guesses.
    pub tv_ticker: &'static str,
    pub class: InstrumentClass,
    /// Catalogue id this instrument is correlated against.
    pub benchmark_id: Option<&'static str>,
    /// Catalogue id of a listed ticker that carries per-instrument news;
    /// `None` means "no news source", which must never read as zero news.
    pub news_symbol: Option<&'static str>,
    /// Whole-word matched against lower-cased English headlines. Empty means no
    /// feed covers this instrument.
    pub keywords: &'static [&'static str],
}

/// Number of catalogued instruments.
pub const CATALOG_LEN: usize = 20;

/// The catalogue rows, in display order.
pub open spec fn catalog_rows() -> Seq<Instrument> {
    seq![
        Instrument {
            id: "GOLD",
            label: "Złoto",
            description: "Kontrakt terminowy na złoto notowany na COMEX.",
            yahoo_symbol: "GC=F",
            tv_ticker: "TVC:GOLD",
            class: InstrumentClass::Metal,
            benchmark_id: Some("SILVER"),
            news_symbol: Some("GLD"),
            keywords: &["gold", "bullion", "safe haven", "precious metals"],
        },
        Instrument {
            id: "SILVER",
            label: "Srebro",
            description: "Kontrakt terminowy na srebro notowany na COMEX.",
            yahoo_symbol: "SI=F",
            tv_ticker: "TVC:SILVER",
            class: InstrumentClass::Metal,
            benchmark_id: Some("GOLD"),
            news_symbol: Some("SLV"),
            keywords: &["silver", "precious metals"],
        },
        Instrument {
            id: "GLD",
            label: "SPDR Gold Shares",
            description: "Największy ETF na złoto, zabezpieczony fizycznym kruszcem.",
            yahoo_symbol: "GLD",
            tv_ticker: "AMEX:GLD",
            class: InstrumentClass::Etf,
            benchmark_id: Some("GOLD"),
            news_symbol: Some("GLD"),
            keywords: &["gold", "bullion"],
        },
        Instrument {
            id: "SLV",
            label: "iShares Silver Trust",
            description: "Największy ETF na srebro, zabezpieczony fizycznym kruszcem.",
            yahoo_symbol: "SLV",
            tv_ticker: "AMEX:SLV",
            class: InstrumentClass::Etf,
            benchmark_id: Some("SILVER"),
            news_symbol: Some("SLV"),
            keywords: &["silver"],
        },
        Instrument {
            id: "IAU",
            label: "iShares Gold Trust",
            description: "Tańszy kosztowo odpowiednik GLD, również oparty na fizycznym złocie.",
            yahoo_symbol: "IAU",
            tv_ticker: "AMEX:IAU",
            class: InstrumentClass::Etf,
            benchmark_id: Some("GOLD"),
            news_symbol: Some("IAU"),
            keywords: &["gold", "bullion"],
        },
        Instrument {
            id: "GDX",
            label: "VanEck Gold Miners",
            description: "ETF spółek wydobywających złoto — lewarowana ekspozycja na cenę kruszcu.",
            yahoo_symbol: "GDX",
            tv_ticker: "AMEX:GDX",
            class: InstrumentClass::Etf,
            benchmark_id: Some("GLD"),
            news_symbol: Some("GDX"),
            keywords: &["gdx", "gold miners", "mining stocks"],
        },
        Instrument {
            id: "SPY",
            label: "SPDR S&P 500",
            description: "Najpłynniejszy ETF odwzorowujący indeks S&P 500.",
            yahoo_symbol: "SPY",
            tv_ticker: "AMEX:SPY",
            class: InstrumentClass::Etf,
            benchmark_id: Some("SP500"),
            news_symbol: Some("SPY"),
            keywords: &["s&p 500", "s&p500", "stock market"],
        },
        Instrument {
            id: "QQQ",
            label: "Invesco QQQ",
            description: "ETF odwzorowujący indeks Nasdaq 100, zdominowany przez big tech.",
            yahoo_symbol: "QQQ",
            tv_ticker: "NASDAQ:QQQ",
            class: InstrumentClass::Etf,
            benchmark_id: Some("NASDAQ"),
            news_symbol: Some("QQQ"),
            keywords: &["nasdaq 100", "nasdaq", "big tech"],
        },
        Instrument {
            id: "DIA",
            label: "SPDR Dow Jones",
            description: "ETF odwzorowujący indeks Dow Jones Industrial Average.",
            yahoo_symbol: "DIA",
            tv_ticker: "AMEX:DIA",
            class: InstrumentClass::Etf,
            benchmark_id: Some("DOWJONES"),
            news_symbol: Some("DIA"),
            keywords: &["dow jones", "dow industrials"],
        },
        Instrument {
            id: "IWM",
            label: "iShares Russell 2000",
            description: "ETF na indeks małych spółek Russell 2000 — barometr apetytu na ryzyko.",
            yahoo_symbol: "IWM",
            tv_ticker: "AMEX:IWM",
            class: InstrumentClass::Etf,
            benchmark_id: Some("RUSSELL2000"),
            news_symbol: Some("IWM"),
            keywords: &["russell 2000", "small caps"],
        },
        Instrument {
            id: "SP500",
            label: "S&P 500",
            description: "Indeks 500 największych spółek giełdy amerykańskiej.",
            yahoo_symbol: "^GSPC",
            tv_ticker: "SP:SPX",
            class: InstrumentClass::Index,
            benchmark_id: Some("NASDAQ"),
            news_symbol: Some("SPY"),
            keywords: &["s&p 500", "s&p500", "wall street", "stock market", "equities", "fed", "federal reserve", "inflation"],
        },
        Instrument {
            id: "NASDAQ",
            label: "NASDAQ",
            description: "Indeks giełdy Nasdaq, zdominowany przez spółki technologiczne.",
            yahoo_symbol: "^IXIC",
            tv_ticker: "NASDAQ:IXIC",
            class: InstrumentClass::Index,
            benchmark_id: Some("SP500"),
            news_symbol: Some("QQQ"),
            keywords: &["nasdaq", "tech stocks", "technology sector", "big tech", "ai stocks"],
        },
        Instrument {
            id: "DOWJONES",
            label: "Dow Jones",
            description: "Indeks 30 największych spółek przemysłowych USA.",
            yahoo_symbol: "^DJI",
            tv_ticker: "DJ:DJI",
            class: InstrumentClass::Index,
            benchmark_id: Some("SP500"),
            news_symbol: Some("DIA"),
            keywords: &["dow jones", "dow industrials", "blue chips"],
        },
        Instrument {
            id: "RUSSELL2000",
            label: "Russell 2000",
            description: "Indeks małych spółek amerykańskich, wrażliwy na koszt pieniądza.",
            yahoo_symbol: "^RUT",
            tv_ticker: "TVC:RUT",
            class: InstrumentClass::Index,
            benchmark_id: Some("SP500"),
            news_symbol: Some("IWM"),
            keywords: &["russell 2000", "small caps", "small-cap stocks"],
        },
        Instrument {
            id: "VIX",
            label: "VIX",
            description: "Indeks zmienności S&P 500, potocznie „wskaźnik strachu”.",
            yahoo_symbol: "^VIX",
            tv_ticker: "TVC:VIX",
            class: InstrumentClass::Index,
            benchmark_id: Some("SP500"),
            news_symbol: None,
            keywords: &[],
        },
        Instrument {
            id: "DXY",
            label: "Dolar (DXY)",
            description: "Indeks siły dolara wobec koszyka głównych walut.",
            yahoo_symbol: "DX-Y.NYB",
            tv_ticker: "TVC:DXY",
            class: InstrumentClass::Macro,
            benchmark_id: Some("SP500"),
            news_symbol: None,
            keywords: &[],
        },
        Instrument {
            id: "US10Y",
            label: "Rentowność 10Y",
            description: "Rentowność 10-letnich obligacji skarbowych USA.",
            yahoo_symbol: "^TNX",
            tv_ticker: "TVC:US10Y",
            class: InstrumentClass::Macro,
            benchmark_id: Some("SP500"),
            news_symbol: None,
            keywords: &[],
        },
        Instrument {
            id: "OIL",
            label: "Ropa WTI",
            description: "Kontrakt terminowy na ropę naftową WTI.",
            yahoo_symbol: "CL=F",
            tv_ticker: "TVC:USOIL",
            class: InstrumentClass::Macro,
            benchmark_id: Some("SP500"),
            news_symbol: None,
            keywords: &[],
        },
        Instrument {
            id: "XLK",
            label: "Sektor technologiczny",
            description: "ETF sektora technologicznego z indeksu S&P 500.",
            yahoo_symbol: "XLK",
            tv_ticker: "AMEX:XLK",
            class: InstrumentClass::Sector,
            benchmark_id: Some("SPY"),
            news_symbol: Some("XLK"),
            keywords: &["tech stocks", "technology sector", "semiconductors"],
        },
        Instrument {
            id: "XLE",
            label: "Sektor energetyczny",
            description: "ETF sektora energetycznego z indeksu S&P 500.",
            yahoo_symbol: "XLE",
            tv_ticker: "AMEX:XLE",
            class: InstrumentClass::Sector,
            benchmark_id: Some("SPY"),
            news_symbol: Some("XLE"),
            keywords: &["energy stocks", "energy sector", "oil majors"],
        },
    ]
}

/// The first catalogue row from position `k` on whose id is `id`.
pub open spec fn find_from(rows: Seq<Instrument>, id: Seq<char>, k: int) -> Option<Instrument>
    decreases rows.len() - k,
{
    if k < 0 || k >= rows.len() {
        None
    } else if rows[k].id@ == id {
        Some(rows[k])
    } else {
        find_from(rows, id, k + 1)
    }
}

/// The catalogue row whose id is `id`, if any.
pub open spec fn spec_find(id: Seq<char>) -> Option<Instrument> {
    find_from(catalog_rows(), id, 0)
}

/// Every catalogued instrument, in display order.
pub fn all() -> (rows: Vec<Instrument>)
    ensures
        rows@ == catalog_rows(),
{
    let rows = vec![
        Instrument {
            id: "GOLD",
            label: "Złoto",
            description: "Kontrakt terminowy na złoto notowany na COMEX.",
            yahoo_symbol: "GC=F",
            tv_ticker: "TVC:GOLD",
            class: InstrumentClass::Metal,
            benchmark_id: Some("SILVER"),
            news_symbol: Some("GLD"),
            keywords: &["gold", "bullion", "safe haven", "precious metals"],
        },
        Instrument {
            id: "SILVER",
            label: "Srebro",
            description: "Kontrakt terminowy na srebro notowany na COMEX.",
            yahoo_symbol: "SI=F",
            tv_ticker: "TVC:SILVER",
            class: InstrumentClass::Metal,
            benchmark_id: Some("GOLD"),
            news_symbol: Some("SLV"),
            keywords: &["silver", "precious metals"],
        },
        Instrument {
            id: "GLD",
            label: "SPDR Gold Shares",
            description: "Największy ETF na złoto, zabezpieczony fizycznym kruszcem.",
            yahoo_symbol: "GLD",
            tv_ticker: "AMEX:GLD",
            class: InstrumentClass::Etf,
            benchmark_id: Some("GOLD"),
            news_symbol: Some("GLD"),
            keywords: &["gold", "bullion"],
        },
        Instrument {
            id: "SLV",
            label: "iShares Silver Trust",
            description: "Największy ETF na srebro, zabezpieczony fizycznym kruszcem.",
            yahoo_symbol: "SLV",
            tv_ticker: "AMEX:SLV",
            class: InstrumentClass::Etf,
            benchmark_id: Some("SILVER"),
            news_symbol: Some("SLV"),
            keywords: &["silver"],
        },
        // Not covered by the data spike: Yahoo and news behaviour assumed.
        Instrument {
            id: "IAU",
            label: "iShares Gold Trust",
            description: "Tańszy kosztowo odpowiednik GLD, również oparty na fizycznym złocie.",
            yahoo_symbol: "IAU",
            tv_ticker: "AMEX:IAU",
            class: InstrumentClass::Etf,
            benchmark_id: Some("GOLD"),
            news_symbol: Some("IAU"),
            keywords: &["gold", "bullion"],
        },
        // "gdx" is the only ticker kept as a keyword: it does appear in gold-mining headlines, and this instrument has the thinnest news coverage of the group.
        Instrument {
            id: "GDX",
            label: "VanEck Gold Miners",
            description: "ETF spółek wydobywających złoto — lewarowana ekspozycja na cenę kruszcu.",
            yahoo_symbol: "GDX",
            tv_ticker: "AMEX:GDX",
            class: InstrumentClass::Etf,
            benchmark_id: Some("GLD"),
            news_symbol: Some("GDX"),
            keywords: &["gdx", "gold miners", "mining stocks"],
        },
        // Never "spy": it is an ordinary English word, and word boundaries do not help when the keyword itself is the false positive.
        Instrument {
            id: "SPY",
            label: "SPDR S&P 500",
            description: "Najpłynniejszy ETF odwzorowujący indeks S&P 500.",
            yahoo_symbol: "SPY",
            tv_ticker: "AMEX:SPY",
            class: InstrumentClass::Etf,
            benchmark_id: Some("SP500"),
            news_symbol: Some("SPY"),
            keywords: &["s&p 500", "s&p500", "stock market"],
        },
        Instrument {
            id: "QQQ",
            label: "Invesco QQQ",
            description: "ETF odwzorowujący indeks Nasdaq 100, zdominowany przez big tech.",
            yahoo_symbol: "QQQ",
            tv_ticker: "NASDAQ:QQQ",
            class: InstrumentClass::Etf,
            benchmark_id: Some("NASDAQ"),
            news_symbol: Some("QQQ"),
            keywords: &["nasdaq 100", "nasdaq", "big tech"],
        },
        // Not covered by the data spike. Never bare "dow": it matches Dow Inc., a chemical company covered by the same feeds.
        Instrument {
            id: "DIA",
            label: "SPDR Dow Jones",
            description: "ETF odwzorowujący indeks Dow Jones Industrial Average.",
            yahoo_symbol: "DIA",
            tv_ticker: "AMEX:DIA",
            class: InstrumentClass::Etf,
            benchmark_id: Some("DOWJONES"),
            news_symbol: Some("DIA"),
            keywords: &["dow jones", "dow industrials"],
        },
        Instrument {
            id: "IWM",
            label: "iShares Russell 2000",
            description: "ETF na indeks małych spółek Russell 2000 — barometr apetytu na ryzyko.",
            yahoo_symbol: "IWM",
            tv_ticker: "AMEX:IWM",
            class: InstrumentClass::Etf,
            benchmark_id: Some("RUSSELL2000"),
            news_symbol: Some("IWM"),
            keywords: &["russell 2000", "small caps"],
        },
        // Deliberately broad: macro drivers move the index. This is also the noisiest set in the catalogue.
        Instrument {
            id: "SP500",
            label: "S&P 500",
            description: "Indeks 500 największych spółek giełdy amerykańskiej.",
            yahoo_symbol: "^GSPC",
            tv_ticker: "SP:SPX",
            class: InstrumentClass::Index,
            benchmark_id: Some("NASDAQ"),
            news_symbol: Some("SPY"),
            keywords: &["s&p 500", "s&p500", "wall street", "stock market", "equities", "fed", "federal reserve", "inflation"],
        },
        Instrument {
            id: "NASDAQ",
            label: "NASDAQ",
            description: "Indeks giełdy Nasdaq, zdominowany przez spółki technologiczne.",
            yahoo_symbol: "^IXIC",
            tv_ticker: "NASDAQ:IXIC",
            class: InstrumentClass::Index,
            benchmark_id: Some("SP500"),
            news_symbol: Some("QQQ"),
            keywords: &["nasdaq", "tech stocks", "technology sector", "big tech", "ai stocks"],
        },
        // Not covered by the data spike: Yahoo and news behaviour assumed.
        Instrument {
            id: "DOWJONES",
            label: "Dow Jones",
            description: "Indeks 30 największych spółek przemysłowych USA.",
            yahoo_symbol: "^DJI",
            tv_ticker: "DJ:DJI",
            class: InstrumentClass::Index,
            benchmark_id: Some("SP500"),
            news_symbol: Some("DIA"),
            keywords: &["dow jones", "dow industrials", "blue chips"],
        },
        // Never bare "russell": Russell Investments and personal names.
        Instrument {
            id: "RUSSELL2000",
            label: "Russell 2000",
            description: "Indeks małych spółek amerykańskich, wrażliwy na koszt pieniądza.",
            yahoo_symbol: "^RUT",
            tv_ticker: "TVC:RUT",
            class: InstrumentClass::Index,
            benchmark_id: Some("SP500"),
            news_symbol: Some("IWM"),
            keywords: &["russell 2000", "small caps", "small-cap stocks"],
        },
        // No listed proxy carries VIX-specific news, and no feed covers volatility as an instrument; empty keywords mean "no source".
        Instrument {
            id: "VIX",
            label: "VIX",
            description: "Indeks zmienności S&P 500, potocznie „wskaźnik strachu”.",
            yahoo_symbol: "^VIX",
            tv_ticker: "TVC:VIX",
            class: InstrumentClass::Index,
            benchmark_id: Some("SP500"),
            news_symbol: None,
            keywords: &[],
        },
        Instrument {
            id: "DXY",
            label: "Dolar (DXY)",
            description: "Indeks siły dolara wobec koszyka głównych walut.",
            yahoo_symbol: "DX-Y.NYB",
            tv_ticker: "TVC:DXY",
            class: InstrumentClass::Macro,
            benchmark_id: Some("SP500"),
            news_symbol: None,
            keywords: &[],
        },
        Instrument {
            id: "US10Y",
            label: "Rentowność 10Y",
            description: "Rentowność 10-letnich obligacji skarbowych USA.",
            yahoo_symbol: "^TNX",
            tv_ticker: "TVC:US10Y",
            class: InstrumentClass::Macro,
            benchmark_id: Some("SP500"),
            news_symbol: None,
            keywords: &[],
        },
        // No macro feed yet; bare "oil" would also match "oil painting" and the like.
        Instrument {
            id: "OIL",
            label: "Ropa WTI",
            description: "Kontrakt terminowy na ropę naftową WTI.",
            yahoo_symbol: "CL=F",
            tv_ticker: "TVC:USOIL",
            class: InstrumentClass::Macro,
            benchmark_id: Some("SP500"),
            news_symbol: None,
            keywords: &[],
        },
        Instrument {
            id: "XLK",
            label: "Sektor technologiczny",
            description: "ETF sektora technologicznego z indeksu S&P 500.",
            yahoo_symbol: "XLK",
            tv_ticker: "AMEX:XLK",
            class: InstrumentClass::Sector,
            benchmark_id: Some("SPY"),
            news_symbol: Some("XLK"),
            keywords: &["tech stocks", "technology sector", "semiconductors"],
        },
        // Never bare "oil": "oil painting", "oil spill", "olive oil".
        Instrument {
            id: "XLE",
            label: "Sektor energetyczny",
            description: "ETF sektora energetycznego z indeksu S&P 500.",
            yahoo_symbol: "XLE",
            tv_ticker: "AMEX:XLE",
            class: InstrumentClass::Sector,
            benchmark_id: Some("SPY"),
            news_symbol: Some("XLE"),
            keywords: &["energy stocks", "energy sector", "oil majors"],
        },
    ];
    assert(rows@ =~= catalog_rows());
    rows
}

/// The catalogue entry for `id`; `None` for unknown ids, since callers decide
/// what an unsupported instrument means and no default is substituted. Ids are
/// case sensitive.
pub fn find(id: &str) -> (r: Option<Instrument>)
    ensures
        r == spec_find(id@),
{
    let rows = all();
    let mut k: usize = 0;
    while k < rows.len()
        invariant
            rows@ == catalog_rows(),
            k <= rows@.len(),
            find_from(rows@, id@, 0) == find_from(rows@, id@, k as int),
        decreases rows@.len() - k,
    {
        if str_eq(rows[k].id, id) {
            return Some(rows[k]);
        }
        k = k + 1;
    }
    None
}

/// The catalogued instruments of one class, in catalogue order.
pub fn by_class(class: InstrumentClass) -> (r: Vec<Instrument>)
    ensures
        r@ == catalog_rows().filter(|row: Instrument| row.class == class),
{
    let rows = all();
    let mut out: Vec<Instrument> = Vec::new();
    let mut k: usize = 0;
    while k < rows.len()
        invariant
            rows@ == catalog_rows(),
            k <= rows@.len(),
            out@ == rows@.take(k as int).filter(|row: Instrument| row.class == class),
        decreases rows@.len() - k,
    {
        let row = rows[k];
        proof {
            reveal(Seq::filter);
            assert(rows@.take(k + 1).drop_last() =~= rows@.take(k as int));
        }
        if row.class == class {
            out.push(row);
        }
        k = k + 1;
    }
    assert(rows@.take(rows@.len() as int) =~= rows@);
    out
}

/// `EXCHANGE:SYMBOL`: exactly one colon, with text on both sides of it.
pub open spec fn exchange_qualified(ticker: Seq<char>) -> bool {
    exists|c: int|
        0 < c < ticker.len() - 1 && #[trigger] ticker[c] == ':' && forall|q: int|
            0 <= q < ticker.len() && q != c ==> ticker[q] != ':'
}

/// Headlines are lower-cased and English before keywords are matched, so a
/// keyword must be ASCII without upper case to ever match.
pub open spec fn lower_case_ascii(word: Seq<char>) -> bool {
    forall|q: int| 0 <= q < word.len() ==> is_ascii_char(#[trigger] word[q]) && !is_ascii_upper(word[q])
}

/// News come only for exchange-listed tickers.
pub open spec fn is_listed(class: InstrumentClass) -> bool {
    class == InstrumentClass::Etf || class == InstrumentClass::Sector || class == InstrumentClass::Stock
}

/// What every catalogue row keeps: a description, an exchange-qualified
/// ticker, a benchmark that is another catalogued instrument, a news proxy
/// that is a catalogued listed ticker, keywords exactly when there is a news
/// source, and keywords that can match a lower-cased headline.
pub open spec fn row_is_consistent(row: Instrument) -> bool {
    &&& row.description@.len() > 0
    &&& exchange_qualified(row.tv_ticker@)
    &&& row.benchmark_id matches Some(b) ==> (b@ != row.id@ && spec_find(b@) is Some)
    &&& row.news_symbol matches Some(p) ==> (spec_find(p@) matches Some(t) && is_listed(t.class))
    &&& (row.keywords@.len() == 0) == (row.news_symbol is None)
    &&& forall|k: int| 0 <= k < row.keywords@.len() ==> lower_case_ascii(#[trigger] row.keywords@[k]@)
}

proof fn lemma_find_from_row(rows: Seq<Instrument>, id: Seq<char>, k: int, j: int)
    requires
        0 <= k <= j < rows.len(),
        rows[j].id@ == id,
        forall|q: int| k <= q < j ==> rows[q].id@ != id,
    ensures
        find_from(rows, id, k) == Some(rows[j]),
    decreases j - k,
{
    if k < j {
        lemma_find_from_row(rows, id, k + 1, j);
    }
}
/// The catalogue ids, spelled out.
proof fn lemma_catalog_ids()
    ensures
        catalog_rows()[0].id@ == seq!['G', 'O', 'L', 'D'],
        catalog_rows()[1].id@ == seq!['S', 'I', 'L', 'V', 'E', 'R'],
        catalog_rows()[2].id@ == seq!['G', 'L', 'D'],
        catalog_rows()[3].id@ == seq!['S', 'L', 'V'],
        catalog_rows()[4].id@ == seq!['I', 'A', 'U'],
        catalog_rows()[5].id@ == seq!['G', 'D', 'X'],
        catalog_rows()[6].id@ == seq!['S', 'P', 'Y'],
        catalog_rows()[7].id@ == seq!['Q', 'Q', 'Q'],
        catalog_rows()[8].id@ == seq!['D', 'I', 'A'],
        catalog_rows()[9].id@ == seq!['I', 'W', 'M'],
        catalog_rows()[10].id@ == seq!['S', 'P', '5', '0', '0'],
        catalog_rows()[11].id@ == seq!['N', 'A', 'S', 'D', 'A', 'Q'],
        catalog_rows()[12].id@ == seq!['D', 'O', 'W', 'J', 'O', 'N', 'E', 'S'],
        catalog_rows()[13].id@ == seq!['R', 'U', 'S', 'S', 'E', 'L', 'L', '2', '0', '0', '0'],
        catalog_rows()[14].id@ == seq!['V', 'I', 'X'],
        catalog_rows()[15].id@ == seq!['D', 'X', 'Y'],
        catalog_rows()[16].id@ == seq!['U', 'S', '1', '0', 'Y'],
        catalog_rows()[17].id@ == seq!['O', 'I', 'L'],
        catalog_rows()[18].id@ == seq!['X', 'L', 'K'],
        catalog_rows()[19].id@ == seq!['X', 'L', 'E'],
{
    reveal_strlit("GOLD");
    reveal_strlit("SILVER");
    reveal_strlit("GLD");
    reveal_strlit("SLV");
    reveal_strlit("IAU");
    reveal_strlit("GDX");
    reveal_strlit("SPY");
    reveal_strlit("QQQ");
    reveal_strlit("DIA");
    reveal_strlit("IWM");
    reveal_strlit("SP500");
    reveal_strlit("NASDAQ");
    reveal_strlit("DOWJONES");
    reveal_strlit("RUSSELL2000");
    reveal_strlit("VIX");
    reveal_strlit("DXY");
    reveal_strlit("US10Y");
    reveal_strlit("OIL");
    reveal_strlit("XLK");
    reveal_strlit("XLE");
}

proof fn lemma_catalog_ids_unique()
    ensures
        forall|i: int, j: int|
            0 <= i < 20 && 0 <= j < 20 && #[trigger] catalog_rows()[i].id@ == #[trigger] catalog_rows()[j].id@ ==> i == j,
{
    lemma_catalog_ids();
    assert forall|j: int| 0 <= j < 20 && #[trigger] catalog_rows()[j].id@ == catalog_rows()[0].id@ implies j == 0 by {
        assert(j == 0 || j == 1 || j == 2 || j == 3 || j == 4 || j == 5 || j == 6 || j == 7 || j == 8 || j == 9 || j == 10 || j == 11 || j == 12 || j == 13 || j == 14 || j == 15 || j == 16 || j == 17 || j == 18 || j == 19);
    }
    assert forall|j: int| 0 <= j < 20 && #[trigger] catalog_rows()[j].id@ == catalog_rows()[1].id@ implies j == 1 by {
        assert(j == 0 || j == 1 || j == 2 || j == 3 || j == 4 || j == 5 || j == 6 || j == 7 || j == 8 || j == 9 || j == 10 || j == 11 || j == 12 || j == 13 || j == 14 || j == 15 || j == 16 || j == 17 || j == 18 || j == 19);
    }
    assert forall|j: int| 0 <= j < 20 && #[trigger] catalog_rows()[j].id@ == catalog_rows()[2].id@ implies j == 2 by {
        assert(j == 0 || j == 1 || j == 2 || j == 3 || j == 4 || j == 5 || j == 6 || j == 7 || j == 8 || j == 9 || j == 10 || j == 11 || j == 12 || j == 13 || j == 14 || j == 15 || j == 16 || j == 17 || j == 18 || j == 19);
    }
    assert forall|j: int| 0 <= j < 20 && #[trigger] catalog_rows()[j].id@ == catalog_rows()[3].id@ implies j == 3 by {
        assert(j == 0 || j == 1 || j == 2 || j == 3 || j == 4 || j == 5 || j == 6 || j == 7 || j == 8 || j == 9 || j == 10 || j == 11 || j == 12 || j == 13 || j == 14 || j == 15 || j == 16 || j == 17 || j == 18 || j == 19);
    }
    assert forall|j: int| 0 <= j < 20 && #[trigger] catalog_rows()[j].id@ == catalog_rows()[4].id@ implies j == 4 by {
        assert(j == 0 || j == 1 || j == 2 || j == 3 || j == 4 || j == 5 || j == 6 || j == 7 || j == 8 || j == 9 || j == 10 || j == 11 || j == 12 || j == 13 || j == 14 || j == 15 || j == 16 || j == 17 || j == 18 || j == 19);
    }
    assert forall|j: int| 0 <= j < 20 && #[trigger] catalog_rows()[j].id@ == catalog_rows()[5].id@ implies j == 5 by {
        assert(j == 0 || j == 1 || j == 2 || j == 3 || j == 4 || j == 5 || j == 6 || j == 7 || j == 8 || j == 9 || j == 10 || j == 11 || j == 12 || j == 13 || j == 14 || j == 15 || j == 16 || j == 17 || j == 18 || j == 19);
    }
    assert forall|j: int| 0 <= j < 20 && #[trigger] catalog_rows()[j].id@ == catalog_rows()[6].id@ implies j == 6 by {
        assert(j == 0 || j == 1 || j == 2 || j == 3 || j == 4 || j == 5 || j == 6 || j == 7 || j == 8 || j == 9 || j == 10 || j == 11 || j == 12 || j == 13 || j == 14 || j == 15 || j == 16 || j == 17 || j == 18 || j == 19);
    }
    assert forall|j: int| 0 <= j < 20 && #[trigger] catalog_rows()[j].id@ == catalog_rows()[7].id@ implies j == 7 by {
        assert(j == 0 || j == 1 || j == 2 || j == 3 || j == 4 || j == 5 || j == 6 || j == 7 || j == 8 || j == 9 || j == 10 || j == 11 || j == 12 || j == 13 || j == 14 || j == 15 || j == 16 || j == 17 || j == 18 || j == 19);
    }
    assert forall|j: int| 0 <= j < 20 && #[trigger] catalog_rows()[j].id@ == catalog_rows()[8].id@ implies j == 8 by {
        assert(j == 0 || j == 1 || j == 2 || j == 3 || j == 4 || j == 5 || j == 6 || j == 7 || j == 8 || j == 9 || j == 10 || j == 11 || j == 12 || j == 13 || j == 14 || j == 15 || j == 16 || j == 17 || j == 18 || j == 19);
    }
    assert forall|j: int| 0 <= j < 20 && #[trigger] catalog_rows()[j].id@ == catalog_rows()[9].id@ implies j == 9 by {
        assert(j == 0 || j == 1 || j == 2 || j == 3 || j == 4 || j == 5 || j == 6 || j == 7 || j == 8 || j == 9 || j == 10 || j == 11 || j == 12 || j == 13 || j == 14 || j == 15 || j == 16 || j == 17 || j == 18 || j == 19);
    }
    assert forall|j: int| 0 <= j < 20 && #[trigger] catalog_rows()[j].id@ == catalog_rows()[10].id@ implies j == 10 by {
        assert(j == 0 || j == 1 || j == 2 || j == 3 || j == 4 || j == 5 || j == 6 || j == 7 || j == 8 || j == 9 || j == 10 || j == 11 || j == 12 || j == 13 || j == 14 || j == 15 || j == 16 || j == 17 || j == 18 || j == 19);
    }
    assert forall|j: int| 0 <= j < 20 && #[trigger] catalog_rows()[j].id@ == catalog_rows()[11].id@ implies j == 11 by {
        assert(j == 0 || j == 1 || j == 2 || j == 3 || j == 4 || j == 5 || j == 6 || j == 7 || j == 8 || j == 9 || j == 10 || j == 11 || j == 12 || j == 13 || j == 14 || j == 15 || j == 16 || j == 17 || j == 18 || j == 19);
    }
    assert forall|j: int| 0 <= j < 20 && #[trigger] catalog_rows()[j].id@ == catalog_rows()[12].id@ implies j == 12 by {
        assert(j == 0 || j == 1 || j == 2 || j == 3 || j == 4 || j == 5 || j == 6 || j == 7 || j == 8 || j == 9 || j == 10 || j == 11 || j == 12 || j == 13 || j == 14 || j == 15 || j == 16 || j == 17 || j == 18 || j == 19);
    }
    assert forall|j: int| 0 <= j < 20 && #[trigger] catalog_rows()[j].id@ == catalog_rows()[13].id@ implies j == 13 by {
        assert(j == 0 || j == 1 || j == 2 || j == 3 || j == 4 || j == 5 || j == 6 || j == 7 || j == 8 || j == 9 || j == 10 || j == 11 || j == 12 || j == 13 || j == 14 || j == 15 || j == 16 || j == 17 || j == 18 || j == 19);
    }
    assert forall|j: int| 0 <= j < 20 && #[trigger] catalog_rows()[j].id@ == catalog_rows()[14].id@ implies j == 14 by {
        assert(j == 0 || j == 1 || j == 2 || j == 3 || j == 4 || j == 5 || j == 6 || j == 7 || j == 8 || j == 9 || j == 10 || j == 11 || j == 12 || j == 13 || j == 14 || j == 15 || j == 16 || j == 17 || j == 18 || j == 19);
    }
    assert forall|j: int| 0 <= j < 20 && #[trigger] catalog_rows()[j].id@ == catalog_rows()[15].id@ implies j == 15 by {
        assert(j == 0 || j == 1 || j == 2 || j == 3 || j == 4 || j == 5 || j == 6 || j == 7 || j == 8 || j == 9 || j == 10 || j == 11 || j == 12 || j == 13 || j == 14 || j == 15 || j == 16 || j == 17 || j == 18 || j == 19);
    }
    assert forall|j: int| 0 <= j < 20 && #[trigger] catalog_rows()[j].id@ == catalog_rows()[16].id@ implies j == 16 by {
        assert(j == 0 || j == 1 || j == 2 || j == 3 || j == 4 || j == 5 || j == 6 || j == 7 || j == 8 || j == 9 || j == 10 || j == 11 || j == 12 || j == 13 || j == 14 || j == 15 || j == 16 || j == 17 || j == 18 || j == 19);
    }
    assert forall|j: int| 0 <= j < 20 && #[trigger] catalog_rows()[j].id@ == catalog_rows()[17].id@ implies j == 17 by {
        assert(j == 0 || j == 1 || j == 2 || j == 3 || j == 4 || j == 5 || j == 6 || j == 7 || j == 8 || j == 9 || j == 10 || j == 11 || j == 12 || j == 13 || j == 14 || j == 15 || j == 16 || j == 17 || j == 18 || j == 19);
    }
    assert forall|j: int| 0 <= j < 20 && #[trigger] catalog_rows()[j].id@ == catalog_rows()[18].id@ implies j == 18 by {
        assert(j == 0 || j == 1 || j == 2 || j == 3 || j == 4 || j == 5 || j == 6 || j == 7 || j == 8 || j == 9 || j == 10 || j == 11 || j == 12 || j == 13 || j == 14 || j == 15 || j == 16 || j == 17 || j == 18 || j == 19);
    }
    assert forall|j: int| 0 <= j < 20 && #[trigger] catalog_rows()[j].id@ == catalog_rows()[19].id@ implies j == 19 by {
        assert(j == 0 || j == 1 || j == 2 || j == 3 || j == 4 || j == 5 || j == 6 || j == 7 || j == 8 || j == 9 || j == 10 || j == 11 || j == 12 || j == 13 || j == 14 || j == 15 || j == 16 || j == 17 || j == 18 || j == 19);
    }
    assert forall|i: int, j: int|
        0 <= i < 20 && 0 <= j < 20 && #[trigger] catalog_rows()[i].id@ == #[trigger] catalog_rows()[j].id@ implies i == j by {
        assert(i == 0 || i == 1 || i == 2 || i == 3 || i == 4 || i == 5 || i == 6 || i == 7 || i == 8 || i == 9 || i == 10 || i == 11 || i == 12 || i == 13 || i == 14 || i == 15 || i == 16 || i == 17 || i == 18 || i == 19);
    }
}

/// Every catalogue row is consistent (see `row_is_consistent`).
proof fn lemma_rows_consistent()
    ensures
        forall|i: int| 0 <= i < 20 ==> row_is_consistent(#[trigger] catalog_rows()[i]),
{
    lemma_catalog_ids();
    lemma_catalog_ids_unique();
    reveal_strlit("AMEX:DIA");
    reveal_strlit("AMEX:GDX");
    reveal_strlit("AMEX:GLD");
    reveal_strlit("AMEX:IAU");
    reveal_strlit("AMEX:IWM");
    reveal_strlit("AMEX:SLV");
    reveal_strlit("AMEX:SPY");
    reveal_strlit("AMEX:XLE");
    reveal_strlit("AMEX:XLK");
    reveal_strlit("DJ:DJI");
    reveal_strlit("ETF na indeks małych spółek Russell 2000 — barometr apetytu na ryzyko.");
    reveal_strlit("ETF odwzorowujący indeks Dow Jones Industrial Average.");
    reveal_strlit("ETF odwzorowujący indeks Nasdaq 100, zdominowany przez big tech.");
    reveal_strlit("ETF sektora energetycznego z indeksu S&P 500.");
    reveal_strlit("ETF sektora technologicznego z indeksu S&P 500.");
    reveal_strlit("ETF spółek wydobywających złoto — lewarowana ekspozycja na cenę kruszcu.");
    reveal_strlit("Indeks 30 największych spółek przemysłowych USA.");
    reveal_strlit("Indeks 500 największych spółek giełdy amerykańskiej.");
    reveal_strlit("Indeks giełdy Nasdaq, zdominowany przez spółki technologiczne.");
    reveal_strlit("Indeks małych spółek amerykańskich, wrażliwy na koszt pieniądza.");
    reveal_strlit("Indeks siły dolara wobec koszyka głównych walut.");
    reveal_strlit("Indeks zmienności S&P 500, potocznie „wskaźnik strachu”.");
    reveal_strlit("Kontrakt terminowy na ropę naftową WTI.");
    reveal_strlit("Kontrakt terminowy na srebro notowany na COMEX.");
    reveal_strlit("Kontrakt terminowy na złoto notowany na COMEX.");
    reveal_strlit("NASDAQ:IXIC");
    reveal_strlit("NASDAQ:QQQ");
    reveal_strlit("Najpłynniejszy ETF odwzorowujący indeks S&P 500.");
    reveal_strlit("Największy ETF na srebro, zabezpieczony fizycznym kruszcem.");
    reveal_strlit("Największy ETF na złoto, zabezpieczony fizycznym kruszcem.");
    reveal_strlit("Rentowność 10-letnich obligacji skarbowych USA.");
    reveal_strlit("SP:SPX");
    reveal_strlit("TVC:DXY");
    reveal_strlit("TVC:GOLD");
    reveal_strlit("TVC:RUT");
    reveal_strlit("TVC:SILVER");
    reveal_strlit("TVC:US10Y");
    reveal_strlit("TVC:USOIL");
    reveal_strlit("TVC:VIX");
    reveal_strlit("Tańszy kosztowo odpowiednik GLD, również oparty na fizycznym złocie.");
    reveal_strlit("ai stocks");
    reveal_strlit("big tech");
    reveal_strlit("blue chips");
    reveal_strlit("bullion");
    reveal_strlit("dow industrials");
    reveal_strlit("dow jones");
    reveal_strlit("energy sector");
    reveal_strlit("energy stocks");
    reveal_strlit("equities");
    reveal_strlit("fed");
    reveal_strlit("federal reserve");
    reveal_strlit("gdx");
    reveal_strlit("gold");
    reveal_strlit("gold miners");
    reveal_strlit("inflation");
    reveal_strlit("mining stocks");
    reveal_strlit("nasdaq");
    reveal_strlit("nasdaq 100");
    reveal_strlit("oil majors");
    reveal_strlit("precious metals");
    reveal_strlit("russell 2000");
    reveal_strlit("s&p 500");
    reveal_strlit("s&p500");
    reveal_strlit("safe haven");
    reveal_strlit("semiconductors");
    reveal_strlit("silver");
    reveal_strlit("small caps");
    reveal_strlit("small-cap stocks");
    reveal_strlit("stock market");
    reveal_strlit("tech stocks");
    reveal_strlit("technology sector");
    reveal_strlit("wall street");
    assert(catalog_rows()[0].tv_ticker@[3] == ':');
    lemma_find_from_row(catalog_rows(), catalog_rows()[1].id@, 0, 1);
    lemma_find_from_row(catalog_rows(), catalog_rows()[2].id@, 0, 2);
    assert(row_is_consistent(catalog_rows()[0]));
    assert(catalog_rows()[1].tv_ticker@[3] == ':');
    lemma_find_from_row(catalog_rows(), catalog_rows()[0].id@, 0, 0);
    lemma_find_from_row(catalog_rows(), catalog_rows()[3].id@, 0, 3);
    assert(row_is_consistent(catalog_rows()[1]));
    assert(catalog_rows()[2].tv_ticker@[4] == ':');
    lemma_find_from_row(catalog_rows(), catalog_rows()[0].id@, 0, 0);
    lemma_find_from_row(catalog_rows(), catalog_rows()[2].id@, 0, 2);
    assert(row_is_consistent(catalog_rows()[2]));
    assert(catalog_rows()[3].tv_ticker@[4] == ':');
    lemma_find_from_row(catalog_rows(), catalog_rows()[1].id@, 0, 1);
    lemma_find_from_row(catalog_rows(), catalog_rows()[3].id@, 0, 3);
    assert(row_is_consistent(catalog_rows()[3]));
    assert(catalog_rows()[4].tv_ticker@[4] == ':');
    lemma_find_from_row(catalog_rows(), catalog_rows()[0].id@, 0, 0);
    lemma_find_from_row(catalog_rows(), catalog_rows()[4].id@, 0, 4);
    assert(row_is_consistent(catalog_rows()[4]));
    assert(catalog_rows()[5].tv_ticker@[4] == ':');
    lemma_find_from_row(catalog_rows(), catalog_rows()[2].id@, 0, 2);
    lemma_find_from_row(catalog_rows(), catalog_rows()[5].id@, 0, 5);
    assert(row_is_consistent(catalog_rows()[5]));
    assert(catalog_rows()[6].tv_ticker@[4] == ':');
    lemma_find_from_row(catalog_rows(), catalog_rows()[10].id@, 0, 10);
    lemma_find_from_row(catalog_rows(), catalog_rows()[6].id@, 0, 6);
    assert(row_is_consistent(catalog_rows()[6]));
    assert(catalog_rows()[7].tv_ticker@[6] == ':');
    lemma_find_from_row(catalog_rows(), catalog_rows()[11].id@, 0, 11);
    lemma_find_from_row(catalog_rows(), catalog_rows()[7].id@, 0, 7);
    assert(row_is_consistent(catalog_rows()[7]));
    assert(catalog_rows()[8].tv_ticker@[4] == ':');
    lemma_find_from_row(catalog_rows(), catalog_rows()[12].id@, 0, 12);
    lemma_find_from_row(catalog_rows(), catalog_rows()[8].id@, 0, 8);
    assert(row_is_consistent(catalog_rows()[8]));
    assert(catalog_rows()[9].tv_ticker@[4] == ':');
    lemma_find_from_row(catalog_rows(), catalog_rows()[13].id@, 0, 13);
    lemma_find_from_row(catalog_rows(), catalog_rows()[9].id@, 0, 9);
    assert(row_is_consistent(catalog_rows()[9]));
    assert(catalog_rows()[10].tv_ticker@[2] == ':');
    lemma_find_from_row(catalog_rows(), catalog_rows()[11].id@, 0, 11);
    lemma_find_from_row(catalog_rows(), catalog_rows()[6].id@, 0, 6);
    assert(row_is_consistent(catalog_rows()[10]));
    assert(catalog_rows()[11].tv_ticker@[6] == ':');
    lemma_find_from_row(catalog_rows(), catalog_rows()[10].id@, 0, 10);
    lemma_find_from_row(catalog_rows(), catalog_rows()[7].id@, 0, 7);
    assert(row_is_consistent(catalog_rows()[11]));
    assert(catalog_rows()[12].tv_ticker@[2] == ':');
    lemma_find_from_row(catalog_rows(), catalog_rows()[10].id@, 0, 10);
    lemma_find_from_row(catalog_rows(), catalog_rows()[8].id@, 0, 8);
    assert(row_is_consistent(catalog_rows()[12]));
    assert(catalog_rows()[13].tv_ticker@[3] == ':');
    lemma_find_from_row(catalog_rows(), catalog_rows()[10].id@, 0, 10);
    lemma_find_from_row(catalog_rows(), catalog_rows()[9].id@, 0, 9);
    assert(row_is_consistent(catalog_rows()[13]));
    assert(catalog_rows()[14].tv_ticker@[3] == ':');
    lemma_find_from_row(catalog_rows(), catalog_rows()[10].id@, 0, 10);
    assert(row_is_consistent(catalog_rows()[14]));
    assert(catalog_rows()[15].tv_ticker@[3] == ':');
    lemma_find_from_row(catalog_rows(), catalog_rows()[10].id@, 0, 10);
    assert(row_is_consistent(catalog_rows()[15]));
    assert(catalog_rows()[16].tv_ticker@[3] == ':');
    lemma_find_from_row(catalog_rows(), catalog_rows()[10].id@, 0, 10);
    assert(row_is_consistent(catalog_rows()[16]));
    assert(catalog_rows()[17].tv_ticker@[3] == ':');
    lemma_find_from_row(catalog_rows(), catalog_rows()[10].id@, 0, 10);
    assert(row_is_consistent(catalog_rows()[17]));
    assert(catalog_rows()[18].tv_ticker@[4] == ':');
    lemma_find_from_row(catalog_rows(), catalog_rows()[6].id@, 0, 6);
    lemma_find_from_row(catalog_rows(), catalog_rows()[18].id@, 0, 18);
    assert(row_is_consistent(catalog_rows()[18]));
    assert(catalog_rows()[19].tv_ticker@[4] == ':');
    lemma_find_from_row(catalog_rows(), catalog_rows()[6].id@, 0, 6);
    lemma_find_from_row(catalog_rows(), catalog_rows()[19].id@, 0, 19);
    assert(row_is_consistent(catalog_rows()[19]));
    assert forall|i: int| 0 <= i < 20 implies row_is_consistent(#[trigger] catalog_rows()[i]) by {
        assert(i == 0 || i == 1 || i == 2 || i == 3 || i == 4 || i == 5 || i == 6 || i == 7 || i == 8 || i == 9 || i == 10 || i == 11 || i == 12 || i == 13 || i == 14 || i == 15 || i == 16 || i == 17 || i == 18 || i == 19);
    }
}

/// The catalogue is consistent as a whole: no id occurs twice, and every row
/// keeps `row_is_consistent`, so each benchmark and news proxy that `find`
/// is asked for resolves.
pub proof fn law_catalogue_is_consistent()
    ensures
        forall|i: int, j: int|
            0 <= i < j < catalog_rows().len() ==> catalog_rows()[i].id@ != catalog_rows()[j].id@,
        forall|i: int| 0 <= i < catalog_rows().len() ==> row_is_consistent(#[trigger] catalog_rows()[i]),
{
    lemma_catalog_ids_unique();
    lemma_rows_consistent();
}

} // verus!

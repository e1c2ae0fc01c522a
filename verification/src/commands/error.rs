//! The error every command returns. The frontend receives `message()`.

use vstd::prelude::*;
use crate::ai_engine::{error_message, AiEngineError, AiErrorView};
use crate::market_engine::{market_error_message, MarketDataError, MarketDataErrorView};
use crate::text::{extend_str, string_from_chars};

verus! {

#[derive(Debug)]
pub enum CommandError {
    /// Passed through unchanged: the market engine already tells a source
    /// outage from an instrument with too little history.
    MarketData(MarketDataError),
    Ai(AiEngineError),
    Storage(String),
    Keychain(String),
    /// A quote task never returned. Kept apart from a fetch failure (the fault
    /// is inside the application) and without details, which belong in the log.
    LiveQuoteTaskFailed,
    UnknownInstrument(String),
    InvalidTicker(String),
    /// A tactic priced at zero would score every target as hit, so it never
    /// reaches the store. `price` is the price as displayed.
    InvalidReferencePrice { instrument: String, price: String },
}

pub enum CommandErrorView {
    MarketData(MarketDataErrorView),
    Ai(AiErrorView),
    Storage(Seq<char>),
    Keychain(Seq<char>),
    LiveQuoteTaskFailed,
    UnknownInstrument(Seq<char>),
    InvalidTicker(Seq<char>),
    InvalidReferencePrice { instrument: Seq<char>, price: Seq<char> },
}

impl View for CommandError {
    type V = CommandErrorView;

    open spec fn view(&self) -> CommandErrorView {
        match self {
            CommandError::MarketData(e) => CommandErrorView::MarketData(e@),
            CommandError::Ai(e) => CommandErrorView::Ai(e@),
            CommandError::Storage(s) => CommandErrorView::Storage(s@),
            CommandError::Keychain(s) => CommandErrorView::Keychain(s@),
            CommandError::LiveQuoteTaskFailed => CommandErrorView::LiveQuoteTaskFailed,
            CommandError::UnknownInstrument(s) => CommandErrorView::UnknownInstrument(s@),
            CommandError::InvalidTicker(s) => CommandErrorView::InvalidTicker(s@),
            CommandError::InvalidReferencePrice { instrument, price } =>
                CommandErrorView::InvalidReferencePrice { instrument: instrument@, price: price@ },
        }
    }
}

pub open spec fn command_error_message(e: CommandErrorView) -> Seq<char> {
    match e {
        CommandErrorView::MarketData(m) => market_error_message(m),
        CommandErrorView::Ai(a) => error_message(a),
        CommandErrorView::Storage(s) => "Błąd zapisu/odczytu lokalnej historii: "@ + s,
        CommandErrorView::Keychain(s) => "Błąd magazynu kluczy systemu: "@ + s,
        CommandErrorView::LiveQuoteTaskFailed => "Pobieranie notowań nie zostało dokończone. Szczegóły zapisano w logu."@,
        CommandErrorView::UnknownInstrument(s) => "Nieznany instrument: "@ + s,
        CommandErrorView::InvalidTicker(s) => "Nieprawidłowy symbol tickera: "@ + s,
        CommandErrorView::InvalidReferencePrice { instrument, price } => "Nieprawidłowa cena odniesienia dla "@
            + instrument + ": "@ + price + ". Taktyka nie została zapisana."@,
    }
}

impl CommandError {
    /// The message shown to the user.
    pub fn message(&self) -> (r: String)
        ensures
            r@ == command_error_message(self@),
    {
        match self {
            CommandError::MarketData(e) => e.message(),
            CommandError::Ai(e) => e.message(),
            _ => {
                let mut out: Vec<char> = Vec::new();
                match self {
                    CommandError::Storage(s) => {
                        extend_str(&mut out, "Błąd zapisu/odczytu lokalnej historii: ");
                        extend_str(&mut out, s.as_str());
                    },
                    CommandError::Keychain(s) => {
                        extend_str(&mut out, "Błąd magazynu kluczy systemu: ");
                        extend_str(&mut out, s.as_str());
                    },
                    CommandError::LiveQuoteTaskFailed => {
                        extend_str(&mut out, "Pobieranie notowań nie zostało dokończone. Szczegóły zapisano w logu.");
                    },
                    CommandError::UnknownInstrument(s) => {
                        extend_str(&mut out, "Nieznany instrument: ");
                        extend_str(&mut out, s.as_str());
                    },
                    CommandError::InvalidTicker(s) => {
                        extend_str(&mut out, "Nieprawidłowy symbol tickera: ");
                        extend_str(&mut out, s.as_str());
                    },
                    CommandError::InvalidReferencePrice { instrument, price } => {
                        extend_str(&mut out, "Nieprawidłowa cena odniesienia dla ");
                        extend_str(&mut out, instrument.as_str());
                        extend_str(&mut out, ": ");
                        extend_str(&mut out, price.as_str());
                        extend_str(&mut out, ". Taktyka nie została zapisana.");
                    },
                    _ => {},
                }
                assert(out@ =~= command_error_message(self@));
                string_from_chars(&out)
            },
        }
    }
}

} // verus!

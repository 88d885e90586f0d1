//! What can go wrong while a party file is read or written.

use vstd::prelude::*;

verus! {

/// The errors of this library. Each carries the text that explains it.
#[derive(Debug)]
pub enum PartyError {
    /// A pattern of an injected grammar is no regular expression; carries the
    /// pattern.
    GrammarCompileError(String),
    /// The text does not have the shape of a party file, or a record does not
    /// have the shape that the file can hold; carries a message for a human.
    ParsingError(String),
    /// A level or a happiness is no number from 0 to 255; carries the text
    /// that was found in its place.
    ParseIntError(String),
    /// A gender code is none of the known ones; carries the code.
    GenderConversionError(String),
}

/// What a [`PartyError`] holds, as mathematical values.
pub ghost enum PartyErrorView {
    GrammarCompileError(Seq<char>),
    ParsingError(Seq<char>),
    ParseIntError(Seq<char>),
    GenderConversionError(Seq<char>),
}

impl View for PartyError {
    type V = PartyErrorView;

    open spec fn view(&self) -> PartyErrorView {
        match self {
            PartyError::GrammarCompileError(s) => PartyErrorView::GrammarCompileError(s@),
            PartyError::ParsingError(s) => PartyErrorView::ParsingError(s@),
            PartyError::ParseIntError(s) => PartyErrorView::ParseIntError(s@),
            PartyError::GenderConversionError(s) => PartyErrorView::GenderConversionError(s@),
        }
    }
}

} // verus!

//! Tokens produced by the scanner: a kind, the source text, and a position.

use crate::location::loc_str;
use crate::location::SourceLocation;
use vstd::prelude::*;
use vstd::string::*;

verus! {

/// The kind of a token.
#[derive(Debug, Clone, Copy, PartialEq, Eq, Structural)]
pub enum LexerTokenType {
    ParenOpen,
    ParenClose,
    FloatToken,
    IntToken,
    VarToken,
    PlusToken,
    MinusToken,
    DivideToken,
    MultiplyToken,
    AssignToken,
    PrintToken,
    Space,
    Tab,
    Newline,
    Eof,
}

/// The display name of a token kind.
pub open spec fn kind_name(t: LexerTokenType) -> Seq<char> {
    match t {
        LexerTokenType::ParenOpen => "ParenOpen"@,
        LexerTokenType::ParenClose => "ParenClose"@,
        LexerTokenType::FloatToken => "FloatToken"@,
        LexerTokenType::IntToken => "IntToken"@,
        LexerTokenType::VarToken => "VarToken"@,
        LexerTokenType::PlusToken => "PlusToken"@,
        LexerTokenType::MinusToken => "MinusToken"@,
        LexerTokenType::DivideToken => "DivideToken"@,
        LexerTokenType::MultiplyToken => "MultiplyToken"@,
        LexerTokenType::AssignToken => "AssignToken"@,
        LexerTokenType::PrintToken => "PrintToken"@,
        LexerTokenType::Space => "Space"@,
        LexerTokenType::Tab => "Tab"@,
        LexerTokenType::Newline => "Newline"@,
        LexerTokenType::Eof => "Eof"@,
    }
}

impl LexerTokenType {
    /// The display name of this token kind.
    pub fn to_string(&self) -> (r: &'static str)
        ensures
            r@ == kind_name(*self),
    {
        match self {
            LexerTokenType::ParenOpen => "ParenOpen",
            LexerTokenType::ParenClose => "ParenClose",
            LexerTokenType::FloatToken => "FloatToken",
            LexerTokenType::IntToken => "IntToken",
            LexerTokenType::VarToken => "VarToken",
            LexerTokenType::PlusToken => "PlusToken",
            LexerTokenType::MinusToken => "MinusToken",
            LexerTokenType::DivideToken => "DivideToken",
            LexerTokenType::MultiplyToken => "MultiplyToken",
            LexerTokenType::AssignToken => "AssignToken",
            LexerTokenType::PrintToken => "PrintToken",
            LexerTokenType::Space => "Space",
            LexerTokenType::Tab => "Tab",
            LexerTokenType::Newline => "Newline",
            LexerTokenType::Eof => "Eof",
        }
    }
}

/// A classified fragment of source text together with its position.
#[derive(Debug)]
pub struct LexerToken {
    pub value: String,
    pub location: SourceLocation,
    pub type_: LexerTokenType,
}

/// The rendering `[text] -> \t<line:L, col:C>;\t Kind` of a token.
pub open spec fn token_str(t: &LexerToken) -> Seq<char> {
    "["@ + t.value@ + "] -> \t"@ + loc_str(
        t.location.spec_line() as nat,
        t.location.spec_col() as nat,
    ) + ";\t "@ + kind_name(t.type_)
}

impl LexerToken {
    /// Renders the token's text, position and kind on one line.
    pub fn to_string(&self) -> (r: String)
        ensures
            r@ == token_str(self),
    {
        let mut s = String::from_str("[");
        s.append(self.value.as_str());
        s.append("] -> \t");
        s.append(self.location.to_string().as_str());
        s.append(";\t ");
        s.append(self.type_.to_string());
        s
    }
}

} // verus!

use vstd::prelude::*;

use crate::text::push_str;

verus! {

/// Which field of a line a rejected token came from.
#[derive(Clone, Copy, Debug, PartialEq, Eq, Structural)]
pub enum TokenType {
    Instruction,
    Operand,
    Label,
}

/// An error of the whole assembly: the line (numbered from 1, or 0 for the
/// end of the program), its text and a message.
#[derive(Debug, Clone)]
pub struct AssemblyError {
    pub line_number: usize,
    pub line_text: String,
    pub message: String,
}

/// A token that the assembler cannot accept.
#[derive(Debug, Clone)]
pub struct InvalidTokenError {
    pub token: String,
    pub token_type: TokenType,
    pub additional_info: Option<String>,
}

/// A rejected token together with the line it stands on.
#[derive(Debug, Clone)]
pub struct InvalidTokenAtLineError {
    pub line: usize,
    pub source: InvalidTokenError,
}

/// The program ran past the end of memory.
#[derive(Debug, Clone)]
pub struct OverflowError;

#[derive(Debug, Clone)]
pub enum TokenOrOverflowError {
    InvalidToken(InvalidTokenError),
    Overflow(OverflowError),
}

pub open spec fn token_type_text(t: TokenType) -> Seq<char> {
    match t {
        TokenType::Instruction => "Invalid instruction"@,
        TokenType::Operand => "Invalid operand"@,
        TokenType::Label => "Invalid label"@,
    }
}

/// The text of an `InvalidTokenError`: what kind of token, the token, and
/// the additional information if there is any.
pub open spec fn invalid_token_text(t: TokenType, token: Seq<char>, info: Option<Seq<char>>) -> Seq<char> {
    token_type_text(t) + ": "@ + token + "."@ + match info {
        Some(x) => "Additional info: "@ + x,
        None => Seq::empty(),
    }
}

pub open spec fn opt_string_view(o: Option<String>) -> Option<Seq<char>> {
    match o {
        Some(s) => Some(s@),
        None => None,
    }
}

/// An `InvalidTokenError` as a mathematical value.
pub struct TokenErrorModel {
    pub token: Seq<char>,
    pub token_type: TokenType,
    pub info: Option<Seq<char>>,
}

/// The error model with the given kind, token and message.
pub open spec fn token_error_model(t: TokenType, token: Seq<char>, info: Seq<char>) -> TokenErrorModel {
    TokenErrorModel { token, token_type: t, info: Some(info) }
}

impl InvalidTokenError {
    pub open spec fn model(&self) -> TokenErrorModel {
        TokenErrorModel {
            token: self.token@,
            token_type: self.token_type,
            info: opt_string_view(self.additional_info),
        }
    }

    pub open spec fn text(&self) -> Seq<char> {
        invalid_token_text(self.token_type, self.token@, opt_string_view(self.additional_info))
    }

    /// The message text of the error.
    pub fn message(&self) -> (s: String)
        ensures
            s@ == self.text(),
    {
        let mut s = match self.token_type {
            TokenType::Instruction => "Invalid instruction".to_owned(),
            TokenType::Operand => "Invalid operand".to_owned(),
            TokenType::Label => "Invalid label".to_owned(),
        };
        push_str(&mut s, ": ");
        push_str(&mut s, self.token.as_str());
        push_str(&mut s, ".");
        match &self.additional_info {
            Some(x) => {
                push_str(&mut s, "Additional info: ");
                push_str(&mut s, x.as_str());
            },
            None => {},
        }
        proof {
            assert(s@ =~= self.text());
        }
        s
    }
}

impl OverflowError {
    /// The message text of the error.
    pub fn message(&self) -> (s: String)
        ensures
            s@ == "Memory overflow"@,
    {
        "Memory overflow".to_owned()
    }
}

impl AssemblyError {
    pub open spec fn text(&self) -> Seq<char> {
        "Error in line "@ + crate::assembler::numbers::decimal_text(self.line_number as int) + " - "@
            + self.line_text@ + ":\n"@ + self.message@
    }

    /// The message text of the error, with line number and line text.
    pub fn message(&self) -> (s: String)
        ensures
            s@ == self.text(),
    {
        let mut s = "Error in line ".to_owned();
        let n = crate::assembler::numbers::decimal_string(self.line_number as u64);
        push_str(&mut s, n.as_str());
        push_str(&mut s, " - ");
        push_str(&mut s, self.line_text.as_str());
        push_str(&mut s, ":\n");
        push_str(&mut s, self.message.as_str());
        proof {
            assert(s@ =~= self.text());
        }
        s
    }
}

/// A new `InvalidTokenError` with the given literal as additional
/// information.
pub fn token_error(token: String, token_type: TokenType, info: &str) -> (e: InvalidTokenError)
    ensures
        e.token == token,
        e.token_type == token_type,
        opt_string_view(e.additional_info) == Some(info@),
{
    InvalidTokenError { token, token_type, additional_info: Some(info.to_owned()) }
}

} // verus!

use vstd::prelude::*;

use crate::assembler::errors::{
    opt_string_view, token_error, token_error_model, InvalidTokenAtLineError, InvalidTokenError,
    TokenErrorModel, TokenType,
};
use crate::assembler::scan::{
    char_spans, cut_segments, expression_matches, regex_match_spans, segment_views, segments,
    spans_fit, to_char_spans, EXPRESSION_PATTERN,
};
use crate::assembler::symbols::{local_key, local_symbol_key, table_lookup, SymbolScope};
use crate::assembler::utils::number_of;
use crate::assembler::{Assembler, MEMORY_SIZE};
use crate::text::{
    begins_with, chars_eq_str, chars_of, push_str, starts_with_str, string_of, to_uppercase,
    trim_chars, trim_seq, unicode_upper,
};

verus! {

/// Operators of assembler expressions.
#[derive(Clone, Copy, Debug, PartialEq, Eq, Structural)]
pub enum Op {
    Add,
    Sub,
    Mul,
    Div,
    Mod,
    And,
    Or,
    Xor,
    Shl,
    Shr,
    Not,
}

/// A token of an expression.
pub enum CalculationToken {
    Num(i32),
    Op(Op),
    LParen,
    RParen,
    Symbol(String),
}

/// A token of an expression, as a mathematical value.
pub enum TokenModel {
    Num(i32),
    Op(Op),
    LParen,
    RParen,
    Symbol(Seq<char>),
}

impl View for CalculationToken {
    type V = TokenModel;

    open spec fn view(&self) -> TokenModel {
        match self {
            CalculationToken::Num(v) => TokenModel::Num(*v),
            CalculationToken::Op(o) => TokenModel::Op(*o),
            CalculationToken::LParen => TokenModel::LParen,
            CalculationToken::RParen => TokenModel::RParen,
            CalculationToken::Symbol(s) => TokenModel::Symbol(s@),
        }
    }
}

pub open spec fn token_views(v: Seq<CalculationToken>) -> Seq<TokenModel> {
    v.map_values(|t: CalculationToken| t@)
}

/// A parsed expression.
pub enum Expr {
    Value(i32),
    Symbol(String),
    Unary { op: Op, expr: Box<Expr> },
    Binary { op: Op, left: Box<Expr>, right: Box<Expr> },
}

/// A parsed expression, as a mathematical value.
pub enum ExprModel {
    Value(i32),
    Symbol(Seq<char>),
    Unary(Op, Box<ExprModel>),
    Binary(Op, Box<ExprModel>, Box<ExprModel>),
}

pub open spec fn expr_model(e: Expr) -> ExprModel
    decreases e,
{
    match e {
        Expr::Value(v) => ExprModel::Value(v),
        Expr::Symbol(s) => ExprModel::Symbol(s@),
        Expr::Unary { op, expr } => ExprModel::Unary(op, Box::new(expr_model(*expr))),
        Expr::Binary { op, left, right } => ExprModel::Binary(
            op,
            Box::new(expr_model(*left)),
            Box::new(expr_model(*right)),
        ),
    }
}

/// An expression whose symbols were not all defined when it was met: it is
/// evaluated at the end and its low 16 bits stored at `addr`.
pub struct PendingExpr {
    pub addr: usize,
    pub expr: Expr,
    pub line: usize,
    pub macro_scope: Option<u64>,
}

pub struct PendingModel {
    pub addr: usize,
    pub expr: ExprModel,
    pub line: usize,
    pub macro_scope: Option<u64>,
}

impl View for PendingExpr {
    type V = PendingModel;

    open spec fn view(&self) -> PendingModel {
        PendingModel {
            addr: self.addr,
            expr: expr_model(self.expr),
            line: self.line,
            macro_scope: self.macro_scope,
        }
    }
}

pub open spec fn pending_views(v: Seq<PendingExpr>) -> Seq<PendingModel> {
    v.map_values(|p: PendingExpr| p@)
}

// ---------------------------------------------------------------------
// Tokens
// ---------------------------------------------------------------------

/// The token that a match of `EXPRESSION_PATTERN` stands for; `here` is the
/// location counter.
pub open spec fn match_token(m: Seq<char>, here: usize) -> Option<TokenModel> {
    if m == "("@ {
        Some(TokenModel::LParen)
    } else if m == ")"@ {
        Some(TokenModel::RParen)
    } else if m == "HERE"@ || m == "$"@ {
        Some(TokenModel::Num(here as i32))
    } else if m == "+"@ {
        Some(TokenModel::Op(Op::Add))
    } else if m == "-"@ {
        Some(TokenModel::Op(Op::Sub))
    } else if m == "*"@ {
        Some(TokenModel::Op(Op::Mul))
    } else if m == "/"@ {
        Some(TokenModel::Op(Op::Div))
    } else if m == "MOD"@ {
        Some(TokenModel::Op(Op::Mod))
    } else if m == "AND"@ {
        Some(TokenModel::Op(Op::And))
    } else if m == "OR"@ {
        Some(TokenModel::Op(Op::Or))
    } else if m == "XOR"@ {
        Some(TokenModel::Op(Op::Xor))
    } else if m == "SHL"@ {
        Some(TokenModel::Op(Op::Shl))
    } else if m == "SHR"@ {
        Some(TokenModel::Op(Op::Shr))
    } else if m == "NOT"@ {
        Some(TokenModel::Op(Op::Not))
    } else {
        None
    }
}

/// The token that the text between two matches stands for, if any: after
/// trimming, nothing; a character literal `''` (0) or `'c'` with `c` one
/// byte long (its code); a number; or else a symbol.
pub open spec fn piece_token(p: Seq<char>) -> Option<TokenModel> {
    let t = trim_seq(p);
    if t.len() == 0 {
        None
    } else if t.len() == 2 && t[0] == '\'' && t[1] == '\'' {
        Some(TokenModel::Num(0))
    } else if t.len() == 3 && t[0] == '\'' && t[2] == '\'' && (t[1] as u32) <= 0x7F {
        Some(TokenModel::Num((t[1] as u32) as i32))
    } else {
        match number_of(t) {
            Some(v) => Some(TokenModel::Num(v)),
            None => Some(TokenModel::Symbol(t)),
        }
    }
}

/// The tokens of a text cut into pieces and matches; `None` if a match is
/// not one of the expected ones.
pub open spec fn segment_tokens(segs: Seq<(bool, Seq<char>)>, here: usize) -> Option<
    Seq<TokenModel>,
>
    decreases segs.len(),
{
    if segs.len() == 0 {
        Some(Seq::empty())
    } else {
        match segment_tokens(segs.drop_last(), here) {
            None => None,
            Some(ts) => {
                let seg = segs.last();
                if seg.0 {
                    match match_token(seg.1, here) {
                        Some(t) => Some(ts.push(t)),
                        None => None,
                    }
                } else {
                    match piece_token(seg.1) {
                        Some(t) => Some(ts.push(t)),
                        None => Some(ts),
                    }
                }
            },
        }
    }
}

/// The tokens of `expr`, given the byte spans of the matches of
/// `EXPRESSION_PATTERN` in it.
pub open spec fn expression_tokens(expr: Seq<char>, spans: Seq<(usize, usize)>, here: usize) -> Option<
    Seq<TokenModel>,
> {
    segment_tokens(segments(expr, char_spans(expr, spans)), here)
}

/// The pieces of `expr` as `split_expression` gives them: each match, and
/// each trimmed non-empty text between matches.
pub open spec fn split_pieces(segs: Seq<(bool, Seq<char>)>) -> Seq<Seq<char>>
    decreases segs.len(),
{
    if segs.len() == 0 {
        Seq::empty()
    } else {
        let seg = segs.last();
        let rest = split_pieces(segs.drop_last());
        if seg.0 {
            rest.push(seg.1)
        } else if trim_seq(seg.1).len() == 0 {
            rest
        } else {
            rest.push(trim_seq(seg.1))
        }
    }
}

/// The expression cut into pieces, given the spans of the matches of
/// `EXPRESSION_PATTERN` in it.
pub open spec fn expression_pieces(expr: Seq<char>, spans: Seq<(usize, usize)>) -> Seq<Seq<char>> {
    split_pieces(segments(expr, char_spans(expr, spans)))
}

pub open spec fn string_views(v: Seq<String>) -> Seq<Seq<char>> {
    v.map_values(|s: String| s@)
}

/// The token of a match (see `match_token`).
fn match_to_token(m: &Vec<char>, here: usize) -> (r: Option<CalculationToken>)
    ensures
        match r {
            Some(t) => match_token(m@, here) == Some(t@),
            None => match_token(m@, here) is None,
        },
{
    let s = m.as_slice();
    if chars_eq_str(s, "(") {
        Some(CalculationToken::LParen)
    } else if chars_eq_str(s, ")") {
        Some(CalculationToken::RParen)
    } else if chars_eq_str(s, "HERE") || chars_eq_str(s, "$") {
        Some(CalculationToken::Num(here as i32))
    } else if chars_eq_str(s, "+") {
        Some(CalculationToken::Op(Op::Add))
    } else if chars_eq_str(s, "-") {
        Some(CalculationToken::Op(Op::Sub))
    } else if chars_eq_str(s, "*") {
        Some(CalculationToken::Op(Op::Mul))
    } else if chars_eq_str(s, "/") {
        Some(CalculationToken::Op(Op::Div))
    } else if chars_eq_str(s, "MOD") {
        Some(CalculationToken::Op(Op::Mod))
    } else if chars_eq_str(s, "AND") {
        Some(CalculationToken::Op(Op::And))
    } else if chars_eq_str(s, "OR") {
        Some(CalculationToken::Op(Op::Or))
    } else if chars_eq_str(s, "XOR") {
        Some(CalculationToken::Op(Op::Xor))
    } else if chars_eq_str(s, "SHL") {
        Some(CalculationToken::Op(Op::Shl))
    } else if chars_eq_str(s, "SHR") {
        Some(CalculationToken::Op(Op::Shr))
    } else if chars_eq_str(s, "NOT") {
        Some(CalculationToken::Op(Op::Not))
    } else {
        None
    }
}

impl Assembler {
    /// The token of the text between two matches (see `piece_token`).
    fn push_part_as_token(part: &Vec<char>, tokens: &mut Vec<CalculationToken>)
        ensures
            token_views(final(tokens)@) == match piece_token(part@) {
                Some(t) => token_views(old(tokens)@).push(t),
                None => token_views(old(tokens)@),
            },
    {
        let ghost before = tokens@;
        let t = trim_chars(part.as_slice());
        if t.len() == 0 {
            return ;
        }
        let tok = if t.len() == 2 && t[0] == '\'' && t[1] == '\'' {
            CalculationToken::Num(0i32)
        } else if t.len() == 3 && t[0] == '\'' && t[2] == '\'' && (t[1] as u32) <= 0x7F {
            CalculationToken::Num((t[1] as u32) as i32)
        } else {
            let text = string_of(t.as_slice());
            match Self::parse_number_i32(text.as_str()) {
                Ok(v) => CalculationToken::Num(v),
                Err(_) => CalculationToken::Symbol(text),
            }
        };
        tokens.push(tok);
        proof {
            assert(token_views(tokens@) =~= token_views(before).push(tok@));
        }
    }

    /// The tokens of `expr` given the byte spans of the matches of
    /// `EXPRESSION_PATTERN` in it and the location counter `here`; `None`
    /// where a match is none of the expected ones.
    pub fn tokens_from_matches(expr: &str, spans: &Vec<(usize, usize)>, here: usize) -> (r: Option<
        Vec<CalculationToken>,
    >)
        requires
            spans_fit(expr@, spans@),
        ensures
            match r {
                Some(t) => expression_tokens(expr@, spans@, here) == Some(token_views(t@)),
                None => expression_tokens(expr@, spans@, here) is None,
            },
    {
        let chars = chars_of(expr);
        let cs = to_char_spans(&chars, spans);
        let segs = cut_segments(&chars, &cs);
        let ghost sv = segment_views(segs@);
        let mut tokens: Vec<CalculationToken> = Vec::new();
        let mut i: usize = 0;
        while i < segs.len()
            invariant
                i <= segs@.len(),
                sv == segment_views(segs@),
                sv == segments(expr@, char_spans(expr@, spans@)),
                segment_tokens(sv.take(i as int), here) == Some(token_views(tokens@)),
            decreases segs@.len() - i,
        {
            proof {
                assert(sv.take(i + 1).drop_last() =~= sv.take(i as int));
            }
            let seg = &segs[i];
            if seg.0 {
                match match_to_token(&seg.1, here) {
                    Some(t) => {
                        let ghost before = tokens@;
                        tokens.push(t);
                        proof {
                            assert(token_views(tokens@) =~= token_views(before).push(t@));
                        }
                    },
                    None => {
                        proof {
                            assert(sv.take(i + 1).last() == sv[i as int]);
                            lemma_segment_tokens_none(sv, i + 1, sv.len() as int, here);
                            assert(sv.take(sv.len() as int) =~= sv);
                        }
                        return None;
                    },
                }
            } else {
                Self::push_part_as_token(&seg.1, &mut tokens);
            }
            i = i + 1;
        }
        proof {
            assert(sv.take(segs@.len() as int) =~= sv);
        }
        Some(tokens)
    }

    /// The pieces of an expression: its operators, parentheses and
    /// location-counter names, and the trimmed text between them.
    pub fn split_expression(expr: &str) -> (r: Vec<String>)
        ensures
            match regex_match_spans(EXPRESSION_PATTERN@, expr@) {
                Some(spans) => string_views(r@) == expression_pieces(expr@, spans),
                None => r@.len() == 0,
            },
    {
        match expression_matches(expr) {
            None => Vec::new(),
            Some(spans) => {
                let chars = chars_of(expr);
                let cs = to_char_spans(&chars, &spans);
                let segs = cut_segments(&chars, &cs);
                let ghost sv = segment_views(segs@);
                let mut out: Vec<String> = Vec::new();
                let mut i: usize = 0;
                while i < segs.len()
                    invariant
                        i <= segs@.len(),
                        sv == segment_views(segs@),
                        sv == segments(expr@, char_spans(expr@, spans@)),
                        split_pieces(sv.take(i as int)) == string_views(out@),
                    decreases segs@.len() - i,
                {
                    proof {
                        assert(sv.take(i + 1).drop_last() =~= sv.take(i as int));
                    }
                    let seg = &segs[i];
                    let ghost before = out@;
                    if seg.0 {
                        out.push(string_of(seg.1.as_slice()));
                        proof {
                            assert(string_views(out@) =~= string_views(before).push(seg.1@));
                        }
                    } else {
                        let t = trim_chars(seg.1.as_slice());
                        if t.len() > 0 {
                            out.push(string_of(t.as_slice()));
                            proof {
                                assert(string_views(out@) =~= string_views(before).push(t@));
                            }
                        }
                    }
                    i = i + 1;
                }
                proof {
                    assert(sv.take(segs@.len() as int) =~= sv);
                }
                out
            },
        }
    }
}

// ---------------------------------------------------------------------
// Parsing
// ---------------------------------------------------------------------

/// How tightly an operator binds: OR and XOR loosest, then AND, NOT, + and
/// -, and the multiplicative operators and shifts tightest.
pub open spec fn precedence_of(op: Op) -> u8 {
    match op {
        Op::Or | Op::Xor => 1,
        Op::And => 2,
        Op::Not => 3,
        Op::Add | Op::Sub => 4,
        Op::Mul | Op::Div | Op::Mod | Op::Shl | Op::Shr => 5,
    }
}

/// An operand at `pos`: a number, a symbol, a unary minus or NOT applied to
/// an expression of at least its precedence, or a parenthesised
/// expression. The result is the expression and the position after it.
pub open spec fn parse_primary(toks: Seq<TokenModel>, pos: int) -> Result<(ExprModel, int), Seq<char>>
    decreases toks.len() - pos, 1int,
{
    if pos < 0 || pos >= toks.len() {
        Err("Expected expression"@)
    } else {
        match toks[pos] {
            TokenModel::Num(v) => Ok((ExprModel::Value(v), pos + 1)),
            TokenModel::Symbol(l) => Ok((ExprModel::Symbol(l), pos + 1)),
            TokenModel::Op(op) => if op == Op::Sub || op == Op::Not {
                match parse_expression(toks, pos + 1, precedence_of(op) as int) {
                    Ok((e, p)) => Ok((ExprModel::Unary(op, Box::new(e)), p)),
                    Err(m) => Err(m),
                }
            } else {
                Err("Expected expression"@)
            },
            TokenModel::LParen => match parse_expression(toks, pos + 1, 0) {
                Ok((e, p)) => if 0 <= p < toks.len() && toks[p] is RParen {
                    Ok((e, p + 1))
                } else {
                    Err("Missing ')'"@)
                },
                Err(m) => Err(m),
            },
            TokenModel::RParen => Err("Expected expression"@),
        }
    }
}

/// An expression at `pos` whose binary operators all bind at least as
/// tightly as `min_prec` (precedence climbing, left-associative).
pub open spec fn parse_expression(toks: Seq<TokenModel>, pos: int, min_prec: int) -> Result<
    (ExprModel, int),
    Seq<char>,
>
    decreases toks.len() - pos, 2int,
{
    if pos < 0 || pos > toks.len() {
        Err("Expected expression"@)
    } else {
        match parse_primary(toks, pos) {
            Err(m) => Err(m),
            Ok((lhs, p)) => if pos < p <= toks.len() {
                parse_rest(toks, p, min_prec, lhs)
            } else {
                Err("Expected expression"@)
            },
        }
    }
}

/// The binary operators that follow the operand `lhs`, from `pos` on.
pub open spec fn parse_rest(toks: Seq<TokenModel>, pos: int, min_prec: int, lhs: ExprModel) -> Result<
    (ExprModel, int),
    Seq<char>,
>
    decreases toks.len() - pos, 0int,
{
    if 0 <= pos < toks.len() {
        match toks[pos] {
            TokenModel::Op(op) => if precedence_of(op) >= min_prec {
                match parse_expression(toks, pos + 1, precedence_of(op) + 1) {
                    Err(m) => Err(m),
                    Ok((rhs, p)) => if pos < p <= toks.len() {
                        parse_rest(toks, p, min_prec, ExprModel::Binary(op, Box::new(lhs), Box::new(rhs)))
                    } else {
                        Err("Expected expression"@)
                    },
                }
            } else {
                Ok((lhs, pos))
            },
            _ => Ok((lhs, pos)),
        }
    } else {
        Ok((lhs, pos))
    }
}

/// `e` is the error with an empty token and the given message.
pub open spec fn is_parse_error(e: InvalidTokenError, m: Seq<char>) -> bool {
    e.token@ == Seq::<char>::empty() && e.token_type == TokenType::Operand && opt_string_view(
        e.additional_info,
    ) == Some(m)
}

fn parse_failure(msg: &str) -> (e: InvalidTokenError)
    ensures
        is_parse_error(e, msg@),
{
    token_error(String::new(), TokenType::Operand, msg)
}

impl Assembler {
    /// How tightly an operator binds (see `precedence_of`).
    fn precedence(op: Op) -> (p: u8)
        ensures
            p == precedence_of(op),
    {
        match op {
            Op::Or | Op::Xor => 1,
            Op::And => 2,
            Op::Not => 3,
            Op::Add | Op::Sub => 4,
            Op::Mul | Op::Div | Op::Mod | Op::Shl | Op::Shr => 5,
        }
    }

    fn parse_primary(tokens: &Vec<CalculationToken>, pos: usize) -> (r: Result<(Expr, usize), InvalidTokenError>)
        requires
            pos <= tokens@.len(),
        ensures
            match r {
                Ok((e, p)) => parse_primary(token_views(tokens@), pos as int) == Ok::<(ExprModel, int), Seq<char>>((expr_model(e), p as int))
                    && pos < p <= tokens@.len(),
                Err(err) => parse_primary(token_views(tokens@), pos as int) matches Err(m) && is_parse_error(err, m),
            },
        decreases tokens@.len() - pos, 1int,
    {
        let ghost tv = token_views(tokens@);
        if pos >= tokens.len() {
            return Err(parse_failure("Expected expression"));
        }
        assert(tv[pos as int] == tokens@[pos as int]@);
        match &tokens[pos] {
            CalculationToken::Num(v) => Ok((Expr::Value(*v), pos + 1)),
            CalculationToken::Symbol(l) => Ok((Expr::Symbol(l.clone()), pos + 1)),
            CalculationToken::Op(op) => {
                if *op == Op::Sub || *op == Op::Not {
                    let prec = Self::precedence(*op);
                    match Self::parse_expr(tokens, pos + 1, prec) {
                        Ok((e, p)) => Ok((Expr::Unary { op: *op, expr: Box::new(e) }, p)),
                        Err(err) => Err(err),
                    }
                } else {
                    Err(parse_failure("Expected expression"))
                }
            },
            CalculationToken::LParen => {
                match Self::parse_expr(tokens, pos + 1, 0) {
                    Ok((e, p)) => {
                        if p < tokens.len() {
                            assert(tv[p as int] == tokens@[p as int]@);
                            match &tokens[p] {
                                CalculationToken::RParen => Ok((e, p + 1)),
                                _ => Err(parse_failure("Missing ')'")),
                            }
                        } else {
                            Err(parse_failure("Missing ')'"))
                        }
                    },
                    Err(err) => Err(err),
                }
            },
            CalculationToken::RParen => Err(parse_failure("Expected expression")),
        }
    }

    /// Parses an expression from `pos` on (see `parse_expression`).
    fn parse_expr(tokens: &Vec<CalculationToken>, pos: usize, min_prec: u8) -> (r: Result<(Expr, usize), InvalidTokenError>)
        requires
            pos <= tokens@.len(),
        ensures
            match r {
                Ok((e, p)) => parse_expression(token_views(tokens@), pos as int, min_prec as int) == Ok::<(ExprModel, int), Seq<char>>(
                    (expr_model(e), p as int),
                ) && pos < p <= tokens@.len(),
                Err(err) => parse_expression(token_views(tokens@), pos as int, min_prec as int) matches Err(m)
                    && is_parse_error(err, m),
            },
        decreases tokens@.len() - pos, 2int,
    {
        match Self::parse_primary(tokens, pos) {
            Err(err) => Err(err),
            Ok((lhs, p)) => Self::parse_rest(tokens, p, min_prec, lhs),
        }
    }

    fn parse_rest(tokens: &Vec<CalculationToken>, pos: usize, min_prec: u8, lhs: Expr) -> (r: Result<(Expr, usize), InvalidTokenError>)
        requires
            pos <= tokens@.len(),
        ensures
            match r {
                Ok((e, p)) => parse_rest(token_views(tokens@), pos as int, min_prec as int, expr_model(lhs)) == Ok::<(ExprModel, int), Seq<char>>(
                    (expr_model(e), p as int),
                ) && pos <= p <= tokens@.len(),
                Err(err) => parse_rest(token_views(tokens@), pos as int, min_prec as int, expr_model(lhs)) matches Err(m)
                    && is_parse_error(err, m),
            },
        decreases tokens@.len() - pos, 0int,
    {
        let ghost tv = token_views(tokens@);
        if pos >= tokens.len() {
            return Ok((lhs, pos));
        }
        assert(tv[pos as int] == tokens@[pos as int]@);
        match &tokens[pos] {
            CalculationToken::Op(op) => {
                let prec = Self::precedence(*op);
                if prec < min_prec {
                    return Ok((lhs, pos));
                }
                let op = *op;
                match Self::parse_expr(tokens, pos + 1, prec + 1) {
                    Err(err) => Err(err),
                    Ok((rhs, p)) => {
                        let combined = Expr::Binary { op, left: Box::new(lhs), right: Box::new(rhs) };
                        Self::parse_rest(tokens, p, min_prec, combined)
                    },
                }
            },
            _ => Ok((lhs, pos)),
        }
    }
}

// ---------------------------------------------------------------------
// Evaluation
// ---------------------------------------------------------------------

/// The value of the symbol kept under `key`, if any.
pub open spec fn symbol_value(syms: Seq<(String, crate::assembler::symbols::Symbol)>, key: Seq<char>) -> Option<i32> {
    match table_lookup(syms, key) {
        Some(s) => Some(s.value),
        None => None,
    }
}

/// The value of the symbol `name` as seen from the macro expansion
/// numbered `scope`: a symbol local to that expansion, else a global one.
pub open spec fn lookup_value(
    syms: Seq<(String, crate::assembler::symbols::Symbol)>,
    name: Seq<char>,
    scope: Option<u64>,
) -> Option<i32> {
    match scope {
        Some(id) => match symbol_value(syms, local_key(name, id)) {
            Some(v) => Some(v),
            None => symbol_value(syms, unicode_upper(name)),
        },
        None => symbol_value(syms, unicode_upper(name)),
    }
}

/// NOT gives the 16-bit complement; unary minus the two's complement
/// negation (not cut to 16 bits).
pub open spec fn unary_value(op: Op, v: i32) -> Option<i32> {
    match op {
        Op::Not => Some(!v & 0xFFFF),
        Op::Sub => Some((!v).wrapping_add(1)),
        _ => None,
    }
}

/// A binary operation on 32-bit values, cut to its low 16 bits: wrapping
/// +, - and *, truncating / and MOD (none for a zero divisor), bitwise
/// AND, OR, XOR, and shifts by the low four bits of the right operand.
/// NOT has no binary form.
pub open spec fn binary_value(op: Op, a: i32, b: i32) -> Option<i32> {
    let r: Option<i32> = match op {
        Op::Add => Some(a.wrapping_add(b)),
        Op::Sub => Some(a.wrapping_sub(b)),
        Op::Mul => Some(a.wrapping_mul(b)),
        Op::Div => a.checked_div(b),
        Op::Mod => a.checked_rem(b),
        Op::And => Some(a & b),
        Op::Or => Some(a | b),
        Op::Xor => Some(a ^ b),
        Op::Shl => Some(a.wrapping_shl((b & 0xF) as u32)),
        Op::Shr => Some(a.wrapping_shr((b & 0xF) as u32)),
        Op::Not => None,
    };
    match r {
        Some(x) => Some(x & 0xFFFF),
        None => None,
    }
}

/// Why a binary operation has no value.
pub open spec fn binary_error(op: Op) -> Seq<char> {
    if op == Op::Not {
        "NOT takes a single operand"@
    } else {
        "Division by zero"@
    }
}

/// Whether entry `e` of the symbol table holds a symbol named `name` that
/// is local to a macro expansion.
pub open spec fn is_local_entry(e: (String, crate::assembler::symbols::Symbol), name: Seq<char>) -> bool {
    match e.1.symbol_scope {
        SymbolScope::Local(m) => e.0@ == local_key(name, m.id),
        SymbolScope::Global => false,
    }
}

/// Whether the table holds a symbol named `name` local to some macro
/// expansion.
pub open spec fn has_local_symbol(syms: Seq<(String, crate::assembler::symbols::Symbol)>, name: Seq<char>) -> bool {
    exists|k: int| 0 <= k < syms.len() && #[trigger] is_local_entry(syms[k], name)
}

/// Why the symbol `name` has no value seen from the macro expansion
/// `scope`: it is local to another expansion, or local and used outside
/// any, or not defined at all.
pub open spec fn missing_symbol_message(
    syms: Seq<(String, crate::assembler::symbols::Symbol)>,
    name: Seq<char>,
    scope: Option<u64>,
) -> Seq<char> {
    if has_local_symbol(syms, name) {
        match scope {
            Some(_) => "Symbol "@ + name + " is local to a different macro"@,
            None => "Symbol "@ + name + " is local and cannot be used outside macro"@,
        }
    } else {
        "Undefined symbol "@ + name
    }
}

/// Whether an evaluation failed on a symbol without a value here (rather
/// than on an operation): only such a failure can be put off until the
/// end.
pub open spec fn is_symbol_failure(msg: Seq<char>) -> bool {
    begins_with(msg, "Undefined symbol "@) || begins_with(msg, "Symbol "@)
}

/// The value of an expression over the symbol table, from the macro
/// expansion `scope`; the error names the first symbol without a value
/// (see `missing_symbol_message`) or failed operation, left to right.
pub open spec fn eval_model(
    syms: Seq<(String, crate::assembler::symbols::Symbol)>,
    e: ExprModel,
    scope: Option<u64>,
) -> Result<i32, Seq<char>>
    decreases e,
{
    match e {
        ExprModel::Value(v) => Ok(v),
        ExprModel::Symbol(l) => match lookup_value(syms, l, scope) {
            Some(v) => Ok(v),
            None => Err(missing_symbol_message(syms, l, scope)),
        },
        ExprModel::Unary(op, x) => match eval_model(syms, *x, scope) {
            Err(m) => Err(m),
            Ok(v) => match unary_value(op, v) {
                Some(r) => Ok(r),
                None => Err("Invalid unary operator"@),
            },
        },
        ExprModel::Binary(op, l, r) => match eval_model(syms, *l, scope) {
            Err(m) => Err(m),
            Ok(a) => match eval_model(syms, *r, scope) {
                Err(m) => Err(m),
                Ok(b) => match binary_value(op, a, b) {
                    Some(x) => Ok(x),
                    None => Err(binary_error(op)),
                },
            },
        },
    }
}

/// Every binary operation gives a value in 0..=0xFFFF.
pub proof fn lemma_binary_value_is_16_bit(op: Op, a: i32, b: i32)
    ensures
        binary_value(op, a, b) matches Some(x) ==> 0 <= x <= 0xFFFF,
{
    let r: Option<i32> = match op {
        Op::Add => Some(a.wrapping_add(b)),
        Op::Sub => Some(a.wrapping_sub(b)),
        Op::Mul => Some(a.wrapping_mul(b)),
        Op::Div => a.checked_div(b),
        Op::Mod => a.checked_rem(b),
        Op::And => Some(a & b),
        Op::Or => Some(a | b),
        Op::Xor => Some(a ^ b),
        Op::Shl => Some(a.wrapping_shl((b & 0xF) as u32)),
        Op::Shr => Some(a.wrapping_shr((b & 0xF) as u32)),
        Op::Not => None,
    };
    if let Some(x) = r {
        assert(0 <= (x & 0xFFFF) <= 0xFFFF) by (bit_vector);
    }
}

/// What evaluating an expression in the current state comes to.
pub enum CalcOutcome {
    /// Its value.
    Value(i32),
    /// A symbol is not defined yet: it is kept for the end.
    Deferred(ExprModel),
    /// An error.
    Failed(TokenErrorModel),
}

/// What `calculate_expression` does with `expr` in state `a`, given the
/// matches of `EXPRESSION_PATTERN`: tokens, a parse of the whole token
/// list, and a value. An evaluation that fails on a symbol not defined yet
/// is deferred where forward references are allowed; one that fails
/// otherwise (a zero divisor, NOT between two operands) is an error at
/// once.
pub open spec fn calc_outcome(a: Assembler, expr: Seq<char>, allow_forward_references: bool) -> CalcOutcome {
    match regex_match_spans(EXPRESSION_PATTERN@, expr) {
        None => CalcOutcome::Failed(
            token_error_model(TokenType::Operand, expr, "Expression cannot be scanned"@),
        ),
        Some(spans) => match expression_tokens(expr, spans, a.memory_pointer) {
            None => CalcOutcome::Failed(
                token_error_model(TokenType::Operand, expr, "Unexpected token in expression"@),
            ),
            Some(toks) => match parse_expression(toks, 0, 0) {
                Err(m) => CalcOutcome::Failed(token_error_model(TokenType::Operand, Seq::empty(), m)),
                Ok((e, p)) => if p < toks.len() {
                    CalcOutcome::Failed(
                        token_error_model(
                            TokenType::Operand,
                            expr,
                            "Unexpected token at end of expression"@,
                        ),
                    )
                } else {
                    match eval_model(a.symbols@, e, a.scope_id()) {
                        Ok(v) => CalcOutcome::Value(v),
                        Err(msg) => if !is_symbol_failure(msg) {
                            CalcOutcome::Failed(token_error_model(TokenType::Operand, expr, msg))
                        } else if allow_forward_references {
                            CalcOutcome::Deferred(e)
                        } else {
                            CalcOutcome::Failed(
                                token_error_model(
                                    TokenType::Label,
                                    expr,
                                    "Forward reference is not allowed"@,
                                ),
                            )
                        },
                    }
                },
            },
        },
    }
}

/// How evaluating `expr` at `offset` changes the state: an expression
/// kept for the end is appended to the pending list; nothing else changes.
pub open spec fn calc_effect(
    before: Assembler,
    after: Assembler,
    expr: Seq<char>,
    offset: usize,
    allow_forward_references: bool,
) -> bool {
    &&& after.same_but_pending(before)
    &&& match calc_outcome(before, expr, allow_forward_references) {
        CalcOutcome::Deferred(e) => pending_views(after.pending_exprs@) == pending_views(
            before.pending_exprs@,
        ).push(
            PendingModel {
                addr: sat_add(before.memory_pointer, offset),
                expr: e,
                line: before.current_line,
                macro_scope: before.scope_id(),
            },
        ),
        _ => after.pending_exprs == before.pending_exprs,
    }
}

/// `a + b`, or `usize::MAX` where that does not fit.
pub open spec fn sat_add(a: usize, b: usize) -> usize {
    if a + b > usize::MAX {
        usize::MAX
    } else {
        (a + b) as usize
    }
}

/// `mem` with the low byte of `v` at `addr` and the next byte after it, as
/// far as they lie inside `mem`.
pub open spec fn store_word(mem: Seq<u8>, addr: usize, v: i32) -> Seq<u8> {
    let m1 = if addr < mem.len() {
        mem.update(addr as int, v as u8)
    } else {
        mem
    };
    if addr + 1 < mem.len() {
        m1.update(addr + 1, (v >> 8) as u8)
    } else {
        m1
    }
}

/// The memory after resolving the first `n` pending expressions in order,
/// and the line and message of the first that fails, if one does.
pub open spec fn resolve_upto(
    mem: Seq<u8>,
    syms: Seq<(String, crate::assembler::symbols::Symbol)>,
    pend: Seq<PendingModel>,
    n: int,
) -> (Seq<u8>, Option<(usize, Seq<char>)>)
    decreases n,
{
    if n <= 0 {
        (mem, None)
    } else {
        let (m, err) = resolve_upto(mem, syms, pend, n - 1);
        match err {
            Some(e) => (m, Some(e)),
            None => match eval_model(syms, pend[n - 1].expr, pend[n - 1].macro_scope) {
                Ok(v) => (store_word(m, pend[n - 1].addr, v), None),
                Err(msg) => (m, Some((pend[n - 1].line, msg))),
            },
        }
    }
}

impl Assembler {
    /// The value of the symbol `name` seen from the expansion `scope` (see
    /// `lookup_value`).
    fn lookup_symbol(&self, name: &str, scope: Option<u64>) -> (r: Option<i32>)
        ensures
            r == lookup_value(self.symbols@, name@, scope),
    {
        match scope {
            Some(id) => {
                let key = local_symbol_key(name, id);
                match self.find_symbol(&key) {
                    Some(s) => {
                        return Some(s.value);
                    },
                    None => {},
                }
            },
            None => {},
        }
        let key = to_uppercase(name);
        match self.find_symbol(&key) {
            Some(s) => Some(s.value),
            None => None,
        }
    }

    /// Whether the table holds a symbol named `name` local to some macro
    /// expansion (see `has_local_symbol`).
    fn has_local_symbol_named(&self, name: &str) -> (r: bool)
        ensures
            r == has_local_symbol(self.symbols@, name@),
    {
        let mut i: usize = 0;
        while i < self.symbols.len()
            invariant
                i <= self.symbols@.len(),
                forall|k: int| 0 <= k < i ==> !#[trigger] is_local_entry(self.symbols@[k], name@),
            decreases self.symbols@.len() - i,
        {
            match &self.symbols[i].1.symbol_scope {
                SymbolScope::Local(m) => {
                    let key = local_symbol_key(name, m.id);
                    if self.symbols[i].0 == key {
                        proof {
                            assert(is_local_entry(self.symbols@[i as int], name@));
                        }
                        return true;
                    }
                },
                SymbolScope::Global => {},
            }
            i = i + 1;
        }
        false
    }

    /// The message for a symbol without a value seen from `scope` (see
    /// `missing_symbol_message`).
    fn missing_symbol(&self, name: &str, scope: Option<u64>) -> (m: String)
        ensures
            m@ == missing_symbol_message(self.symbols@, name@, scope),
    {
        if self.has_local_symbol_named(name) {
            let mut m = "Symbol ".to_owned();
            push_str(&mut m, name);
            match scope {
                Some(_) => push_str(&mut m, " is local to a different macro"),
                None => push_str(&mut m, " is local and cannot be used outside macro"),
            }
            m
        } else {
            let mut m = "Undefined symbol ".to_owned();
            push_str(&mut m, name);
            m
        }
    }

    /// A binary operation (see `binary_value`).
    fn eval_bin(op: Op, a: i32, b: i32) -> (r: Option<i32>)
        ensures
            r == binary_value(op, a, b),
    {
        let r: Option<i32> = match op {
            Op::Add => Some(a.wrapping_add(b)),
            Op::Sub => Some(a.wrapping_sub(b)),
            Op::Mul => Some(a.wrapping_mul(b)),
            Op::Div => a.checked_div(b),
            Op::Mod => a.checked_rem(b),
            Op::And => Some(a & b),
            Op::Or => Some(a | b),
            Op::Xor => Some(a ^ b),
            Op::Shl => Some(a.wrapping_shl((b & 0xF) as u32)),
            Op::Shr => Some(a.wrapping_shr((b & 0xF) as u32)),
            Op::Not => None,
        };
        match r {
            Some(x) => Some(x & 0xFFFF),
            None => None,
        }
    }

    /// The value of an expression (see `eval_model`).
    pub fn eval_expr(&self, expr: &Expr, scope: Option<u64>) -> (r: Result<i32, String>)
        ensures
            match r {
                Ok(v) => eval_model(self.symbols@, expr_model(*expr), scope) == Ok::<i32, Seq<char>>(v),
                Err(m) => eval_model(self.symbols@, expr_model(*expr), scope) == Err::<i32, Seq<char>>(m@),
            },
        decreases expr,
    {
        match expr {
            Expr::Value(v) => Ok(*v),
            Expr::Symbol(l) => match self.lookup_symbol(l.as_str(), scope) {
                Some(v) => Ok(v),
                None => Err(self.missing_symbol(l.as_str(), scope)),
            },
            Expr::Unary { op, expr } => match self.eval_expr(expr, scope) {
                Err(m) => Err(m),
                Ok(v) => match op {
                    Op::Not => Ok(!v & 0xFFFF),
                    Op::Sub => Ok((!v).wrapping_add(1)),
                    _ => Err("Invalid unary operator".to_owned()),
                },
            },
            Expr::Binary { op, left, right } => match self.eval_expr(left, scope) {
                Err(m) => Err(m),
                Ok(a) => match self.eval_expr(right, scope) {
                    Err(m) => Err(m),
                    Ok(b) => match Self::eval_bin(*op, a, b) {
                        Some(x) => Ok(x),
                        None => {
                            if *op == Op::Not {
                                Err("NOT takes a single operand".to_owned())
                            } else {
                                Err("Division by zero".to_owned())
                            }
                        },
                    },
                },
            },
        }
    }
}

impl Assembler {
    /// The tokens of `expr` (see `expression_tokens`), with the location
    /// counter as the value of HERE and `$`.
    fn tokenize(&self, expr: &str) -> (r: Result<Vec<CalculationToken>, InvalidTokenError>)
        ensures
            match regex_match_spans(EXPRESSION_PATTERN@, expr@) {
                None => r matches Err(e) && e.token@ == expr@ && e.token_type == TokenType::Operand
                    && opt_string_view(e.additional_info) == Some("Expression cannot be scanned"@),
                Some(spans) => match expression_tokens(expr@, spans, self.memory_pointer) {
                    None => r matches Err(e) && e.token@ == expr@ && e.token_type == TokenType::Operand
                        && opt_string_view(e.additional_info) == Some(
                        "Unexpected token in expression"@,
                    ),
                    Some(toks) => r matches Ok(t) && token_views(t@) == toks,
                },
            },
    {
        match expression_matches(expr) {
            None => Err(
                token_error(expr.to_owned(), TokenType::Operand, "Expression cannot be scanned"),
            ),
            Some(spans) => match Self::tokens_from_matches(expr, &spans, self.memory_pointer) {
                Some(t) => Ok(t),
                None => Err(
                    token_error(
                        expr.to_owned(),
                        TokenType::Operand,
                        "Unexpected token in expression",
                    ),
                ),
            },
        }
    }

    /// Evaluates `expr` (see `calc_outcome`). Where a symbol is not defined
    /// yet and forward references are allowed, the expression is kept, to
    /// be stored at the location counter plus `offset` at the end, and the
    /// result is `None`; an evaluation that fails otherwise is an error.
    pub fn calculate_expression(
        &mut self,
        expr: &str,
        offset: usize,
        allow_forward_references: bool,
    ) -> (r: Result<Option<i32>, InvalidTokenError>)
        ensures
            calc_effect(*old(self), *final(self), expr@, offset, allow_forward_references),
            match calc_outcome(*old(self), expr@, allow_forward_references) {
                CalcOutcome::Value(v) => r matches Ok(Some(x)) && x == v,
                CalcOutcome::Deferred(e) => r matches Ok(None),
                CalcOutcome::Failed(em) => r matches Err(err) && err.model() == em,
            },
    {
        let tokens = match self.tokenize(expr) {
            Ok(t) => t,
            Err(e) => {
                return Err(e);
            },
        };
        let (ast, p) = match Self::parse_expr(&tokens, 0, 0) {
            Ok(x) => x,
            Err(e) => {
                return Err(e);
            },
        };
        if p < tokens.len() {
            return Err(
                token_error(
                    expr.to_owned(),
                    TokenType::Operand,
                    "Unexpected token at end of expression",
                ),
            );
        }
        let scope = match &self.current_macro_scope {
            Some(m) => Some(m.id),
            None => None,
        };
        match self.eval_expr(&ast, scope) {
            Ok(v) => Ok(Some(v)),
            Err(m) => {
                if !(starts_with_str(m.as_str(), "Undefined symbol ") || starts_with_str(
                    m.as_str(),
                    "Symbol ",
                )) {
                    Err(token_error(expr.to_owned(), TokenType::Operand, m.as_str()))
                } else if allow_forward_references {
                    let ghost before = self.pending_exprs@;
                    let pending = PendingExpr {
                        addr: self.memory_pointer.saturating_add(offset),
                        expr: ast,
                        line: self.current_line,
                        macro_scope: scope,
                    };
                    self.pending_exprs.push(pending);
                    proof {
                        assert(pending_views(self.pending_exprs@) =~= pending_views(before).push(
                            pending@,
                        ));
                    }
                    Ok(None)
                } else {
                    Err(
                        token_error(
                            expr.to_owned(),
                            TokenType::Label,
                            "Forward reference is not allowed",
                        ),
                    )
                }
            },
        }
    }

    /// Evaluates the kept expressions in order, now that all symbols are
    /// known, and stores the low 16 bits of each, low byte first, at its
    /// address (bytes past the end of memory are dropped). Stops at the
    /// first that still cannot be evaluated.
    pub fn resolve_pending_exprs(&mut self) -> (r: Result<(), InvalidTokenAtLineError>)
        ensures
            final(self).same_but_memory(*old(self)),
            final(self).memory@ == resolve_upto(
                old(self).memory@,
                old(self).symbols@,
                pending_views(old(self).pending_exprs@),
                old(self).pending_exprs@.len() as int,
            ).0,
            match resolve_upto(
                old(self).memory@,
                old(self).symbols@,
                pending_views(old(self).pending_exprs@),
                old(self).pending_exprs@.len() as int,
            ).1 {
                None => r is Ok,
                Some((line, msg)) => r matches Err(e) && e.line == line && e.source.token@ == msg
                    && e.source.token_type == TokenType::Label && e.source.additional_info is None,
            },
    {
        let ghost pend = pending_views(self.pending_exprs@);
        let ghost syms = self.symbols@;
        let ghost mem0 = self.memory@;
        let mut i: usize = 0;
        while i < self.pending_exprs.len()
            invariant
                i <= self.pending_exprs@.len(),
                self.same_but_memory(*old(self)),
                pend == pending_views(self.pending_exprs@),
                syms == self.symbols@,
                mem0 == old(self).memory@,
                self.memory@.len() == MEMORY_SIZE,
                resolve_upto(mem0, syms, pend, i as int) == (self.memory@, None::<(usize, Seq<char>)>),
            decreases self.pending_exprs@.len() - i,
        {
            let addr = self.pending_exprs[i].addr;
            let line = self.pending_exprs[i].line;
            let scope = self.pending_exprs[i].macro_scope;
            assert(pend[i as int] == self.pending_exprs@[i as int]@);
            match self.eval_expr(&self.pending_exprs[i].expr, scope) {
                Err(m) => {
                    proof {
                        lemma_resolve_stops(mem0, syms, pend, i as int + 1, pend.len() as int);
                    }
                    return Err(
                        InvalidTokenAtLineError {
                            line,
                            source: InvalidTokenError {
                                token: m,
                                token_type: TokenType::Label,
                                additional_info: None,
                            },
                        },
                    );
                },
                Ok(v) => {
                    if addr < MEMORY_SIZE {
                        self.memory[addr] = v as u8;
                    }
                    if addr < MEMORY_SIZE - 1 {
                        self.memory[addr + 1] = (v >> 8) as u8;
                    }
                },
            }
            i = i + 1;
        }
        Ok(())
    }
}

/// After the first failure, resolving more expressions changes nothing.
proof fn lemma_resolve_stops(
    mem: Seq<u8>,
    syms: Seq<(String, crate::assembler::symbols::Symbol)>,
    pend: Seq<PendingModel>,
    k: int,
    n: int,
)
    requires
        0 < k <= n,
        resolve_upto(mem, syms, pend, k).1 is Some,
    ensures
        resolve_upto(mem, syms, pend, n) == resolve_upto(mem, syms, pend, k),
    decreases n - k,
{
    if n > k {
        lemma_resolve_stops(mem, syms, pend, k, n - 1);
    }
}

/// Once a match is not an expected one, no prefix that contains it has
/// tokens.
proof fn lemma_segment_tokens_none(sv: Seq<(bool, Seq<char>)>, k: int, j: int, here: usize)
    requires
        0 <= k <= j <= sv.len(),
        segment_tokens(sv.take(k), here) is None,
    ensures
        segment_tokens(sv.take(j), here) is None,
    decreases j - k,
{
    if j > k {
        lemma_segment_tokens_none(sv, k, j - 1, here);
        assert(sv.take(j).drop_last() =~= sv.take(j - 1));
    }
}

} // verus!

use vstd::prelude::*;

use crate::assembler::errors::{
    opt_string_view, token_error, token_error_model, InvalidTokenError, TokenErrorModel, TokenType,
};
use crate::assembler::numbers::{from_str_radix_chars, parse_i32_radix};
use crate::assembler::expressions::{calc_effect, calc_outcome, CalcOutcome};
use crate::assembler::Assembler;
use crate::text::{
    all_ascii, chars_eq_str, chars_of, push_str, string_of, to_uppercase, unicode_upper, upper_seq,
};

verus! {

/// The digits of a number and its base, read from its suffix: O or Q
/// octal, B binary, H hexadecimal (only after a leading digit or minus
/// sign, so that a name such as AAH is no number), D or none decimal.
pub open spec fn number_digits(v: Seq<char>) -> (Seq<char>, int) {
    let last = v.last();
    if last == 'O' || last == 'Q' {
        (v.drop_last(), 8)
    } else if last == 'B' {
        (v.drop_last(), 2)
    } else if last == 'H' && (v[0] == '-' || ('0' <= v[0] && v[0] <= '9')) {
        (v.drop_last(), 16)
    } else if last == 'D' {
        (v.drop_last(), 10)
    } else {
        (v, 10)
    }
}

/// The value of a number written in upper case, if it is one.
pub open spec fn number_value(v: Seq<char>) -> Option<i32> {
    if v.len() == 0 {
        None
    } else {
        parse_i32_radix(number_digits(v).0, number_digits(v).1)
    }
}

/// The value of a number token (upper-cased first).
pub open spec fn number_of(text: Seq<char>) -> Option<i32> {
    number_value(unicode_upper(text))
}

/// The value of an 8-bit number token: the number cut to 16 bits must lie
/// in -128..=255; the byte is its low eight bits.
pub open spec fn byte_number_of(text: Seq<char>) -> Option<u8> {
    match number_of(text) {
        Some(x) => {
            let v = x as i16;
            if -128 <= v <= 255 {
                Some(v as u8)
            } else {
                None
            }
        },
        None => None,
    }
}

/// Register code of an operand already in upper case: B, C, D, E, H, L, M,
/// A, or a number below 8.
pub open spec fn register_code(u: Seq<char>) -> Option<u8> {
    if u == "B"@ {
        Some(0)
    } else if u == "C"@ {
        Some(1)
    } else if u == "D"@ {
        Some(2)
    } else if u == "E"@ {
        Some(3)
    } else if u == "H"@ {
        Some(4)
    } else if u == "L"@ {
        Some(5)
    } else if u == "M"@ {
        Some(6)
    } else if u == "A"@ {
        Some(7)
    } else {
        match byte_number_of(u) {
            Some(x) => if x < 8 { Some(x) } else { None },
            None => None,
        }
    }
}

/// Register-pair code of an operand already in upper case.
pub open spec fn register_pair_code(u: Seq<char>) -> Option<u8> {
    if u == "BC"@ || u == "B"@ {
        Some(0)
    } else if u == "DE"@ || u == "D"@ {
        Some(1)
    } else if u == "HL"@ || u == "H"@ {
        Some(2)
    } else if u == "SP"@ || u == "PSW"@ {
        Some(3)
    } else {
        None
    }
}

/// Operands joined by commas (`join(",")`).
pub open spec fn join_commas(ops: Seq<Seq<char>>) -> Seq<char>
    decreases ops.len(),
{
    if ops.len() == 0 {
        Seq::empty()
    } else if ops.len() == 1 {
        ops[0]
    } else {
        join_commas(ops.drop_last()) + seq![','] + ops.last()
    }
}

pub open spec fn views(v: Seq<String>) -> Seq<Seq<char>> {
    v.map_values(|s: String| s@)
}

/// The operands joined by commas.
pub fn join_operands(ops: &Vec<String>) -> (s: String)
    ensures
        s@ == join_commas(views(ops@)),
{
    let mut s = String::new();
    let mut i: usize = 0;
    while i < ops.len()
        invariant
            i <= ops@.len(),
            s@ == join_commas(views(ops@.take(i as int))),
        decreases ops@.len() - i,
    {
        if i > 0 {
            push_str(&mut s, ",");
        }
        push_str(&mut s, ops[i].as_str());
        proof {
            let a = views(ops@.take(i + 1));
            assert(a.drop_last() =~= views(ops@.take(i as int)));
            reveal_strlit(",");
            assert(s@ =~= join_commas(a));
        }
        i = i + 1;
    }
    proof {
        assert(ops@.take(ops@.len() as int) =~= ops@);
    }
    s
}

/// `parse_number_i32` as a result.
pub open spec fn number_result(text: Seq<char>) -> Result<i32, TokenErrorModel> {
    number_upper_result(unicode_upper(text))
}

/// The value of a number token already in upper case (see
/// `number_result`).
pub open spec fn number_upper_result(u: Seq<char>) -> Result<i32, TokenErrorModel> {
    match number_value(u) {
        Some(x) => Ok(x),
        None => Err(
            token_error_model(
                TokenType::Operand,
                u,
                "Only numeric values within valid range with right suffixes are allowed"@,
            ),
        ),
    }
}

/// `parse_8bit_number` as a result.
pub open spec fn byte_number_result(text: Seq<char>) -> Result<u8, TokenErrorModel> {
    match byte_number_of(text) {
        Some(x) => Ok(x),
        None => Err(
            token_error_model(
                TokenType::Operand,
                text,
                "Only 8-bit numeric values with right suffixes are allowed"@,
            ),
        ),
    }
}

/// `parse_register` as a result: the code of the register named by the
/// operand in upper case; a number that is not below 8 is out of range.
pub open spec fn register_result(op: Seq<char>) -> Result<u8, TokenErrorModel> {
    register_upper_result(unicode_upper(op))
}

/// The register code of an operand already in upper case (see
/// `register_result`).
pub open spec fn register_upper_result(u: Seq<char>) -> Result<u8, TokenErrorModel> {
    match register_code(u) {
        Some(x) => Ok(x),
        None => Err(
            token_error_model(
                TokenType::Operand,
                u,
                if byte_number_of(u) is Some {
                    "Register number is out of range"@
                } else {
                    "Only registers as words or their numeric presentation is allowed"@
                },
            ),
        ),
    }
}

/// `parse_register_pair` as a result.
pub open spec fn pair_result(op: Seq<char>) -> Result<u8, TokenErrorModel> {
    pair_upper_result(unicode_upper(op))
}

/// The register-pair code of an operand already in upper case (see
/// `pair_result`).
pub open spec fn pair_upper_result(u: Seq<char>) -> Result<u8, TokenErrorModel> {
    match register_pair_code(u) {
        Some(x) => Ok(x),
        None => Err(
            token_error_model(TokenType::Operand, u, "Only register pairs as words are allowed"@),
        ),
    }
}

pub open spec fn opt_views(o: Option<Vec<String>>) -> Option<Seq<Seq<char>>> {
    match o {
        Some(v) => Some(views(v@)),
        None => None,
    }
}

/// `assert_operand_amount` as a result: the operands when there are
/// exactly `n`.
pub open spec fn amount_result(ops: Option<Seq<Seq<char>>>, n: nat) -> Result<Seq<Seq<char>>, TokenErrorModel> {
    match ops {
        Some(o) => if o.len() < n {
            Err(token_error_model(TokenType::Operand, join_commas(o), "Too few operands"@))
        } else if o.len() > n {
            Err(token_error_model(TokenType::Operand, join_commas(o), "Too many operands"@))
        } else {
            Ok(o)
        },
        None => Err(token_error_model(TokenType::Operand, Seq::empty(), "Too few operands"@)),
    }
}

/// The two bytes, low first, of a value cut to 16 bits.
pub open spec fn word_bytes(v: i32) -> (u8, u8) {
    ((v as u16) as u8, ((v as u16) >> 8u16) as u8)
}

/// What `parse_16bit_expr` gives for an outcome of evaluation: values in
/// -32768..=65535 as two bytes, low first; (0, 0) for an expression kept
/// for the end.
pub open spec fn word_value(o: CalcOutcome, expr: Seq<char>) -> Result<(u8, u8), TokenErrorModel> {
    match o {
        CalcOutcome::Value(v) => if -32768 <= v <= 65535 {
            Ok(word_bytes(v))
        } else {
            Err(
                token_error_model(
                    TokenType::Operand,
                    expr,
                    "Expression does not fit in signed 16 bits"@,
                ),
            )
        },
        CalcOutcome::Deferred(_) => Ok((0u8, 0u8)),
        CalcOutcome::Failed(em) => Err(em),
    }
}

/// What `parse_8bit_expr` gives for an outcome of evaluation: values in
/// -128..=255 as a byte; 0 for an expression kept for the end.
pub open spec fn byte_value(o: CalcOutcome, expr: Seq<char>) -> Result<u8, TokenErrorModel> {
    match o {
        CalcOutcome::Value(v) => if -128 <= v <= 255 {
            Ok(v as u8)
        } else {
            Err(
                token_error_model(TokenType::Operand, expr, "Expression does not fit in signed 8 bits"@),
            )
        },
        CalcOutcome::Deferred(_) => Ok(0u8),
        CalcOutcome::Failed(em) => Err(em),
    }
}

/// What `parse_positive_16bit_expr_immediately` gives for an outcome of
/// evaluation without forward references: a value that is not negative,
/// cut to 16 bits.
pub open spec fn positive_value(o: CalcOutcome, expr: Seq<char>) -> Result<u16, TokenErrorModel> {
    match o {
        CalcOutcome::Value(v) => if v >= 0 {
            Ok(v as u16)
        } else {
            Err(token_error_model(TokenType::Operand, expr, "Value cannot be nagative"@))
        },
        CalcOutcome::Deferred(_) => Err(
            token_error_model(
                TokenType::Operand,
                expr,
                "Expression cannot be immediately evaluated"@,
            ),
        ),
        CalcOutcome::Failed(em) => Err(em),
    }
}

/// A result with its error taken as a model.
pub open spec fn result_model<T>(r: Result<T, InvalidTokenError>) -> Result<T, TokenErrorModel> {
    match r {
        Ok(x) => Ok(x),
        Err(e) => Err(e.model()),
    }
}

impl Assembler {
    /// A 16-bit operand: an expression whose value lies in -32768..=65535,
    /// as two bytes, low first. An expression with symbols not yet defined
    /// is kept for the end (its bytes are stored at the location counter
    /// plus `offset`) and gives (0, 0) for now.
    pub fn parse_16bit_expr(&mut self, expr: &str, offset: usize) -> (r: Result<(u8, u8), InvalidTokenError>)
        ensures
            calc_effect(*old(self), *final(self), expr@, offset, true),
            result_model(r) == word_value(calc_outcome(*old(self), expr@, true), expr@),
    {
        match self.calculate_expression(expr, offset, true) {
            Err(e) => Err(e),
            Ok(Some(v)) => {
                if -32768 <= v && v <= 65535 {
                    let val = (v as i16) as u16;
                    proof {
                        assert((v as i16) as u16 == v as u16) by (bit_vector);
                        assert((val & 0xFF) as u8 == val as u8) by (bit_vector);
                    }
                    Ok(((val & 0xFF) as u8, (val >> 8u16) as u8))
                } else {
                    Err(
                        token_error(
                            expr.to_owned(),
                            TokenType::Operand,
                            "Expression does not fit in signed 16 bits",
                        ),
                    )
                }
            },
            Ok(None) => Ok((0, 0)),
        }
    }

    /// A value for ORG and DS: an expression that can be evaluated now and
    /// is not negative, cut to 16 bits.
    pub fn parse_positive_16bit_expr_immediately(&mut self, expr: &str) -> (r: Result<u16, InvalidTokenError>)
        ensures
            calc_effect(*old(self), *final(self), expr@, 0, false),
            result_model(r) == positive_value(calc_outcome(*old(self), expr@, false), expr@),
    {
        match self.calculate_expression(expr, 0, false) {
            Err(e) => Err(e),
            Ok(Some(v)) => {
                if v >= 0 {
                    Ok(v as u16)
                } else {
                    Err(token_error(expr.to_owned(), TokenType::Operand, "Value cannot be nagative"))
                }
            },
            Ok(None) => Err(
                token_error(
                    expr.to_owned(),
                    TokenType::Operand,
                    "Expression cannot be immediately evaluated",
                ),
            ),
        }
    }

    /// An 8-bit operand: an expression whose value lies in -128..=255, as
    /// a byte. An expression with symbols not yet defined is kept for the
    /// end and gives 0 for now.
    pub fn parse_8bit_expr(&mut self, expr: &str, offset: usize) -> (r: Result<u8, InvalidTokenError>)
        ensures
            calc_effect(*old(self), *final(self), expr@, offset, true),
            result_model(r) == byte_value(calc_outcome(*old(self), expr@, true), expr@),
    {
        match self.calculate_expression(expr, offset, true) {
            Err(e) => Err(e),
            Ok(Some(v)) => {
                if -128 <= v && v <= 255 {
                    proof {
                        assert((v as i8) as u8 == v as u8) by (bit_vector);
                    }
                    Ok((v as i8) as u8)
                } else {
                    Err(
                        token_error(
                            expr.to_owned(),
                            TokenType::Operand,
                            "Expression does not fit in signed 8 bits",
                        ),
                    )
                }
            },
            Ok(None) => Ok(0),
        }
    }

    /// The value of a number (`number_value`) given in upper case.
    pub fn number_value_chars(value: &[char]) -> (r: Option<i32>)
        ensures
            r == number_value(value@),
    {
        if value.len() == 0 {
            return None;
        }
        let last = value[value.len() - 1];
        let n = value.len() - 1;
        if last == 'O' || last == 'Q' {
            proof {
                assert(value@.subrange(0, n as int) =~= value@.drop_last());
            }
            from_str_radix_chars(&value[0..n], 8)
        } else if last == 'B' {
            proof {
                assert(value@.subrange(0, n as int) =~= value@.drop_last());
            }
            from_str_radix_chars(&value[0..n], 2)
        } else if last == 'H' && (value[0] == '-' || ('0' <= value[0] && value[0] <= '9')) {
            proof {
                assert(value@.subrange(0, n as int) =~= value@.drop_last());
            }
            from_str_radix_chars(&value[0..n], 16)
        } else if last == 'D' {
            proof {
                assert(value@.subrange(0, n as int) =~= value@.drop_last());
            }
            from_str_radix_chars(&value[0..n], 10)
        } else {
            from_str_radix_chars(value, 10)
        }
    }

    /// Reads a number with an optional base suffix (O/Q, B, H, D).
    pub fn parse_number_i32(number: &str) -> (r: Result<i32, InvalidTokenError>)
        ensures
            result_model(r) == number_result(number@),
            all_ascii(number@) ==> result_model(r) == number_upper_result(upper_seq(number@)),
    {
        let value = to_uppercase(number);
        let chars = chars_of(value.as_str());
        match Self::number_value_chars(chars.as_slice()) {
            Some(x) => Ok(x),
            None => Err(
                token_error(
                    value,
                    TokenType::Operand,
                    "Only numeric values within valid range with right suffixes are allowed",
                ),
            ),
        }
    }

    /// Reads an 8-bit number: a number whose low 16 bits, read as signed,
    /// lie in -128..=255.
    pub fn parse_8bit_number(number: &str) -> (r: Result<u8, InvalidTokenError>)
        ensures
            result_model(r) == byte_number_result(number@),
    {
        match Self::parse_number_i32(number) {
            Ok(x) => {
                let v = x as i16;
                if -128 <= v && v <= 255 {
                    Ok(v as u8)
                } else {
                    Err(
                        token_error(
                            number.to_owned(),
                            TokenType::Operand,
                            "Only 8-bit numeric values with right suffixes are allowed",
                        ),
                    )
                }
            },
            Err(_) => Err(
                token_error(
                    number.to_owned(),
                    TokenType::Operand,
                    "Only 8-bit numeric values with right suffixes are allowed",
                ),
            ),
        }
    }

    /// Register code (0..8) of an operand: B, C, D, E, H, L, M, A in any
    /// case, or a number below 8.
    pub fn parse_register(operand: &str) -> (r: Result<u8, InvalidTokenError>)
        ensures
            result_model(r) == register_result(operand@),
            all_ascii(operand@) ==> result_model(r) == register_upper_result(upper_seq(operand@)),
            r matches Ok(x) ==> x < 8,
    {
        let register = to_uppercase(operand);
        Self::register_from_upper(register)
    }

    /// The register code of an operand already in upper case (see
    /// `register_upper_result`).
    pub fn register_from_upper(register: String) -> (r: Result<u8, InvalidTokenError>)
        ensures
            result_model(r) == register_upper_result(register@),
            r matches Ok(x) ==> x < 8,
    {
        let u = chars_of(register.as_str());
        if chars_eq_str(u.as_slice(), "B") {
            Ok(0b000)
        } else if chars_eq_str(u.as_slice(), "C") {
            Ok(0b001)
        } else if chars_eq_str(u.as_slice(), "D") {
            Ok(0b010)
        } else if chars_eq_str(u.as_slice(), "E") {
            Ok(0b011)
        } else if chars_eq_str(u.as_slice(), "H") {
            Ok(0b100)
        } else if chars_eq_str(u.as_slice(), "L") {
            Ok(0b101)
        } else if chars_eq_str(u.as_slice(), "M") {
            Ok(0b110)
        } else if chars_eq_str(u.as_slice(), "A") {
            Ok(0b111)
        } else {
            match Self::parse_8bit_number(register.as_str()) {
                Ok(x) => {
                    if x < 8 {
                        Ok(x)
                    } else {
                        Err(
                            token_error(
                                register,
                                TokenType::Operand,
                                "Register number is out of range",
                            ),
                        )
                    }
                },
                Err(_) => Err(
                    token_error(
                        register,
                        TokenType::Operand,
                        "Only registers as words or their numeric presentation is allowed",
                    ),
                ),
            }
        }
    }

    /// Register-pair code (0..4) of an operand: BC/B, DE/D, HL/H, SP/PSW in
    /// any case.
    pub fn parse_register_pair(operand: &str) -> (r: Result<u8, InvalidTokenError>)
        ensures
            result_model(r) == pair_result(operand@),
            all_ascii(operand@) ==> result_model(r) == pair_upper_result(upper_seq(operand@)),
            r matches Ok(x) ==> x < 4,
    {
        let register_pair = to_uppercase(operand);
        Self::pair_from_upper(register_pair)
    }

    /// The register-pair code of an operand already in upper case (see
    /// `pair_upper_result`).
    pub fn pair_from_upper(register_pair: String) -> (r: Result<u8, InvalidTokenError>)
        ensures
            result_model(r) == pair_upper_result(register_pair@),
            r matches Ok(x) ==> x < 4,
    {
        let u = chars_of(register_pair.as_str());
        if chars_eq_str(u.as_slice(), "BC") || chars_eq_str(u.as_slice(), "B") {
            Ok(0b00)
        } else if chars_eq_str(u.as_slice(), "DE") || chars_eq_str(u.as_slice(), "D") {
            Ok(0b01)
        } else if chars_eq_str(u.as_slice(), "HL") || chars_eq_str(u.as_slice(), "H") {
            Ok(0b10)
        } else if chars_eq_str(u.as_slice(), "SP") || chars_eq_str(u.as_slice(), "PSW") {
            Ok(0b11)
        } else {
            Err(
                token_error(
                    register_pair,
                    TokenType::Operand,
                    "Only register pairs as words are allowed",
                ),
            )
        }
    }

    /// The operands when there are exactly `allowed_amount` of them.
    pub fn assert_operand_amount(operands: &Option<Vec<String>>, allowed_amount: usize) -> (r:
        Result<&Vec<String>, InvalidTokenError>)
        ensures
            match r {
                Ok(ops) => amount_result(opt_views(*operands), allowed_amount as nat) == Ok::<
                    Seq<Seq<char>>,
                    TokenErrorModel,
                >(views(ops@)) && *operands == Some(*ops),
                Err(e) => amount_result(opt_views(*operands), allowed_amount as nat) == Err::<
                    Seq<Seq<char>>,
                    TokenErrorModel,
                >(e.model()),
            },
    {
        match operands {
            Some(operands) => {
                if operands.len() < allowed_amount {
                    Err(token_error(join_operands(operands), TokenType::Operand, "Too few operands"))
                } else if operands.len() > allowed_amount {
                    Err(
                        token_error(join_operands(operands), TokenType::Operand, "Too many operands"),
                    )
                } else {
                    Ok(operands)
                }
            },
            None => Err(token_error(String::new(), TokenType::Operand, "Too few operands")),
        }
    }
}

} // verus!

use vstd::prelude::*;

use crate::assembler::errors::{
    token_error, token_error_model, InvalidTokenError, OverflowError, TokenErrorModel,
    TokenOrOverflowError, TokenType,
};
use crate::assembler::expressions::{
    calc_outcome, pending_views, sat_add, CalcOutcome, PendingModel,
};
use crate::assembler::symbols::{
    name_problem, set_symbol_entry, symbol_check, Macro, MacroModel, ScopeModel, SymbolKind,
    SymbolScope,
};
use crate::assembler::utils::{
    amount_result, byte_value, opt_views, positive_value, views, word_value,
};
use crate::assembler::fields::{opt_string, replace_param};
use crate::assembler::symbols::MacroScope;
use crate::text::all_ascii;
use crate::assembler::{Assembler, MEMORY_SIZE};

verus! {

/// The first operand that is not a valid name, if any.
pub open spec fn first_invalid_name(ops: Seq<Seq<char>>) -> Option<Seq<char>>
    decreases ops.len(),
{
    if ops.len() == 0 {
        None
    } else {
        match first_invalid_name(ops.drop_last()) {
            Some(x) => Some(x),
            None => if name_problem(ops.last()) is Some {
                Some(ops.last())
            } else {
                None
            },
        }
    }
}

/// What an IF line does: an operand that can be evaluated now opens a block
/// that is assembled when the value is not zero.
pub open spec fn if_result(a: Assembler, ops: Option<Seq<Seq<char>>>) -> Result<bool, TokenErrorModel> {
    match amount_result(ops, 1) {
        Err(e) => Err(e),
        Ok(o) => match calc_outcome(a, o[0], false) {
            CalcOutcome::Value(v) => Ok(v != 0),
            CalcOutcome::Failed(em) => Err(em),
            CalcOutcome::Deferred(_) => Err(
                token_error_model(TokenType::Operand, o[0], "IF does not allow forward referencing"@),
            ),
        },
    }
}

/// The value of an EQU or SET line, which must be known now.
pub open spec fn assignment_value(a: Assembler, ops: Option<Seq<Seq<char>>>, directive: Seq<char>) -> Result<i32, TokenErrorModel> {
    match amount_result(ops, 1) {
        Err(e) => Err(e),
        Ok(o) => match calc_outcome(a, o[0], false) {
            CalcOutcome::Value(v) => Ok(v),
            CalcOutcome::Failed(em) => Err(em),
            CalcOutcome::Deferred(_) => Err(
                token_error_model(
                    TokenType::Operand,
                    o[0],
                    directive + " does not allow forward referencing"@,
                ),
            ),
        },
    }
}

/// What a MACRO line does (see `handle_macro_instruction`).
pub open spec fn macro_start_effect(
    before: Assembler,
    after: Assembler,
    label: Option<Seq<char>>,
    ops: Option<Seq<Seq<char>>>,
    r: Result<(), InvalidTokenError>,
) -> bool {
    if before.in_macro_definition {
        r matches Err(e) && e.model() == token_error_model(
            TokenType::Instruction,
            "MACRO"@,
            "Nested MACRO definitions are not allowed"@,
        ) && after == before
    } else {
        match label {
            None => r matches Err(e) && e.model() == token_error_model(
                TokenType::Label,
                Seq::empty(),
                "Label is empty"@,
            ) && after == before,
            Some(n) => match symbol_check(before, n, SymbolKind::Macro, ScopeModel::Global) {
                Err(em) => r matches Err(e) && e.model() == em && after == before,
                Ok(_) => {
                    let params = match ops {
                        Some(o) => o,
                        None => Seq::empty(),
                    };
                    match first_invalid_name(params) {
                        Some(bad) => r matches Err(e) && e.model() == token_error_model(
                            TokenType::Operand,
                            bad,
                            "Is not a valid parameter name"@,
                        ) && after == before,
                        None => r is Ok && (after.current_macro_def_name matches Some(d) && d@
                            == n) && (after.current_macro matches Some(m) && m@ == MacroModel {
                            params,
                            body: Seq::empty(),
                        }) && after == Assembler {
                            in_macro_definition: true,
                            current_macro_def_name: after.current_macro_def_name,
                            current_macro: after.current_macro,
                            ..before
                        },
                    }
                },
            },
        }
    }
}

/// What ENDM does: the macro being defined joins the table under its
/// name; without a definition in progress it is an error.
pub open spec fn endm_effect(before: Assembler, after: Assembler, r: Result<(), InvalidTokenError>) -> bool {
    match (before.in_macro_definition, before.current_macro_def_name, before.current_macro) {
        (true, Some(name), Some(m)) => r is Ok && after.macros@ == before.macros@.push((name, m))
            && after == (Assembler {
            macros: after.macros,
            in_macro_definition: false,
            current_macro_def_name: None,
            current_macro: None,
            ..before
        }),
        _ => r matches Err(e) && e.model() == token_error_model(
            TokenType::Instruction,
            "ENDM"@,
            "ENDM without matching MACRO"@,
        ) && after == before,
    }
}

impl Assembler {
    /// The state with the IF stack replaced.
    pub open spec fn with_if_stack(self, s: Vec<bool>) -> Assembler {
        Assembler { if_stack: s, ..self }
    }

    /// IF: evaluates its operand now and pushes whether it is not zero.
    pub fn handle_if_instruction(&mut self, operands: &Option<Vec<String>>) -> (r: Result<(), InvalidTokenError>)
        ensures
            match if_result(*old(self), opt_views(*operands)) {
                Ok(b) => r is Ok && final(self).if_stack@ == old(self).if_stack@.push(b)
                    && *final(self) == old(self).with_if_stack(final(self).if_stack),
                Err(em) => r matches Err(e) && e.model() == em && *final(self) == *old(self),
            },
    {
        let ops = Self::assert_operand_amount(operands, 1)?;
        let value = match self.calculate_expression(ops[0].as_str(), 0, false)? {
            Some(v) => v,
            None => {
                return Err(
                    token_error(
                        ops[0].clone(),
                        TokenType::Operand,
                        "IF does not allow forward referencing",
                    ),
                );
            },
        };
        self.if_stack.push(value != 0);
        Ok(())
    }

    /// ENDIF: closes the innermost IF block.
    pub fn handle_endif_instruction(&mut self) -> (r: Result<(), InvalidTokenError>)
        ensures
            old(self).if_stack@.len() == 0 ==> (r matches Err(e) && e.model() == token_error_model(
                TokenType::Instruction,
                "ENDIF"@,
                "ENDIF without matching IF"@,
            ) && *final(self) == *old(self)),
            old(self).if_stack@.len() > 0 ==> r is Ok && final(self).if_stack@
                == old(self).if_stack@.drop_last() && *final(self) == old(self).with_if_stack(
                final(self).if_stack,
            ),
    {
        if self.if_stack.len() == 0 {
            return Err(
                token_error("ENDIF".to_owned(), TokenType::Instruction, "ENDIF without matching IF"),
            );
        }
        self.if_stack.pop();
        Ok(())
    }

    /// MACRO: starts the definition of a macro named by the label, with the
    /// operands as parameter names; the following lines up to ENDM are its
    /// body.
    pub fn handle_macro_instruction(&mut self, label: &Option<String>, operands: &Option<Vec<String>>) -> (r: Result<(), InvalidTokenError>)
        ensures
            macro_start_effect(*old(self), *final(self), opt_string(*label), opt_views(*operands), r),
    {
        if self.in_macro_definition {
            return Err(
                token_error(
                    "MACRO".to_owned(),
                    TokenType::Instruction,
                    "Nested MACRO definitions are not allowed",
                ),
            );
        }
        let name = self.assert_valid_symbol_name(label, SymbolKind::Macro, &SymbolScope::Global)?;
        let mut params: Vec<String> = Vec::new();
        match operands {
            Some(ops) => {
                let mut i: usize = 0;
                while i < ops.len()
                    invariant
                        i <= ops@.len(),
                        *self == *old(self),
                        !old(self).in_macro_definition,
                        *operands == Some(*ops),
                        label matches Some(n) && symbol_check(
                            *old(self),
                            n@,
                            SymbolKind::Macro,
                            ScopeModel::Global,
                        ) is Ok,
                        views(params@) == views(ops@).take(i as int),
                        first_invalid_name(views(ops@).take(i as int)) is None,
                    decreases ops@.len() - i,
                {
                    proof {
                        assert(views(ops@).take(i + 1).drop_last() =~= views(ops@).take(i as int));
                    }
                    if self.validate_name(ops[i].as_str()).is_ok() {
                        let ghost before = params@;
                        params.push(ops[i].clone());
                        proof {
                            assert(views(params@) =~= views(before).push(ops@[i as int]@));
                            assert(views(ops@).take(i + 1) =~= views(ops@).take(i as int).push(
                                ops@[i as int]@,
                            ));
                        }
                    } else {
                        proof {
                            assert(views(ops@)[i as int] == ops@[i as int]@);
                            lemma_first_invalid_extends(views(ops@), i as int + 1);
                            assert(views(ops@).take(ops@.len() as int) =~= views(ops@));
                            assert(first_invalid_name(views(ops@).take(ops@.len() as int)) == Some(
                                ops@[i as int]@,
                            ));
                        }
                        return Err(
                            token_error(
                                ops[i].clone(),
                                TokenType::Operand,
                                "Is not a valid parameter name",
                            ),
                        );
                    }
                    i = i + 1;
                }
                proof {
                    assert(views(ops@).take(ops@.len() as int) =~= views(ops@));
                }
            },
            None => {
                proof {
                    assert(views(params@) =~= Seq::<Seq<char>>::empty());
                }
            },
        }
        self.in_macro_definition = true;
        self.current_macro_def_name = Some(name);
        self.current_macro = Some(Macro { params, body: Vec::new() });
        proof {
            let m = self.current_macro->0;
            assert(m@.body =~= Seq::<Seq<char>>::empty());
        }
        Ok(())
    }

    /// ENDM: ends the macro definition in progress and adds the macro to
    /// the table.
    pub fn handle_endm_instruction(&mut self) -> (r: Result<(), InvalidTokenError>)
        ensures
            endm_effect(*old(self), *final(self), r),
    {
        if !self.in_macro_definition || self.current_macro_def_name.is_none()
            || self.current_macro.is_none() {
            return Err(
                token_error(
                    "ENDM".to_owned(),
                    TokenType::Instruction,
                    "ENDM without matching MACRO",
                ),
            );
        }
        let name = self.current_macro_def_name.take().unwrap();
        let mac = self.current_macro.take().unwrap();
        self.macros.push((name, mac));
        self.in_macro_definition = false;
        Ok(())
    }
}

/// What ORG does: the location counter becomes the value of its operand,
/// which must be known now and not negative.
pub open spec fn org_effect(
    before: Assembler,
    after: Assembler,
    ops: Option<Seq<Seq<char>>>,
    r: Result<(), InvalidTokenError>,
) -> bool {
    match amount_result(ops, 1) {
        Err(em) => r matches Err(e) && e.model() == em && after == before,
        Ok(o) => match positive_value(calc_outcome(before, o[0], false), o[0]) {
            Ok(v) => r is Ok && after == Assembler { memory_pointer: v as usize, ..before },
            Err(em) => r matches Err(e) && e.model() == em && after == before,
        },
    }
}

/// What EQU (kind `Equ`) and SET (kind `Variable`) do: the label, checked
/// in the current scope, gets the value of the operand, which must be
/// known now (see `set_symbol_entry`).
pub open spec fn assignment_effect(
    before: Assembler,
    after: Assembler,
    label: Option<Seq<char>>,
    ops: Option<Seq<Seq<char>>>,
    kind: SymbolKind,
    directive: Seq<char>,
    r: Result<(), InvalidTokenError>,
) -> bool {
    match label {
        None => r matches Err(e) && e.model() == token_error_model(
            TokenType::Label,
            Seq::empty(),
            "Label is empty"@,
        ) && after == before,
        Some(n) => match symbol_check(before, n, kind, before.current_scope()) {
            Err(em) => r matches Err(e) && e.model() == em && after == before,
            Ok(_) => match assignment_value(before, ops, directive) {
                Err(em) => r matches Err(e) && e.model() == em && after == before,
                Ok(v) => r is Ok && after.same_but_symbols(before) && forall|k: Seq<char>|
                    #[trigger] after.symbol(k) == if k == set_symbol_entry(before, n, v, kind).0 {
                        Some(set_symbol_entry(before, n, v, kind).1)
                    } else {
                        before.symbol(k)
                    },
            },
        },
    }
}

/// What `handle_pseudo_instruction` does with ORG, END, EQU, SET and
/// MACRO; any other word is not a pseudo-instruction.
pub open spec fn pseudo_effect(
    before: Assembler,
    after: Assembler,
    label: Option<Seq<char>>,
    instruction: Seq<char>,
    ops: Option<Seq<Seq<char>>>,
    r: Result<(), InvalidTokenError>,
) -> bool {
    if instruction == "ORG"@ {
        org_effect(before, after, ops, r)
    } else if instruction == "END"@ {
        r is Ok && after == Assembler { stopped: true, ..before }
    } else if instruction == "EQU"@ {
        assignment_effect(before, after, label, ops, SymbolKind::Equ, "EQU"@, r)
    } else if instruction == "SET"@ {
        assignment_effect(before, after, label, ops, SymbolKind::Variable, "SET"@, r)
    } else if instruction == "MACRO"@ {
        macro_start_effect(before, after, label, ops, r)
    } else {
        r matches Err(e) && e.model() == token_error_model(
            TokenType::Instruction,
            instruction,
            "It is not a valid pseudo-instruction"@,
        ) && after == before
    }
}

impl Assembler {
    /// EQU or SET: checks the label, evaluates the operand now, and sets the
    /// symbol.
    fn handle_assignment(
        &mut self,
        label: &Option<String>,
        operands: &Option<Vec<String>>,
        kind: SymbolKind,
        directive: &str,
    ) -> (r: Result<(), InvalidTokenError>)
        requires
            kind == SymbolKind::Equ || kind == SymbolKind::Variable,
        ensures
            assignment_effect(
                *old(self),
                *final(self),
                opt_string(*label),
                opt_views(*operands),
                kind,
                directive@,
                r,
            ),
    {
        let scope = match &self.current_macro_scope {
            Some(m) => SymbolScope::Local(m.copy()),
            None => SymbolScope::Global,
        };
        let name = self.assert_valid_symbol_name(label, kind, &scope)?;
        let ops = Self::assert_operand_amount(operands, 1)?;
        let value = match self.calculate_expression(ops[0].as_str(), 0, false)? {
            Some(v) => v,
            None => {
                let mut info = directive.to_owned();
                crate::text::push_str(&mut info, " does not allow forward referencing");
                return Err(
                    InvalidTokenError {
                        token: ops[0].clone(),
                        token_type: TokenType::Operand,
                        additional_info: Some(info),
                    },
                );
            },
        };
        self.set_symbol(name, value, kind);
        Ok(())
    }

    /// ORG, END, EQU, SET and MACRO (see `pseudo_effect`).
    pub fn handle_pseudo_instruction(
        &mut self,
        label: &Option<String>,
        instruction: &str,
        operands: &Option<Vec<String>>,
    ) -> (r: Result<(), InvalidTokenError>)
        ensures
            final(self).current_line == old(self).current_line,
            old(self).wf() ==> final(self).wf(),
            pseudo_effect(
                *old(self),
                *final(self),
                opt_string(*label),
                instruction@,
                opt_views(*operands),
                r,
            ),
    {
        let i = crate::text::chars_of(instruction);
        let i = i.as_slice();
        if crate::text::chars_eq_str(i, "ORG") {
            let ops = Self::assert_operand_amount(operands, 1)?;
            let address = self.parse_positive_16bit_expr_immediately(ops[0].as_str())?;
            self.memory_pointer = address as usize;
            Ok(())
        } else if crate::text::chars_eq_str(i, "END") {
            self.stopped = true;
            Ok(())
        } else if crate::text::chars_eq_str(i, "EQU") {
            self.handle_assignment(label, operands, SymbolKind::Equ, "EQU")
        } else if crate::text::chars_eq_str(i, "SET") {
            self.handle_assignment(label, operands, SymbolKind::Variable, "SET")
        } else if crate::text::chars_eq_str(i, "MACRO") {
            self.handle_macro_instruction(label, operands)
        } else {
            Err(
                token_error(
                    instruction.to_owned(),
                    TokenType::Instruction,
                    "It is not a valid pseudo-instruction",
                ),
            )
        }
    }
}

/// A DB operand that is a string: quoted, and more than three bytes long
/// (two quotes and a character of more than one byte, or more than two
/// characters between the quotes).
pub open spec fn is_string_operand(op: Seq<char>) -> bool {
    &&& op.len() >= 2
    &&& op[0] == '\''
    &&& op[op.len() - 1] == '\''
    &&& (op.len() >= 4 || (op.len() == 3 && (op[1] as u32) > 0x7F))
}

/// The codes of ASCII characters.
pub open spec fn ascii_bytes(s: Seq<char>) -> Seq<u8> {
    s.map_values(|c: char| (c as u32) as u8)
}

/// A pending expression kept for the byte or word at `offset`.
pub open spec fn pending_at(a: Assembler, offset: int, e: crate::assembler::expressions::ExprModel) -> PendingModel {
    PendingModel {
        addr: sat_add(a.memory_pointer, offset as usize),
        expr: e,
        line: a.current_line,
        macro_scope: a.scope_id(),
    }
}

/// DB over its first `n` operands: the expressions kept for the end, and
/// the bytes or the first error. A string gives the codes of its
/// characters (all ASCII); any other operand an 8-bit expression stored at
/// its offset.
pub open spec fn db_upto(a: Assembler, ops: Seq<Seq<char>>, n: int) -> (Seq<PendingModel>, Result<Seq<u8>, TokenErrorModel>)
    decreases n,
{
    if n <= 0 {
        (Seq::empty(), Ok(Seq::empty()))
    } else {
        let (added, res) = db_upto(a, ops, n - 1);
        match res {
            Err(e) => (added, Err(e)),
            Ok(bytes) => {
                let op = ops[n - 1];
                if is_string_operand(op) {
                    let inner = op.subrange(1, op.len() - 1);
                    if all_ascii(inner) {
                        (added, Ok(bytes + ascii_bytes(inner)))
                    } else {
                        (
                            added,
                            Err(
                                token_error_model(
                                    TokenType::Operand,
                                    op,
                                    "String contains non-ASCII characters"@,
                                ),
                            ),
                        )
                    }
                } else {
                    let o = calc_outcome(a, op, true);
                    let added2 = match o {
                        CalcOutcome::Deferred(e) => added.push(pending_at(a, bytes.len() as int, e)),
                        _ => added,
                    };
                    match byte_value(o, op) {
                        Ok(b) => (added2, Ok(bytes.push(b))),
                        Err(em) => (added2, Err(em)),
                    }
                }
            },
        }
    }
}

/// DW over its first `n` operands: each a 16-bit expression, low byte
/// first.
pub open spec fn dw_upto(a: Assembler, ops: Seq<Seq<char>>, n: int) -> (Seq<PendingModel>, Result<Seq<u8>, TokenErrorModel>)
    decreases n,
{
    if n <= 0 {
        (Seq::empty(), Ok(Seq::empty()))
    } else {
        let (added, res) = dw_upto(a, ops, n - 1);
        match res {
            Err(e) => (added, Err(e)),
            Ok(bytes) => {
                let op = ops[n - 1];
                let o = calc_outcome(a, op, true);
                let added2 = match o {
                    CalcOutcome::Deferred(e) => added.push(pending_at(a, bytes.len() as int, e)),
                    _ => added,
                };
                match word_value(o, op) {
                    Ok((lo, hi)) => (added2, Ok(bytes.push(lo).push(hi))),
                    Err(em) => (added2, Err(em)),
                }
            },
        }
    }
}

/// A data-statement result as a model.
pub open spec fn data_error(r: Result<Option<Vec<u8>>, TokenOrOverflowError>) -> Option<TokenErrorModel> {
    match r {
        Err(TokenOrOverflowError::InvalidToken(e)) => Some(e.model()),
        _ => None,
    }
}

/// What DB or DW (given by `upto`) does with its operands.
pub open spec fn fill_effect(
    before: Assembler,
    after: Assembler,
    added: Seq<PendingModel>,
    res: Result<Seq<u8>, TokenErrorModel>,
    r: Result<Option<Vec<u8>>, TokenOrOverflowError>,
) -> bool {
    &&& after.same_but_pending(before)
    &&& pending_views(after.pending_exprs@) == pending_views(before.pending_exprs@) + added
    &&& match res {
        Ok(b) => r matches Ok(Some(v)) && v@ == b,
        Err(em) => r is Err && data_error(r) == Some(em),
    }
}

/// What `handle_data_statement` does: DB and DW give bytes to store at the
/// location counter; DS moves the location counter by its operand (known
/// now, not negative), unless that passes the end of memory.
pub open spec fn data_effect(
    before: Assembler,
    after: Assembler,
    instruction: Seq<char>,
    ops: Option<Seq<Seq<char>>>,
    r: Result<Option<Vec<u8>>, TokenOrOverflowError>,
) -> bool {
    if instruction == "DB"@ || instruction == "DW"@ {
        match ops {
            None => r is Err && data_error(r) == Some(
                token_error_model(TokenType::Operand, instruction, "Missing operands"@),
            ) && after == before,
            Some(o) => if instruction == "DB"@ {
                fill_effect(before, after, db_upto(before, o, o.len() as int).0, db_upto(before, o, o.len() as int).1, r)
            } else {
                fill_effect(before, after, dw_upto(before, o, o.len() as int).0, dw_upto(before, o, o.len() as int).1, r)
            },
        }
    } else if instruction == "DS"@ {
        match amount_result(ops, 1) {
            Err(em) => r is Err && data_error(r) == Some(em) && after == before,
            Ok(o) => match positive_value(calc_outcome(before, o[0], false), o[0]) {
                Err(em) => r is Err && data_error(r) == Some(em) && after == before,
                Ok(size) => if before.memory_pointer + size > MEMORY_SIZE {
                    r matches Err(TokenOrOverflowError::Overflow(_)) && after == before
                } else {
                    r matches Ok(None) && after == Assembler {
                        memory_pointer: (before.memory_pointer + size) as usize,
                        ..before
                    }
                },
            },
        }
    } else {
        r is Err && data_error(r) == Some(
            token_error_model(
                TokenType::Instruction,
                instruction,
                "It is not a valid data statement"@,
            ),
        ) && after == before
    }
}

/// Evaluation does not look at the pending list.
proof fn lemma_calc_outcome_ignores_pending(a: Assembler, b: Assembler, e: Seq<char>, allow: bool)
    requires
        a.same_but_pending(b),
    ensures
        calc_outcome(a, e, allow) == calc_outcome(b, e, allow),
        a.scope_id() == b.scope_id(),
{
}

impl Assembler {
    /// DB: the bytes of its operands (see `db_upto`).
    fn data_bytes(&mut self, ops: &Vec<String>) -> (r: Result<Vec<u8>, InvalidTokenError>)
        ensures
            fill_effect(
                *old(self),
                *final(self),
                db_upto(*old(self), views(ops@), ops@.len() as int).0,
                db_upto(*old(self), views(ops@), ops@.len() as int).1,
                match r {
                    Ok(v) => Ok(Some(v)),
                    Err(e) => Err(TokenOrOverflowError::InvalidToken(e)),
                },
            ),
    {
        let ghost a = *self;
        let ghost o = views(ops@);
        let mut values: Vec<u8> = Vec::new();
        let mut i: usize = 0;
        while i < ops.len()
            invariant
                i <= ops@.len(),
                o == views(ops@),
                a == *old(self),
                self.same_but_pending(a),
                pending_views(self.pending_exprs@) == pending_views(a.pending_exprs@) + db_upto(a, o, i as int).0,
                db_upto(a, o, i as int).1 == Ok::<Seq<u8>, TokenErrorModel>(values@),
            decreases ops@.len() - i,
        {
            let op = crate::text::chars_of(ops[i].as_str());
            assert(o[i as int] == op@);
            let n = op.len();
            if n >= 2 && op[0] == '\'' && op[n - 1] == '\'' && (n >= 4 || (n == 3 && (op[1] as u32) > 0x7F)) {
                let ghost start = values@;
                let mut j: usize = 1;
                while j < n - 1
                    invariant
                        1 <= j <= n - 1,
                        n == op@.len(),
                        n >= 2,
                        i < ops@.len(),
                        o == views(ops@),
                        a == *old(self),
                        o[i as int] == op@,
                        is_string_operand(op@),
                        db_upto(a, o, i as int).1 == Ok::<Seq<u8>, TokenErrorModel>(start),
                        values@ == start + ascii_bytes(op@.subrange(1, j as int)),
                        all_ascii(op@.subrange(1, j as int)),
                        self.same_but_pending(a),
                        pending_views(self.pending_exprs@) == pending_views(a.pending_exprs@) + db_upto(a, o, i as int).0,
                    decreases n - 1 - j,
                {
                    let c = op[j];
                    if (c as u32) > 0x7F {
                        proof {
                            assert(!all_ascii(op@.subrange(1, n - 1)) ) by {
                                assert(op@.subrange(1, n - 1)[j - 1] == c);
                            }
                            lemma_db_error_stays(a, o, i as int + 1, o.len() as int);
                            assert(db_upto(a, o, i as int + 1).0 == db_upto(a, o, i as int).0);
                            assert(db_upto(a, o, i as int + 1).1 == Err::<Seq<u8>, TokenErrorModel>(
                                token_error_model(
                                    TokenType::Operand,
                                    o[i as int],
                                    "String contains non-ASCII characters"@,
                                ),
                            ));
                            assert(ops@.len() == o.len());
                        }
                        return Err(
                            token_error(
                                ops[i].clone(),
                                TokenType::Operand,
                                "String contains non-ASCII characters",
                            ),
                        );
                    }
                    values.push((c as u32) as u8);
                    proof {
                        assert(ascii_bytes(op@.subrange(1, j + 1)) =~= ascii_bytes(
                            op@.subrange(1, j as int),
                        ).push((c as u32) as u8));
                        assert forall|k: int| 0 <= k < op@.subrange(1, j + 1).len() implies (
                        #[trigger] op@.subrange(1, j + 1)[k]) as u32 <= 0x7F by {
                            if k < j - 1 {
                                assert(op@.subrange(1, j + 1)[k] == op@.subrange(1, j as int)[k]);
                            }
                        }
                    }
                    j = j + 1;
                }
            } else {
                let offset = values.len();
                let ghost before = *self;
                proof {
                    lemma_calc_outcome_ignores_pending(before, a, o[i as int], true);
                }
                match self.parse_8bit_expr(ops[i].as_str(), offset) {
                    Ok(b) => {
                        values.push(b);
                    },
                    Err(e) => {
                        proof {
                            assert(!is_string_operand(o[i as int]));
                            assert(db_upto(a, o, i as int + 1).1 is Err);
                            lemma_db_error_stays(a, o, i as int + 1, o.len() as int);
                            assert(db_upto(a, o, i as int + 1).1 == Err::<Seq<u8>, TokenErrorModel>(e.model()));
                            assert(db_upto(a, o, i as int + 1).0 == db_upto(a, o, i as int).0);
                            assert(ops@.len() == o.len());
                        }
                        return Err(e);
                    },
                }
            }
            i = i + 1;
        }
        proof {
            assert(o.len() == ops@.len());
        }
        Ok(values)
    }
}

impl Assembler {
    /// DW: the bytes of its operands (see `dw_upto`).
    fn data_words(&mut self, ops: &Vec<String>) -> (r: Result<Vec<u8>, InvalidTokenError>)
        ensures
            fill_effect(
                *old(self),
                *final(self),
                dw_upto(*old(self), views(ops@), ops@.len() as int).0,
                dw_upto(*old(self), views(ops@), ops@.len() as int).1,
                match r {
                    Ok(v) => Ok(Some(v)),
                    Err(e) => Err(TokenOrOverflowError::InvalidToken(e)),
                },
            ),
    {
        let ghost a = *self;
        let ghost o = views(ops@);
        let mut values: Vec<u8> = Vec::new();
        let mut i: usize = 0;
        while i < ops.len()
            invariant
                i <= ops@.len(),
                o == views(ops@),
                a == *old(self),
                self.same_but_pending(a),
                pending_views(self.pending_exprs@) == pending_views(a.pending_exprs@) + dw_upto(a, o, i as int).0,
                dw_upto(a, o, i as int).1 == Ok::<Seq<u8>, TokenErrorModel>(values@),
            decreases ops@.len() - i,
        {
            assert(o[i as int] == ops@[i as int]@);
            let offset = values.len();
            let ghost before = *self;
            proof {
                lemma_calc_outcome_ignores_pending(before, a, o[i as int], true);
            }
            match self.parse_16bit_expr(ops[i].as_str(), offset) {
                Ok((lo, hi)) => {
                    values.push(lo);
                    values.push(hi);
                },
                Err(e) => {
                    proof {
                        assert(dw_upto(a, o, i as int + 1).1 == Err::<Seq<u8>, TokenErrorModel>(e.model()));
                        lemma_dw_error_stays(a, o, i as int + 1, o.len() as int);
                        assert(dw_upto(a, o, i as int + 1).0 == dw_upto(a, o, i as int).0);
                    }
                    return Err(e);
                },
            }
            i = i + 1;
        }
        Ok(values)
    }

    /// DB, DW and DS (see `data_effect`).
    pub fn handle_data_statement(&mut self, instruction: &str, operands: &Option<Vec<String>>) -> (r: Result<Option<Vec<u8>>, TokenOrOverflowError>)
        requires
            old(self).wf(),
        ensures
            final(self).current_line == old(self).current_line,
            final(self).wf(),
            data_effect(*old(self), *final(self), instruction@, opt_views(*operands), r),
    {
        let i = crate::text::chars_of(instruction);
        let i = i.as_slice();
        if crate::text::chars_eq_str(i, "DB") || crate::text::chars_eq_str(i, "DW") {
            match operands {
                None => Err(
                    TokenOrOverflowError::InvalidToken(
                        token_error(instruction.to_owned(), TokenType::Operand, "Missing operands"),
                    ),
                ),
                Some(ops) => {
                    let r = if crate::text::chars_eq_str(i, "DB") {
                        self.data_bytes(ops)
                    } else {
                        self.data_words(ops)
                    };
                    match r {
                        Ok(v) => Ok(Some(v)),
                        Err(e) => Err(TokenOrOverflowError::InvalidToken(e)),
                    }
                },
            }
        } else if crate::text::chars_eq_str(i, "DS") {
            let ops = match Self::assert_operand_amount(operands, 1) {
                Ok(o) => o,
                Err(e) => {
                    return Err(TokenOrOverflowError::InvalidToken(e));
                },
            };
            let size = match self.parse_positive_16bit_expr_immediately(ops[0].as_str()) {
                Ok(s) => s,
                Err(e) => {
                    return Err(TokenOrOverflowError::InvalidToken(e));
                },
            };
            if self.memory_pointer + size as usize > MEMORY_SIZE {
                return Err(TokenOrOverflowError::Overflow(OverflowError));
            }
            self.memory_pointer = self.memory_pointer + size as usize;
            Ok(None)
        } else {
            Err(
                TokenOrOverflowError::InvalidToken(
                    token_error(
                        instruction.to_owned(),
                        TokenType::Instruction,
                        "It is not a valid data statement",
                    ),
                ),
            )
        }
    }
}

/// After the first error, DW over more operands gives the same.
proof fn lemma_dw_error_stays(a: Assembler, ops: Seq<Seq<char>>, k: int, n: int)
    requires
        0 <= k <= n,
        dw_upto(a, ops, k).1 is Err,
    ensures
        dw_upto(a, ops, n) == dw_upto(a, ops, k),
    decreases n - k,
{
    if n > k {
        lemma_dw_error_stays(a, ops, k, n - 1);
    }
}

/// A body line with the first `n` parameters replaced by their values.
pub open spec fn substitute(line: Seq<char>, params: Seq<Seq<char>>, values: Seq<Seq<char>>, n: int) -> Seq<char>
    decreases n,
{
    if n <= 0 {
        line
    } else {
        replace_param(substitute(line, params, values, n - 1), params[n - 1], values[n - 1])
    }
}

/// The body of a macro with every parameter replaced by its value.
pub open spec fn expand_body(body: Seq<Seq<char>>, params: Seq<Seq<char>>, values: Seq<Seq<char>>) -> Seq<Seq<char>> {
    body.map_values(|l: Seq<char>| substitute(l, params, values, params.len() as int))
}

/// What a macro call does: with as many operands as the macro has
/// parameters, the expanded body becomes the current macro, to be read
/// next in a new expansion scope with the next expansion number.
pub open spec fn expansion_effect(
    before: Assembler,
    after: Assembler,
    instruction: Seq<char>,
    ops: Option<Seq<Seq<char>>>,
    r: Result<(), InvalidTokenError>,
) -> bool {
    match before.macro_def(instruction) {
        None => r matches Err(e) && e.model() == token_error_model(
            TokenType::Instruction,
            instruction,
            "It is not a valid macro"@,
        ) && after == before,
        Some(m) => {
            let values = match ops {
                Some(o) => o,
                None => Seq::empty(),
            };
            if m.params.len() != values.len() {
                r matches Err(e) && e.model() == token_error_model(
                    TokenType::Operand,
                    instruction,
                    "Invalid number of macro operands"@,
                ) && after == before
            } else if before.next_macro_expansion_id == u64::MAX {
                r matches Err(e) && e.model() == token_error_model(
                    TokenType::Instruction,
                    instruction,
                    "Too many macro expansions"@,
                ) && after == before
            } else {
                &&& r is Ok
                &&& after.current_macro_scope matches Some(sc) && sc@ == (
                    instruction,
                    before.next_macro_expansion_id,
                )
                &&& after.current_macro matches Some(x) && x@ == MacroModel {
                    params: m.params,
                    body: expand_body(m.body, m.params, values),
                }
                &&& after == Assembler {
                    in_macro_expansion: true,
                    current_macro_scope: after.current_macro_scope,
                    next_macro_expansion_id: (before.next_macro_expansion_id + 1) as u64,
                    current_macro: after.current_macro,
                    ..before
                }
            }
        },
    }
}

impl Assembler {
    /// A macro call (see `expansion_effect`).
    pub fn handle_macro_expansion(&mut self, instruction: &str, operands: &Option<Vec<String>>) -> (r: Result<(), InvalidTokenError>)
        ensures
            final(self).current_line == old(self).current_line,
            old(self).wf() ==> final(self).wf(),
            expansion_effect(*old(self), *final(self), instruction@, opt_views(*operands), r),
    {
        let key = instruction.to_owned();
        let mac = match self.find_macro(&key) {
            None => {
                return Err(
                    token_error(key, TokenType::Instruction, "It is not a valid macro"),
                );
            },
            Some(m) => m.copy(),
        };
        let empty: Vec<String> = Vec::new();
        let values: &Vec<String> = match operands {
            Some(o) => o,
            None => &empty,
        };
        let ghost vals = views(values@);
        let ghost params = views(mac.params@);
        proof {
            let expected = match opt_views(*operands) {
                Some(o) => o,
                None => Seq::<Seq<char>>::empty(),
            };
            assert(vals =~= expected);
        }
        if mac.params.len() != values.len() {
            return Err(
                token_error(key, TokenType::Operand, "Invalid number of macro operands"),
            );
        }
        if self.next_macro_expansion_id == u64::MAX {
            return Err(token_error(key, TokenType::Instruction, "Too many macro expansions"));
        }
        let mut body: Vec<String> = Vec::new();
        let mut k: usize = 0;
        while k < mac.body.len()
            invariant
                k <= mac.body@.len(),
                params == views(mac.params@),
                vals == views(values@),
                mac.params@.len() == values@.len(),
                views(body@) == expand_body(views(mac.body@), params, vals).take(k as int),
            decreases mac.body@.len() - k,
        {
            let mut line = mac.body[k].clone();
            let mut p: usize = 0;
            while p < mac.params.len()
                invariant
                    p <= mac.params@.len(),
                    k < mac.body@.len(),
                    params == views(mac.params@),
                    vals == views(values@),
                    mac.params@.len() == values@.len(),
                    line@ == substitute(mac.body@[k as int]@, params, vals, p as int),
                decreases mac.params@.len() - p,
            {
                line = Self::replace_param_token(line.as_str(), mac.params[p].as_str(), values[p].as_str());
                p = p + 1;
            }
            let ghost before = body@;
            body.push(line);
            proof {
                assert(views(body@) =~= views(before).push(line@));
                assert(expand_body(views(mac.body@), params, vals).take(k + 1) =~= expand_body(
                    views(mac.body@),
                    params,
                    vals,
                ).take(k as int).push(line@));
            }
            k = k + 1;
        }
        proof {
            assert(expand_body(views(mac.body@), params, vals).take(mac.body@.len() as int)
                =~= expand_body(views(mac.body@), params, vals));
        }
        let id = self.next_macro_expansion_id;
        self.in_macro_expansion = true;
        self.current_macro_scope = Some(MacroScope { name: key, id });
        self.next_macro_expansion_id = id + 1;
        self.current_macro = Some(Macro { params: mac.params, body });
        Ok(())
    }
}

/// Storing bytes at `ptr`: the memory after, the location counter after,
/// and whether the end of memory was not reached. A write that reaches the
/// last byte of memory is made and then reported as an overflow.
pub open spec fn store_values(mem: Seq<u8>, ptr: int, values: Seq<u8>) -> (Seq<u8>, int, bool) {
    if values.len() == 0 {
        (mem, ptr, true)
    } else if ptr >= mem.len() {
        (mem, ptr, false)
    } else {
        let ok = ptr + values.len() < mem.len();
        let k = if ok { values.len() as int } else { mem.len() - ptr };
        (
            Seq::new(mem.len(), |j: int| if ptr <= j < ptr + k { values[j - ptr] } else { mem[j] }),
            ptr + k,
            ok,
        )
    }
}

/// What storing bytes does to the state: the memory and the location
/// counter as `store_values` gives them, nothing else.
pub open spec fn save_effect(before: Assembler, after: Assembler, values: Seq<u8>) -> bool {
    let st = store_values(before.memory@, before.memory_pointer as int, values);
    &&& after.memory@ == st.0
    &&& after.memory_pointer == st.1
    &&& after == (Assembler { memory: after.memory, memory_pointer: after.memory_pointer, ..before })
}

impl Assembler {
    /// Stores bytes at the location counter, moving it past them; reaching
    /// the end of memory is an overflow (see `store_values`).
    pub fn save_values_to_memory(&mut self, values: Vec<u8>) -> (r: Result<(), OverflowError>)
        requires
            old(self).wf(),
        ensures
            final(self).current_line == old(self).current_line,
            final(self).wf(),
            save_effect(*old(self), *final(self), values@),
            r is Ok == store_values(old(self).memory@, old(self).memory_pointer as int, values@).2,
    {
        let ghost mem0 = self.memory@;
        let ghost ptr0 = self.memory_pointer;
        let mut i: usize = 0;
        while i < values.len()
            invariant
                i <= values@.len(),
                ptr0 == old(self).memory_pointer,
                mem0 == old(self).memory@,
                ptr0 <= MEMORY_SIZE,
                self.memory_pointer == ptr0 + i,
                self.memory_pointer < MEMORY_SIZE || i == 0,
                i > 0 ==> ptr0 + i < MEMORY_SIZE,
                self.memory@.len() == MEMORY_SIZE,
                forall|j: int| 0 <= j < MEMORY_SIZE ==> #[trigger] self.memory@[j] == if ptr0 <= j < ptr0 + i {
                    values@[j - ptr0]
                } else {
                    mem0[j]
                },
                *self == (Assembler {
                    memory: self.memory,
                    memory_pointer: self.memory_pointer,
                    ..*old(self)
                }),
            decreases values@.len() - i,
        {
            if self.memory_pointer >= MEMORY_SIZE {
                proof {
                    assert(self.memory@ =~= mem0);
                }
                return Err(OverflowError);
            }
            let p = self.memory_pointer;
            self.memory[p] = values[i];
            self.memory_pointer = p + 1;
            i = i + 1;
            if self.memory_pointer >= MEMORY_SIZE {
                proof {
                    let st = store_values(mem0, ptr0 as int, values@);
                    assert(self.memory@ =~= st.0);
                }
                return Err(OverflowError);
            }
        }
        proof {
            let st = store_values(mem0, ptr0 as int, values@);
            if values@.len() > 0 {
                assert(self.memory@ =~= st.0);
            } else {
                assert(self.memory@ =~= mem0);
            }
        }
        Ok(())
    }
}

/// After the first error, DB over more operands gives the same.
proof fn lemma_db_error_stays(a: Assembler, ops: Seq<Seq<char>>, k: int, n: int)
    requires
        0 <= k <= n,
        db_upto(a, ops, k).1 is Err,
    ensures
        db_upto(a, ops, n) == db_upto(a, ops, k),
    decreases n - k,
{
    if n > k {
        lemma_db_error_stays(a, ops, k, n - 1);
    }
}

/// Once a name is invalid, every longer prefix has an invalid name.
proof fn lemma_first_invalid_extends(ops: Seq<Seq<char>>, k: int)
    requires
        0 < k <= ops.len(),
        name_problem(ops[k - 1]) is Some,
        first_invalid_name(ops.take(k - 1)) is None,
    ensures
        first_invalid_name(ops.take(k)) == Some(ops[k - 1]),
        forall|j: int| k <= j <= ops.len() ==> #[trigger] first_invalid_name(ops.take(j)) == Some(
            ops[k - 1],
        ),
{
    assert(ops.take(k).drop_last() =~= ops.take(k - 1));
    assert forall|j: int| k <= j <= ops.len() implies #[trigger] first_invalid_name(ops.take(j))
        == Some(ops[k - 1]) by {
        lemma_first_invalid_stays(ops, k, j);
    }
}

proof fn lemma_first_invalid_stays(ops: Seq<Seq<char>>, k: int, j: int)
    requires
        0 < k <= j <= ops.len(),
        first_invalid_name(ops.take(k)) == Some(ops[k - 1]),
    ensures
        first_invalid_name(ops.take(j)) == Some(ops[k - 1]),
    decreases j - k,
{
    if j > k {
        lemma_first_invalid_stays(ops, k, j - 1);
        assert(ops.take(j).drop_last() =~= ops.take(j - 1));
    }
}

} // verus!

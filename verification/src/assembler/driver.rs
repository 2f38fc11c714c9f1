use vstd::prelude::*;

use crate::assembler::directives::{
    data_effect, endm_effect, expansion_effect, if_result, pseudo_effect, save_effect,
    store_values,
};
use crate::assembler::instructions::instruction_effect;
use crate::assembler::symbols::label_effect;
use crate::assembler::errors::{
    invalid_token_text, token_error, token_error_model, AssemblyError, InvalidTokenError,
    TokenOrOverflowError, TokenType,
};
use crate::assembler::expressions::{pending_views, resolve_upto, symbol_value};
use crate::assembler::fields::{fields_of, opt_string};
use crate::assembler::symbols::MacroModel;
use crate::assembler::symbols::copy_strings;
use crate::assembler::utils::{opt_views, views};
use crate::assembler::{Assembler, MEMORY_SIZE};
use crate::text::{
    chars_eq_str, chars_of, contains_char, is_all_ascii, push_char, string_of, trim_chars,
    trim_seq, all_ascii,
};

verus! {

/// Scanning lines: the lines so far and the current line.
pub open spec fn line_scan(s: Seq<char>) -> (Seq<Seq<char>>, Seq<char>)
    decreases s.len(),
{
    if s.len() == 0 {
        (Seq::empty(), Seq::empty())
    } else {
        let (ls, cur) = line_scan(s.drop_last());
        if s.last() == '\n' {
            (ls.push(strip_cr(cur)), Seq::empty())
        } else {
            (ls, cur.push(s.last()))
        }
    }
}

/// A line without the carriage return that ends it, if any.
pub open spec fn strip_cr(l: Seq<char>) -> Seq<char> {
    if l.len() > 0 && l.last() == '\r' {
        l.drop_last()
    } else {
        l
    }
}

/// The lines of a text as `str::lines` gives them: split at line feeds,
/// each without a carriage return just before its line feed, and without
/// an empty last line.
pub open spec fn lines_of(s: Seq<char>) -> Seq<Seq<char>> {
    let (ls, cur) = line_scan(s);
    if cur.len() > 0 {
        ls.push(cur)
    } else {
        ls
    }
}

/// The lines of a text (see `lines_of`).
pub fn split_lines(data: &str) -> (r: Vec<String>)
    ensures
        views(r@) == lines_of(data@),
{
    let chars = chars_of(data);
    let mut lines: Vec<String> = Vec::new();
    let mut cur: Vec<char> = Vec::new();
    let mut i: usize = 0;
    while i < chars.len()
        invariant
            i <= chars@.len(),
            chars@ == data@,
            line_scan(chars@.take(i as int)) == (views(lines@), cur@),
        decreases chars@.len() - i,
    {
        proof {
            assert(chars@.take(i + 1).drop_last() =~= chars@.take(i as int));
        }
        let c = chars[i];
        if c == '\n' {
            let n = cur.len();
            let line = if n > 0 && cur[n - 1] == '\r' {
                let v = crate::text::slice_to_vec(cur.as_slice(), 0, n - 1);
                proof {
                    assert(v@ =~= cur@.drop_last());
                }
                string_of(v.as_slice())
            } else {
                string_of(cur.as_slice())
            };
            let ghost before = lines@;
            lines.push(line);
            proof {
                assert(views(lines@) =~= views(before).push(strip_cr(cur@)));
            }
            cur = Vec::new();
        } else {
            cur.push(c);
        }
        i = i + 1;
    }
    proof {
        assert(chars@.take(chars@.len() as int) =~= chars@);
    }
    if cur.len() > 0 {
        let ghost before = lines@;
        lines.push(string_of(cur.as_slice()));
        proof {
            assert(views(lines@) =~= views(before).push(cur@));
        }
    }
    lines
}

/// Whether every open IF block has a true condition.
pub open spec fn compiling(a: Assembler) -> bool {
    forall|i: int| 0 <= i < a.if_stack@.len() ==> #[trigger] a.if_stack@[i]
}

/// The line error with the given number, text and message.
pub open spec fn is_line_error(e: AssemblyError, n: usize, text: Seq<char>, message: Seq<char>) -> bool {
    e.line_number == n && e.line_text@ == text && e.message@ == message
}

/// `r` carries an invalid-token error like `e`.
pub open spec fn fails_like(r: Result<(), TokenOrOverflowError>, e: InvalidTokenError) -> bool {
    r matches Err(TokenOrOverflowError::InvalidToken(x)) && x.model() == e.model()
}

/// Storing the bytes of a line: it succeeds unless the end of memory is
/// reached.
pub open spec fn store_step(before: Assembler, after: Assembler, values: Seq<u8>, r: Result<(), TokenOrOverflowError>) -> bool {
    &&& save_effect(before, after, values)
    &&& if store_values(before.memory@, before.memory_pointer as int, values).2 {
        r is Ok
    } else {
        r matches Err(TokenOrOverflowError::Overflow(_))
    }
}

/// The last stage of an instruction: a machine instruction, whose bytes
/// are stored.
pub open spec fn machine_step(
    before: Assembler,
    after: Assembler,
    i: Seq<char>,
    ops: Option<Seq<Seq<char>>>,
    r: Result<(), TokenOrOverflowError>,
) -> bool {
    exists|s: Assembler, ri: Result<Vec<u8>, InvalidTokenError>|
        #[trigger] instruction_effect(before, s, i, ops, ri) && match ri {
            Ok(v) => store_step(s, after, v@, r),
            Err(e) => fails_like(r, e) && after == s,
        }
}

/// The third stage: a macro call; an instruction that names no macro goes
/// on to the next stage.
pub open spec fn macro_step(
    before: Assembler,
    after: Assembler,
    i: Seq<char>,
    ops: Option<Seq<Seq<char>>>,
    r: Result<(), TokenOrOverflowError>,
) -> bool {
    exists|s: Assembler, rm: Result<(), InvalidTokenError>|
        #[trigger] expansion_effect(before, s, i, ops, rm) && match rm {
            Ok(_) => r is Ok && after == s,
            Err(e) => if e.token_type == TokenType::Instruction {
                machine_step(s, after, i, ops, r)
            } else {
                fails_like(r, e) && after == s
            },
        }
}

/// The second stage: a pseudo-instruction.
pub open spec fn pseudo_step(
    before: Assembler,
    after: Assembler,
    label: Option<Seq<char>>,
    i: Seq<char>,
    ops: Option<Seq<Seq<char>>>,
    r: Result<(), TokenOrOverflowError>,
) -> bool {
    exists|s: Assembler, rp: Result<(), InvalidTokenError>|
        #[trigger] pseudo_effect(before, s, label, i, ops, rp) && match rp {
            Ok(_) => r is Ok && after == s,
            Err(e) => if e.token_type == TokenType::Instruction {
                macro_step(s, after, i, ops, r)
            } else {
                fails_like(r, e) && after == s
            },
        }
}

/// The instruction of a line: tried as a data statement (whose bytes are
/// stored), a pseudo-instruction, a macro call and a machine instruction,
/// in this order; a stage that does not know the word leaves the state as
/// it was and passes it on.
pub open spec fn instruction_step(
    before: Assembler,
    after: Assembler,
    label: Option<Seq<char>>,
    i: Seq<char>,
    ops: Option<Seq<Seq<char>>>,
    r: Result<(), TokenOrOverflowError>,
) -> bool {
    exists|s: Assembler, rd: Result<Option<Vec<u8>>, TokenOrOverflowError>|
        #[trigger] data_effect(before, s, i, ops, rd) && match rd {
            Ok(Some(v)) => store_step(s, after, v@, r),
            Ok(None) => r is Ok && after == s,
            Err(TokenOrOverflowError::Overflow(_)) => r matches Err(TokenOrOverflowError::Overflow(_))
                && after == s,
            Err(TokenOrOverflowError::InvalidToken(e)) => if e.token_type == TokenType::Instruction {
                pseudo_step(s, after, label, i, ops, r)
            } else {
                fails_like(r, e) && after == s
            },
        }
}

/// The label of a line: one with a colon is defined; one without is
/// allowed only before SET, EQU and MACRO.
pub open spec fn label_step(
    before: Assembler,
    after: Assembler,
    label: Option<Seq<char>>,
    instruction: Option<Seq<char>>,
    r: Result<(), InvalidTokenError>,
) -> bool {
    match label {
        None => r is Ok && after == before,
        Some(l) => if l.contains(':') {
            label_effect(before, after, l, r)
        } else if instruction matches Some(i) && (i == "SET"@ || i == "EQU"@ || i == "MACRO"@) {
            r is Ok && after == before
        } else {
            r matches Err(e) && e.model() == token_error_model(
                TokenType::Label,
                l,
                "Only SET, EQU and MACRO take labels without colons"@,
            ) && after == before
        },
    }
}

/// A line inside IF blocks whose conditions all hold: its label, then its
/// instruction if it has one.
pub open spec fn active_fields_effect(
    before: Assembler,
    after: Assembler,
    label: Option<Seq<char>>,
    instruction: Option<Seq<char>>,
    ops: Option<Seq<Seq<char>>>,
    r: Result<(), TokenOrOverflowError>,
) -> bool {
    exists|s: Assembler, rl: Result<(), InvalidTokenError>|
        #[trigger] label_step(before, s, label, instruction, rl) && match rl {
            Err(e) => fails_like(r, e) && after == s,
            Ok(_) => match instruction {
                None => r is Ok && after == s,
                Some(i) => instruction_step(s, after, label, i, ops, r),
            },
        }
}

/// What one line's fields do: IF and ENDIF always act; any other line
/// acts only inside IF blocks whose conditions all hold.
pub open spec fn fields_effect(
    before: Assembler,
    after: Assembler,
    label: Option<Seq<char>>,
    instruction: Option<Seq<char>>,
    ops: Option<Seq<Seq<char>>>,
    r: Result<(), TokenOrOverflowError>,
) -> bool {
    if instruction == Some("IF"@) {
        match if_result(before, ops) {
            Ok(b) => r is Ok && after.if_stack@ == before.if_stack@.push(b) && after
                == before.with_if_stack(after.if_stack),
            Err(em) => (r matches Err(TokenOrOverflowError::InvalidToken(e)) && e.model() == em)
                && after == before,
        }
    } else if instruction == Some("ENDIF"@) {
        if before.if_stack@.len() == 0 {
            (r matches Err(TokenOrOverflowError::InvalidToken(e)) && e.model() == token_error_model(
                TokenType::Instruction,
                "ENDIF"@,
                "ENDIF without matching IF"@,
            )) && after == before
        } else {
            r is Ok && after.if_stack@ == before.if_stack@.drop_last() && after
                == before.with_if_stack(after.if_stack)
        }
    } else if !compiling(before) {
        r is Ok && after == before
    } else {
        active_fields_effect(before, after, label, instruction, ops, r)
    }
}

/// What one line of the program, numbered `n`, does. The line is trimmed;
/// an empty line does nothing; a line with a character that is not ASCII
/// is an error. Inside a macro definition the line joins the macro's body,
/// unless it is ENDM. Otherwise its fields act (see `fields_effect`).
/// Errors carry the line's number, its trimmed text and a message.
pub open spec fn line_effect(before: Assembler, after: Assembler, line: Seq<char>, n: usize, r: Result<(), AssemblyError>) -> bool {
    let t = trim_seq(line);
    let a0 = Assembler { current_line: n, ..before };
    if t.len() == 0 {
        r is Ok && after == a0
    } else if !all_ascii(t) {
        (r matches Err(e) && is_line_error(e, n, t, "Non-ASCII characters found"@)) && after == a0
    } else {
        let f = fields_of(t, before.macros@);
        if before.in_macro_definition {
            if f.1 == Some("ENDM"@) {
                exists|re: Result<(), InvalidTokenError>|
                    #[trigger] endm_effect(a0, after, re) && match re {
                        Ok(_) => r is Ok,
                        Err(e) => r matches Err(x) && is_line_error(x, n, t, e.text()),
                    }
            } else {
                match before.current_macro {
                    Some(m) => r is Ok && (after.current_macro matches Some(m2) && m2@ == MacroModel {
                        params: m@.params,
                        body: m@.body.push(t),
                    }) && after == (Assembler { current_macro: after.current_macro, ..a0 }),
                    None => (r matches Err(e) && is_line_error(
                        e,
                        n,
                        t,
                        "Unterminated MACRO definition"@,
                    )) && after == a0,
                }
            }
        } else {
            exists|rf: Result<(), TokenOrOverflowError>|
                #[trigger] fields_effect(a0, after, f.0, f.1, f.2, rf) && match rf {
                    Ok(_) => r is Ok,
                    Err(TokenOrOverflowError::Overflow(_)) => r matches Err(e) && is_line_error(
                        e,
                        n,
                        t,
                        "Overflow"@,
                    ),
                    Err(TokenOrOverflowError::InvalidToken(e)) => r matches Err(x) && is_line_error(
                        x,
                        n,
                        t,
                        e.text(),
                    ),
                }
        }
    }
}

/// The state of the line loop of `assemble`: the assembler, the number of
/// program lines read, and the lines of the macro body being read with the
/// position in them.
pub struct DriveState {
    pub a: Assembler,
    pub next: int,
    pub lines: Option<Seq<Seq<char>>>,
    pub pos: int,
}

/// One turn of the line loop over the program `script`, with the result of
/// its line; turns are taken until assembly stops. In a macro expansion, the body of the current macro is taken
/// first if none is being read (without a macro the expansion ends); then
/// its next line is assembled, numbered like the line of the call, or the
/// expansion ends after its last line. Otherwise the next line of the
/// program is assembled, or, after the last, assembly stops.
pub open spec fn drive_step(script: Seq<Seq<char>>, s: DriveState, t: DriveState, r: Result<(), AssemblyError>) -> bool {
    &&& !s.a.stopped
    &&& if s.a.in_macro_expansion {
        let fetched: (Assembler, Option<Seq<Seq<char>>>, int) = match s.lines {
            Some(l) => (s.a, Some(l), s.pos),
            None => match s.a.current_macro {
                Some(m) => (s.a, Some(m@.body), 0),
                None => (
                    Assembler { in_macro_expansion: false, current_macro_scope: None, ..s.a },
                    None,
                    s.pos,
                ),
            },
        };
        let a1 = fetched.0;
        let pos = fetched.2;
        match fetched.1 {
            Some(l) => if pos < l.len() {
                &&& line_effect(a1, t.a, l[pos], s.next as usize, r)
                &&& t.next == s.next
                &&& t.lines == Some(l)
                &&& t.pos == pos + 1
            } else {
                &&& r is Ok
                &&& t.a == (Assembler {
                    in_macro_expansion: false,
                    current_macro: None,
                    current_macro_scope: None,
                    ..a1
                })
                &&& t.next == s.next
                &&& t.lines is None
                &&& t.pos == pos
            },
            None => r is Ok && t.a == a1 && t.next == s.next && t.lines is None && t.pos == pos,
        }
    } else if s.next < script.len() {
        &&& line_effect(s.a, t.a, script[s.next], (s.next + 1) as usize, r)
        &&& t.next == s.next + 1
        &&& t.lines == s.lines
        &&& t.pos == s.pos
    } else {
        &&& r is Ok
        &&& t.a == (Assembler { stopped: true, ..s.a })
        &&& t.next == s.next
        &&& t.lines == s.lines
        &&& t.pos == s.pos
    }
}

/// `trace` is a run of the line loop: successive states, each turn taken
/// with its line assembled without error.
pub open spec fn is_run(script: Seq<Seq<char>>, trace: Seq<DriveState>) -> bool {
    &&& trace.len() >= 1
    &&& forall|i: int|
        0 <= i < trace.len() - 1 ==> #[trigger] drive_step(
            script,
            trace[i],
            trace[i + 1],
            Ok::<(), AssemblyError>(()),
        )
}

/// A run followed by one more turn without error is again a run.
proof fn lemma_run_extends(script: Seq<Seq<char>>, trace: Seq<DriveState>, next: DriveState)
    requires
        is_run(script, trace),
        drive_step(script, trace.last(), next, Ok::<(), AssemblyError>(())),
    ensures
        is_run(script, trace.push(next)),
        trace.push(next)[0] == trace[0],
        trace.push(next).last() == next,
{
    let t = trace.push(next);
    assert forall|i: int| 0 <= i < t.len() - 1 implies #[trigger] drive_step(
        script,
        t[i],
        t[i + 1],
        Ok::<(), AssemblyError>(()),
    ) by {
        if i < trace.len() - 1 {
            assert(t[i] == trace[i] && t[i + 1] == trace[i + 1]);
            assert(drive_step(script, trace[i], trace[i + 1], Ok::<(), AssemblyError>(())));
        } else {
            assert(t[i] == trace.last() && t[i + 1] == next);
        }
    }
}

/// The end of assembly, once the lines are read (in state `a`): an IF
/// block or a macro definition still open is an error; else the
/// expressions kept for the end are stored and the memory image is the
/// result, or the first of them that still fails gives an error on its
/// line (the text shown is the program line after it, as numbered from 0).
pub open spec fn finish_effect(script: Seq<Seq<char>>, a: Assembler, after: Assembler, r: Result<[u8; MEMORY_SIZE], AssemblyError>) -> bool {
    if a.if_stack@.len() > 0 {
        (r matches Err(e) && is_line_error(e, 0, Seq::empty(), "Unclosed IF block"@)) && after == a
    } else if a.in_macro_definition {
        (r matches Err(e) && is_line_error(e, 0, Seq::empty(), "Unterminated MACRO definition"@))
            && after == a
    } else {
        let res = resolve_upto(
            a.memory@,
            a.symbols@,
            pending_views(a.pending_exprs@),
            a.pending_exprs@.len() as int,
        );
        &&& after.same_but_memory(a)
        &&& after.memory@ == res.0
        &&& match res.1 {
            None => r matches Ok(m) && m@ == res.0,
            Some((line, msg)) => r matches Err(e) && is_line_error(
                e,
                line,
                if line < script.len() {
                    script[line as int]
                } else {
                    Seq::empty()
                },
                invalid_token_text(TokenType::Label, msg, None),
            ),
        }
    }
}

/// What `assemble` does with the lines `script` of a program, from state
/// `before`: the line loop runs from the first line until a line fails or
/// assembly stops, and then assembly ends (see `finish_effect`).
pub open spec fn assembly_result(
    script: Seq<Seq<char>>,
    before: Assembler,
    after: Assembler,
    r: Result<[u8; MEMORY_SIZE], AssemblyError>,
) -> bool {
    let s0 = DriveState { a: before, next: 0, lines: None, pos: 0 };
    ||| exists|trace: Seq<DriveState>, t: DriveState, e: AssemblyError|
        #![trigger is_run(script, trace), drive_step(script, trace.last(), t, Err::<(), AssemblyError>(e))]
        is_run(script, trace) && trace[0] == s0 && drive_step(
            script,
            trace.last(),
            t,
            Err::<(), AssemblyError>(e),
        ) && after == t.a && r == Err::<[u8; MEMORY_SIZE], AssemblyError>(e)
    ||| exists|trace: Seq<DriveState>|
        #[trigger] is_run(script, trace) && trace[0] == s0 && trace.last().a.stopped
            && finish_effect(script, trace.last().a, after, r)
}

impl Assembler {
    /// Whether code is being assembled: every open IF has a true condition.
    fn is_compiling(&self) -> (r: bool)
        ensures
            r == compiling(*self),
    {
        let mut i: usize = 0;
        while i < self.if_stack.len()
            invariant
                i <= self.if_stack@.len(),
                forall|k: int| 0 <= k < i ==> #[trigger] self.if_stack@[k],
            decreases self.if_stack@.len() - i,
        {
            if !self.if_stack[i] {
                return false;
            }
            i = i + 1;
        }
        true
    }

    /// The value of the symbol kept under `key` (a name in upper case, for
    /// a local symbol followed by `@` and the expansion number), if any.
    pub fn symbol_value(&self, key: &str) -> (r: Option<i32>)
        ensures
            r == symbol_value(self.symbols@, key@),
    {
        match self.find_symbol(&key.to_owned()) {
            Some(s) => Some(s.value),
            None => None,
        }
    }

    /// The fields of one line: IF and ENDIF always; everything else only
    /// inside IF blocks whose conditions all hold. A label with a colon is
    /// defined first; one without is allowed only before SET, EQU and
    /// MACRO. The instruction is tried as a data statement, a
    /// pseudo-instruction, a macro call and a machine instruction, in this
    /// order, and the bytes it gives are stored at the location counter.
    pub fn handle_fields(
        &mut self,
        label: &Option<String>,
        instruction: &Option<String>,
        operands: &Option<Vec<String>>,
    ) -> (r: Result<(), TokenOrOverflowError>)
        requires
            old(self).wf(),
        ensures
            final(self).wf(),
            final(self).current_line == old(self).current_line,
            fields_effect(
                *old(self),
                *final(self),
                opt_string(*label),
                opt_string(*instruction),
                opt_views(*operands),
                r,
            ),
    {
        proof {
            reveal_strlit("IF");
            reveal_strlit("ENDIF");
            assert("IF"@.len() != "ENDIF"@.len());
            assert("IF"@ != "ENDIF"@);
        }
        match instruction {
            Some(i) => {
                let ic = chars_of(i.as_str());
                if chars_eq_str(ic.as_slice(), "IF") {
                    return match self.handle_if_instruction(operands) {
                        Ok(_) => Ok(()),
                        Err(e) => Err(TokenOrOverflowError::InvalidToken(e)),
                    };
                } else if chars_eq_str(ic.as_slice(), "ENDIF") {
                    return match self.handle_endif_instruction() {
                        Ok(_) => Ok(()),
                        Err(e) => Err(TokenOrOverflowError::InvalidToken(e)),
                    };
                }
            },
            None => {},
        }
        if !self.is_compiling() {
            return Ok(());
        }
        self.handle_active_fields(label, instruction, operands)
    }

    /// The fields of a line inside IF blocks whose conditions all hold
    /// (see `active_fields_effect`).
    fn handle_active_fields(
        &mut self,
        label: &Option<String>,
        instruction: &Option<String>,
        operands: &Option<Vec<String>>,
    ) -> (r: Result<(), TokenOrOverflowError>)
        requires
            old(self).wf(),
        ensures
            final(self).wf(),
            final(self).current_line == old(self).current_line,
            active_fields_effect(
                *old(self),
                *final(self),
                opt_string(*label),
                opt_string(*instruction),
                opt_views(*operands),
                r,
            ),
    {
        let ghost s0 = *self;
        let rl: Result<(), InvalidTokenError> = match label {
            Some(l) => {
                let lc = chars_of(l.as_str());
                if contains_char(lc.as_slice(), ':') {
                    self.define_label(l.as_str())
                } else {
                    let allowed = match instruction {
                        Some(i) => {
                            let ic = chars_of(i.as_str());
                            chars_eq_str(ic.as_slice(), "SET") || chars_eq_str(ic.as_slice(), "EQU")
                                || chars_eq_str(ic.as_slice(), "MACRO")
                        },
                        None => false,
                    };
                    if allowed {
                        Ok(())
                    } else {
                        Err(
                            token_error(
                                l.clone(),
                                TokenType::Label,
                                "Only SET, EQU and MACRO take labels without colons",
                            ),
                        )
                    }
                }
            },
            None => Ok(()),
        };
        let ghost s1 = *self;
        let ghost rl_g = rl;
        assert(label_step(s0, s1, opt_string(*label), opt_string(*instruction), rl_g));
        if let Err(e) = rl {
            return Err(TokenOrOverflowError::InvalidToken(e));
        }
        let instruction = match instruction {
            Some(i) => i,
            None => {
                return Ok(());
            },
        };
        let r = self.handle_instruction_stages(label, instruction, operands);
        r
    }

    /// The instruction of a line, after its label (see `instruction_step`).
    fn handle_instruction_stages(
        &mut self,
        label: &Option<String>,
        instruction: &String,
        operands: &Option<Vec<String>>,
    ) -> (r: Result<(), TokenOrOverflowError>)
        requires
            old(self).wf(),
        ensures
            final(self).wf(),
            final(self).current_line == old(self).current_line,
            instruction_step(
                *old(self),
                *final(self),
                opt_string(*label),
                instruction@,
                opt_views(*operands),
                r,
            ),
    {
        let ghost s0 = *self;
        let rd = self.handle_data_statement(instruction.as_str(), operands);
        let ghost s1 = *self;
        let ghost rd_g = rd;
        assert(data_effect(s0, s1, instruction@, opt_views(*operands), rd_g));
        match rd {
            Ok(Some(values)) => {
                let ghost vals = values@;
                let rs = self.save_values_to_memory(values);
                assert(store_step(s1, *self, vals, match rs {
                    Ok(_) => Ok(()),
                    Err(e) => Err(TokenOrOverflowError::Overflow(e)),
                }));
                return match rs {
                    Ok(_) => Ok(()),
                    Err(e) => Err(TokenOrOverflowError::Overflow(e)),
                };
            },
            Ok(None) => {
                return Ok(());
            },
            Err(TokenOrOverflowError::InvalidToken(e)) => {
                if e.token_type != TokenType::Instruction {
                    return Err(TokenOrOverflowError::InvalidToken(e));
                }
            },
            Err(TokenOrOverflowError::Overflow(e)) => {
                return Err(TokenOrOverflowError::Overflow(e));
            },
        }
        let rp = self.handle_pseudo_instruction(label, instruction.as_str(), operands);
        let ghost s2 = *self;
        let ghost rp_g = rp;
        assert(pseudo_effect(s1, s2, opt_string(*label), instruction@, opt_views(*operands), rp_g));
        match rp {
            Ok(_) => {
                return Ok(());
            },
            Err(e) => {
                if e.token_type != TokenType::Instruction {
                    return Err(TokenOrOverflowError::InvalidToken(e));
                }
            },
        }
        let rm = self.handle_macro_expansion(instruction.as_str(), operands);
        let ghost s3 = *self;
        let ghost rm_g = rm;
        assert(expansion_effect(s2, s3, instruction@, opt_views(*operands), rm_g));
        match rm {
            Ok(_) => {
                return Ok(());
            },
            Err(e) => {
                if e.token_type != TokenType::Instruction {
                    return Err(TokenOrOverflowError::InvalidToken(e));
                }
            },
        }
        let ri = self.handle_instruction(instruction.as_str(), operands);
        let ghost s4 = *self;
        let ghost ri_g = ri;
        assert(instruction_effect(s3, s4, instruction@, opt_views(*operands), ri_g));
        match ri {
            Ok(values) => {
                let ghost vals = values@;
                let rs = self.save_values_to_memory(values);
                assert(store_step(s4, *self, vals, match rs {
                    Ok(_) => Ok(()),
                    Err(e) => Err(TokenOrOverflowError::Overflow(e)),
                }));
                match rs {
                    Ok(_) => Ok(()),
                    Err(e) => Err(TokenOrOverflowError::Overflow(e)),
                }
            },
            Err(e) => Err(TokenOrOverflowError::InvalidToken(e)),
        }
    }

    /// One line of the program, numbered `line_number`. The line is
    /// trimmed; an empty line does nothing; a line with a character that is
    /// not ASCII is an error. Inside a macro definition the line is added
    /// to the body, unless it is ENDM. Errors carry the line's number, its
    /// trimmed text and a message.
    pub fn handle_line(&mut self, line: &str, line_number: usize) -> (r: Result<(), AssemblyError>)
        requires
            old(self).wf(),
        ensures
            final(self).wf(),
            final(self).current_line == line_number,
            line_effect(*old(self), *final(self), line@, line_number, r),
    {
        self.current_line = line_number;
        let ghost a0 = *self;
        let chars = chars_of(line);
        let t = trim_chars(chars.as_slice());
        let text = string_of(t.as_slice());
        if t.len() == 0 {
            return Ok(());
        }
        if !is_all_ascii(t.as_slice()) {
            return Err(
                AssemblyError {
                    line_number,
                    line_text: text,
                    message: "Non-ASCII characters found".to_owned(),
                },
            );
        }
        let (label, instruction, operands) = self.fetch_fields(text.as_str());
        if self.in_macro_definition {
            let is_endm = match &instruction {
                Some(i) => {
                    let ic = chars_of(i.as_str());
                    chars_eq_str(ic.as_slice(), "ENDM")
                },
                None => false,
            };
            if is_endm {
                let re = self.handle_endm_instruction();
                let ghost re_g = re;
                assert(endm_effect(a0, *self, re_g));
                match re {
                    Ok(_) => {},
                    Err(e) => {
                        return Err(
                            AssemblyError { line_number, line_text: text, message: e.message() },
                        );
                    },
                }
            } else {
                match self.current_macro.take() {
                    Some(mut m) => {
                        let ghost before = m@;
                        m.body.push(text);
                        proof {
                            assert(m@.body =~= before.body.push(t@));
                        }
                        self.current_macro = Some(m);
                    },
                    None => {
                        return Err(
                            AssemblyError {
                                line_number,
                                line_text: text,
                                message: "Unterminated MACRO definition".to_owned(),
                            },
                        );
                    },
                }
            }
            return Ok(());
        }
        proof {
            assert(text@ == trim_seq(line@));
            assert(a0 == (Assembler { current_line: line_number, ..*old(self) }));
            assert(fields_of(text@, old(self).macros@) == (
                opt_string(label),
                opt_string(instruction),
                opt_views(operands),
            ));
            assert(!old(self).in_macro_definition);
            assert(trim_seq(line@).len() > 0);
            assert(all_ascii(trim_seq(line@)));
        }
        let rf = self.handle_fields(&label, &instruction, &operands);
        let ghost rf_g = rf;
        assert(fields_effect(
            a0,
            *self,
            opt_string(label),
            opt_string(instruction),
            opt_views(operands),
            rf_g,
        ));
        let r = match rf {
            Ok(_) => Ok(()),
            Err(TokenOrOverflowError::Overflow(_)) => Err(
                AssemblyError { line_number, line_text: text, message: "Overflow".to_owned() },
            ),
            Err(TokenOrOverflowError::InvalidToken(e)) => Err(
                AssemblyError { line_number, line_text: text, message: e.message() },
            ),
        };
        proof {
            let t = trim_seq(line@);
            let f = fields_of(t, old(self).macros@);
            reveal_strlit("Overflow");
            assert(match rf_g {
                Ok(_) => r is Ok,
                Err(TokenOrOverflowError::Overflow(_)) => r matches Err(e) && is_line_error(
                    e,
                    line_number,
                    t,
                    "Overflow"@,
                ),
                Err(TokenOrOverflowError::InvalidToken(e)) => r matches Err(x) && is_line_error(
                    x,
                    line_number,
                    t,
                    e.text(),
                ),
            });
            assert(fields_effect(a0, *self, f.0, f.1, f.2, rf_g));
        }
        r
    }

    /// Assembles a program (see `assembly_result`): reads its lines in
    /// order (the lines of a macro body after a call of the macro), up to
    /// END or the last line; then checks that every IF block and macro
    /// definition was closed, stores the expressions that referred to later
    /// symbols, and gives the memory image.
    pub fn assemble(&mut self, data: &str) -> (r: Result<[u8; MEMORY_SIZE], AssemblyError>)
        requires
            old(self).wf(),
        ensures
            final(self).wf(),
            assembly_result(lines_of(data@), *old(self), *final(self), r),
    {
        let script = split_lines(data);
        let ghost sv = views(script@);
        let ghost s0 = DriveState { a: *self, next: 0, lines: None, pos: 0 };
        let ghost mut trace: Seq<DriveState> = seq![s0];
        let mut next_script: usize = 0;
        let mut macro_lines: Option<Vec<String>> = None;
        let mut macro_pos: usize = 0;
        while !self.stopped
            invariant
                self.wf(),
                sv == views(script@),
                sv == lines_of(data@),
                s0 == (DriveState { a: *old(self), next: 0, lines: None, pos: 0 }),
                next_script <= script@.len(),
                macro_lines matches Some(ml) ==> macro_pos <= ml@.len(),
                is_run(sv, trace),
                trace[0] == s0,
                trace.last() == (DriveState {
                    a: *self,
                    next: next_script as int,
                    lines: opt_views(macro_lines),
                    pos: macro_pos as int,
                }),
            ensures
                self.wf(),
                self.stopped,
                is_run(sv, trace),
                trace[0] == s0,
                trace.last() == (DriveState {
                    a: *self,
                    next: next_script as int,
                    lines: opt_views(macro_lines),
                    pos: macro_pos as int,
                }),
            decreases script@.len() - next_script + if self.stopped {
                0int
            } else {
                1int
            }, if !self.in_macro_expansion {
                0int
            } else {
                match macro_lines {
                    Some(ml) => ml@.len() - macro_pos + 1,
                    None => usize::MAX as int + 2,
                }
            },
        {
            let ghost cur = DriveState {
                a: *self,
                next: next_script as int,
                lines: opt_views(macro_lines),
                pos: macro_pos as int,
            };
            let mut next_line: Option<(String, usize)> = None;
            if self.in_macro_expansion {
                if macro_lines.is_none() {
                    match &self.current_macro {
                        Some(m) => {
                            macro_lines = Some(copy_strings(&m.body));
                            macro_pos = 0;
                        },
                        None => {
                            self.in_macro_expansion = false;
                            self.current_macro_scope = None;
                        },
                    }
                }
                let mut finished = false;
                match &macro_lines {
                    Some(lines) => {
                        if macro_pos < lines.len() {
                            next_line = Some((lines[macro_pos].clone(), next_script));
                            macro_pos = macro_pos + 1;
                        } else {
                            finished = true;
                        }
                    },
                    None => {},
                }
                if finished {
                    macro_lines = None;
                    self.in_macro_expansion = false;
                    self.current_macro = None;
                    self.current_macro_scope = None;
                }
            } else if next_script < script.len() {
                next_line = Some((script[next_script].clone(), next_script + 1));
                next_script = next_script + 1;
            } else {
                self.stopped = true;
            }
            let ghost a1 = *self;
            match next_line {
                Some((line, n)) => {
                    let rl = self.handle_line(line.as_str(), n);
                    let ghost next = DriveState {
                        a: *self,
                        next: next_script as int,
                        lines: opt_views(macro_lines),
                        pos: macro_pos as int,
                    };
                    let ghost rl_g = rl;
                    proof {
                        assert(line_effect(a1, *self, line@, n, rl_g));
                        assert(drive_step(sv, cur, next, rl_g));
                    }
                    match rl {
                        Ok(_) => {},
                        Err(e) => {
                            proof {
                                assert(is_run(sv, trace) && trace[0] == s0
                                    && drive_step(sv, trace.last(), next, Err::<(), AssemblyError>(e)));
                            }
                            return Err(e);
                        },
                    }
                },
                None => {},
            }
            proof {
                let next = DriveState {
                    a: *self,
                    next: next_script as int,
                    lines: opt_views(macro_lines),
                    pos: macro_pos as int,
                };
                assert(drive_step(sv, cur, next, Ok::<(), AssemblyError>(())));
                lemma_run_extends(sv, trace, next);
                trace = trace.push(next);
            }
        }
        let ghost end = *self;
        proof {
            assert(is_run(sv, trace) && trace[0] == s0 && trace.last().a.stopped);
        }
        if self.if_stack.len() > 0 {
            return Err(
                AssemblyError {
                    line_number: 0,
                    line_text: String::new(),
                    message: "Unclosed IF block".to_owned(),
                },
            );
        }
        if self.in_macro_definition {
            return Err(
                AssemblyError {
                    line_number: 0,
                    line_text: String::new(),
                    message: "Unterminated MACRO definition".to_owned(),
                },
            );
        }
        match self.resolve_pending_exprs() {
            Ok(_) => {},
            Err(e) => {
                let line_text = if e.line < script.len() {
                    script[e.line].clone()
                } else {
                    String::new()
                };
                let r = Err(
                    AssemblyError { line_number: e.line, line_text, message: e.source.message() },
                );
                proof {
                    assert(finish_effect(sv, end, *self, r));
                }
                return r;
            },
        }
        let r = Ok(self.memory);
        proof {
            assert(finish_effect(sv, end, *self, r));
        }
        r
    }
}

} // verus!

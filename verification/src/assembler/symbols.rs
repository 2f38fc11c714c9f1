use vstd::prelude::*;

use crate::assembler::errors::{
    opt_string_view, token_error, token_error_model, InvalidTokenError, TokenErrorModel, TokenType,
};
use crate::assembler::numbers::{decimal_string, decimal_text};
use crate::assembler::{
    Assembler, DATA_STATEMENTS, INSTRUCTIONS, PSEUDO_INSTRUCTIONS, MEMORY_SIZE,
};
use crate::text::{
    all_ascii, chars_eq, chars_of, is_all_ascii, push_str, string_of, to_uppercase, unicode_upper,
    upper_seq,
};

verus! {

/// A macro: its parameter names and the lines of its body.
pub struct Macro {
    pub params: Vec<String>,
    pub body: Vec<String>,
}

/// One expansion of a macro: the macro's name and the number of the
/// expansion.
pub struct MacroScope {
    pub name: String,
    pub id: u64,
}

/// Where a symbol is visible: everywhere, or in one macro expansion.
pub enum SymbolScope {
    Global,
    Local(MacroScope),
}

#[derive(Clone, Copy, Debug, PartialEq, Eq, Structural)]
pub enum SymbolKind {
    Label,
    Equ,
    Variable,
    Macro,
}

pub struct Symbol {
    pub value: i32,
    pub kind: SymbolKind,
    pub symbol_scope: SymbolScope,
}

pub enum ScopeModel {
    Global,
    Local(Seq<char>, u64),
}

pub struct SymbolModel {
    pub value: i32,
    pub kind: SymbolKind,
    pub scope: ScopeModel,
}

pub struct MacroModel {
    pub params: Seq<Seq<char>>,
    pub body: Seq<Seq<char>>,
}

impl View for MacroScope {
    type V = (Seq<char>, u64);

    open spec fn view(&self) -> (Seq<char>, u64) {
        (self.name@, self.id)
    }
}

impl View for SymbolScope {
    type V = ScopeModel;

    open spec fn view(&self) -> ScopeModel {
        match self {
            SymbolScope::Global => ScopeModel::Global,
            SymbolScope::Local(m) => ScopeModel::Local(m.name@, m.id),
        }
    }
}

impl View for Symbol {
    type V = SymbolModel;

    open spec fn view(&self) -> SymbolModel {
        SymbolModel { value: self.value, kind: self.kind, scope: self.symbol_scope@ }
    }
}

impl View for Macro {
    type V = MacroModel;

    open spec fn view(&self) -> MacroModel {
        MacroModel {
            params: self.params@.map_values(|s: String| s@),
            body: self.body@.map_values(|s: String| s@),
        }
    }
}

impl MacroScope {
    pub fn copy(&self) -> (r: MacroScope)
        ensures
            r@ == self@,
    {
        MacroScope { name: self.name.clone(), id: self.id }
    }
}

impl SymbolScope {
    pub fn copy(&self) -> (r: SymbolScope)
        ensures
            r@ == self@,
    {
        match self {
            SymbolScope::Global => SymbolScope::Global,
            SymbolScope::Local(m) => SymbolScope::Local(m.copy()),
        }
    }
}

pub fn copy_strings(v: &Vec<String>) -> (r: Vec<String>)
    ensures
        r@.map_values(|s: String| s@) == v@.map_values(|s: String| s@),
{
    let mut r: Vec<String> = Vec::new();
    let mut i: usize = 0;
    while i < v.len()
        invariant
            i <= v@.len(),
            r@.map_values(|s: String| s@) == v@.take(i as int).map_values(|s: String| s@),
        decreases v@.len() - i,
    {
        r.push(v[i].clone());
        proof {
            assert(v@.take(i + 1).map_values(|s: String| s@) =~= v@.take(i as int).map_values(
                |s: String| s@,
            ).push(v@[i as int]@));
            assert(r@.map_values(|s: String| s@) =~= v@.take(i + 1).map_values(|s: String| s@));
        }
        i = i + 1;
    }
    proof {
        assert(v@.take(v@.len() as int) =~= v@);
    }
    r
}

impl Macro {
    pub fn copy(&self) -> (r: Macro)
        ensures
            r@ == self@,
    {
        Macro { params: copy_strings(&self.params), body: copy_strings(&self.body) }
    }
}

/// The symbol a table of (key, symbol) entries holds under `key`: the last
/// entry with that key.
pub open spec fn table_lookup(entries: Seq<(String, Symbol)>, key: Seq<char>) -> Option<SymbolModel>
    decreases entries.len(),
{
    if entries.len() == 0 {
        None
    } else if entries.last().0@ == key {
        Some(entries.last().1@)
    } else {
        table_lookup(entries.drop_last(), key)
    }
}

/// The macro a table of (name, macro) entries holds under `name`.
pub open spec fn macro_lookup(entries: Seq<(String, Macro)>, key: Seq<char>) -> Option<MacroModel>
    decreases entries.len(),
{
    if entries.len() == 0 {
        None
    } else if entries.last().0@ == key {
        Some(entries.last().1@)
    } else {
        macro_lookup(entries.drop_last(), key)
    }
}

/// The key under which a symbol of the given scope is kept: the name in
/// upper case, followed for a macro-local symbol by "@" and the number of
/// the expansion.
pub open spec fn scope_key(name: Seq<char>, scope: ScopeModel) -> Seq<char> {
    match scope {
        ScopeModel::Global => unicode_upper(name),
        ScopeModel::Local(_, id) => local_key(name, id),
    }
}

/// The key of a symbol local to the macro expansion numbered `id`.
pub open spec fn local_key(name: Seq<char>, id: u64) -> Seq<char> {
    unicode_upper(name) + "@"@ + decimal_text(id as int)
}

/// The key of a symbol local to the macro expansion numbered `id`.
pub fn local_symbol_key(name: &str, id: u64) -> (key: String)
    ensures
        key@ == local_key(name@, id),
{
    let mut key = to_uppercase(name);
    push_str(&mut key, "@");
    let n = decimal_string(id);
    push_str(&mut key, n.as_str());
    proof {
        reveal_strlit("@");
    }
    key
}

pub open spec fn keyword_in(list: Seq<&str>, s: Seq<char>) -> bool {
    exists|i: int| 0 <= i < list.len() && (#[trigger] list[i])@ == s
}

/// Whether `s` is the name of an instruction, a pseudo-instruction or a data
/// statement (exactly, in upper case).
pub open spec fn is_reserved(s: Seq<char>) -> bool {
    keyword_in(INSTRUCTIONS@, s) || keyword_in(PSEUDO_INSTRUCTIONS@, s) || keyword_in(
        DATA_STATEMENTS@,
        s,
    )
}

/// Why a name is not a valid symbol name, if it is not.
pub open spec fn name_problem(name: Seq<char>) -> Option<Seq<char>> {
    if !all_ascii(name) {
        Some("Names can only contain ASCII characters"@)
    } else if name.len() == 0 {
        Some("Name is empty"@)
    } else if !(name[0] == '@' || name[0] == '?' || name[0] == ':' || ('a' <= name[0] && name[0]
        <= 'z') || ('A' <= name[0] && name[0] <= 'Z')) {
        Some("Names cannot begin with a decimal digit or special character"@)
    } else if is_reserved(name) {
        Some("Names cannot be the same as an instruction or a pseudo-instruction"@)
    } else {
        None
    }
}

/// Whether `s` occurs in the list of keywords.
pub fn list_contains(list: &[&str], s: &[char]) -> (r: bool)
    ensures
        r == keyword_in(list@, s@),
{
    let mut i: usize = 0;
    while i < list.len()
        invariant
            i <= list@.len(),
            forall|k: int| 0 <= k < i ==> (#[trigger] list@[k])@ != s@,
        decreases list@.len() - i,
    {
        let c = chars_of(list[i]);
        if chars_eq(c.as_slice(), s) {
            return true;
        }
        i = i + 1;
    }
    false
}

/// Whether `s` is reserved (see `is_reserved`).
pub fn is_reserved_word(s: &[char]) -> (r: bool)
    ensures
        r == is_reserved(s@),
{
    list_contains(&INSTRUCTIONS, s) || list_contains(&PSEUDO_INSTRUCTIONS, s) || list_contains(
        &DATA_STATEMENTS,
        s,
    )
}

impl Assembler {
    pub open spec fn symbol(&self, key: Seq<char>) -> Option<SymbolModel> {
        table_lookup(self.symbols@, key)
    }

    pub open spec fn macro_def(&self, name: Seq<char>) -> Option<MacroModel> {
        macro_lookup(self.macros@, name)
    }

    /// The scope of the macro expansion in progress, if any.
    pub open spec fn macro_scope(&self) -> Option<(Seq<char>, u64)> {
        match self.current_macro_scope {
            Some(m) => Some(m@),
            None => None,
        }
    }

    pub open spec fn pointer(&self) -> usize {
        self.memory_pointer
    }

    pub open spec fn current_scope(&self) -> ScopeModel {
        match self.current_macro_scope {
            Some(m) => ScopeModel::Local(m.name@, m.id),
            None => ScopeModel::Global,
        }
    }

    /// The symbol under `key`, if any.
    pub(crate) fn find_symbol(&self, key: &String) -> (r: Option<&Symbol>)
        ensures
            match r {
                Some(s) => self.symbol(key@) == Some(s@),
                None => self.symbol(key@) is None,
            },
    {
        let mut i = self.symbols.len();
        proof {
            assert(self.symbols@.take(i as int) =~= self.symbols@);
        }
        while i > 0
            invariant
                i <= self.symbols@.len(),
                table_lookup(self.symbols@, key@) == table_lookup(self.symbols@.take(i as int), key@),
            decreases i,
        {
            proof {
                assert(self.symbols@.take(i as int).drop_last() =~= self.symbols@.take(i - 1));
            }
            if self.symbols[i - 1].0 == *key {
                return Some(&self.symbols[i - 1].1);
            }
            i = i - 1;
        }
        None
    }

    /// Keeps `sym` under `key`, in place of any symbol there before.
    pub(crate) fn insert_symbol(&mut self, key: String, sym: Symbol)
        ensures
            forall|k: Seq<char>| #[trigger] final(self).symbol(k) == if k == key@ {
                Some(sym@)
            } else {
                old(self).symbol(k)
            },
            final(self).macro_scope() == old(self).macro_scope(),
            final(self).current_scope() == old(self).current_scope(),
            final(self).pointer() == old(self).pointer(),
            forall|k: Seq<char>| #[trigger] final(self).macro_def(k) == old(self).macro_def(k),
            final(self).same_but_symbols(*old(self)),
    {
        let ghost before = self.symbols@;
        self.symbols.push((key, sym));
        proof {
            assert(self.symbols@.drop_last() =~= before);
        }
    }

    /// The macro named `name`, if any.
    pub(crate) fn find_macro(&self, name: &String) -> (r: Option<&Macro>)
        ensures
            match r {
                Some(m) => self.macro_def(name@) == Some(m@),
                None => self.macro_def(name@) is None,
            },
    {
        let mut i = self.macros.len();
        proof {
            assert(self.macros@.take(i as int) =~= self.macros@);
        }
        while i > 0
            invariant
                i <= self.macros@.len(),
                macro_lookup(self.macros@, name@) == macro_lookup(self.macros@.take(i as int), name@),
            decreases i,
        {
            proof {
                assert(self.macros@.take(i as int).drop_last() =~= self.macros@.take(i - 1));
            }
            if self.macros[i - 1].0 == *name {
                return Some(&self.macros[i - 1].1);
            }
            i = i - 1;
        }
        None
    }

    /// The key of a symbol (see `scope_key`).
    pub(crate) fn symbol_key_for_scope(&self, name: &str, scope: &SymbolScope) -> (key: String)
        ensures
            key@ == scope_key(name@, scope@),
    {
        let mut key = to_uppercase(name);
        match scope {
            SymbolScope::Global => {},
            SymbolScope::Local(m) => {
                push_str(&mut key, "@");
                let n = decimal_string(m.id);
                push_str(&mut key, n.as_str());
            },
        }
        key
    }

    /// Checks that a name may name a symbol (see `name_problem`).
    pub fn validate_name(&self, name: &str) -> (r: Result<(), InvalidTokenError>)
        ensures
            r is Ok <==> name_problem(name@) is None,
            r matches Err(e) ==> e.token@ == name@ && e.token_type == TokenType::Label
                && opt_string_view(e.additional_info) == name_problem(name@),
    {
        let chars = chars_of(name);
        if !is_all_ascii(chars.as_slice()) {
            return Err(
                token_error(
                    name.to_owned(),
                    TokenType::Label,
                    "Names can only contain ASCII characters",
                ),
            );
        }
        if chars.len() == 0 {
            return Err(token_error(name.to_owned(), TokenType::Label, "Name is empty"));
        }
        let first_char = chars[0];
        if !(first_char == '@' || first_char == '?' || first_char == ':' || ('a' <= first_char
            && first_char <= 'z') || ('A' <= first_char && first_char <= 'Z')) {
            return Err(
                token_error(
                    name.to_owned(),
                    TokenType::Label,
                    "Names cannot begin with a decimal digit or special character",
                ),
            );
        }
        if is_reserved_word(chars.as_slice()) {
            return Err(
                token_error(
                    name.to_owned(),
                    TokenType::Label,
                    "Names cannot be the same as an instruction or a pseudo-instruction",
                ),
            );
        }
        Ok(())
    }
}

/// Whether `name` may name a new symbol of kind `kind` in `scope`: a valid
/// name, not the name of a macro, and not taken in that scope (a SET symbol
/// may be set again by SET).
pub open spec fn symbol_check(a: Assembler, name: Seq<char>, kind: SymbolKind, scope: ScopeModel) -> Result<
    (),
    TokenErrorModel,
> {
    match name_problem(name) {
        Some(p) => Err(token_error_model(TokenType::Label, name, p)),
        None => if a.macro_def(unicode_upper(name)) is Some {
            Err(
                token_error_model(
                    TokenType::Label,
                    name,
                    "There already exist a macro with such name"@,
                ),
            )
        } else {
            match a.symbol(scope_key(name, scope)) {
                Some(s) => if kind == SymbolKind::Variable && s.kind == SymbolKind::Variable {
                    Ok(())
                } else {
                    Err(token_error_model(TokenType::Label, name, "Symbol already defined"@))
                },
                None => Ok(()),
            }
        },
    }
}

/// The name and scope of a label written with a colon: `NAME::` is global
/// and allowed only inside a macro expansion; `NAME:` belongs to the
/// current scope. The name is taken in upper case.
pub open spec fn label_definition(a: Assembler, name: Seq<char>) -> Result<(Seq<char>, ScopeModel), TokenErrorModel> {
    let u = unicode_upper(name);
    if u.len() >= 2 && u[u.len() - 2] == ':' && u[u.len() - 1] == ':' {
        if a.current_macro_scope is None {
            Err(token_error_model(TokenType::Label, u, "Labels with :: only work in macros"@))
        } else {
            Ok((u.subrange(0, u.len() - 2), ScopeModel::Global))
        }
    } else if u.len() >= 1 && u[u.len() - 1] == ':' {
        Ok((u.drop_last(), a.current_scope()))
    } else {
        Err(token_error_model(TokenType::Label, u, ": should be at the end of the label"@))
    }
}

/// What defining the label `name` does (see `define_label`).
pub open spec fn label_effect(before: Assembler, after: Assembler, name: Seq<char>, r: Result<(), InvalidTokenError>) -> bool {
    match label_definition(before, name) {
        Err(em) => r matches Err(e) && e.model() == em && after == before,
        Ok((base, scope)) => match symbol_check(before, base, SymbolKind::Label, scope) {
            Err(em) => r matches Err(e) && e.model() == em && after == before,
            Ok(_) => r is Ok && after.same_but_symbols(before) && forall|k: Seq<char>|
                #[trigger] after.symbol(k) == if k == scope_key(base, scope) {
                    Some(
                        SymbolModel {
                            value: before.memory_pointer as i32,
                            kind: SymbolKind::Label,
                            scope,
                        },
                    )
                } else {
                    before.symbol(k)
                },
        },
    }
}

/// The key and the new entry that `set_symbol` writes. Inside a macro
/// expansion: SET updates a global SET symbol of that name if there is one,
/// else the local symbol (kept or created as SET); EQU and labels become
/// local (a label as a SET symbol). Outside: a global symbol of the kind.
pub open spec fn set_symbol_entry(a: Assembler, name: Seq<char>, value: i32, kind: SymbolKind) -> (
    Seq<char>,
    SymbolModel,
) {
    match a.current_macro_scope {
        Some(m) => {
            let local = ScopeModel::Local(m.name@, m.id);
            let lkey = scope_key(name, local);
            let gkey = scope_key(name, ScopeModel::Global);
            if kind == SymbolKind::Variable {
                match a.symbol(gkey) {
                    Some(g) if g.kind == SymbolKind::Variable => (
                        gkey,
                        SymbolModel { value, kind: g.kind, scope: g.scope },
                    ),
                    _ => match a.symbol(lkey) {
                        Some(l) => (lkey, SymbolModel { value, kind: l.kind, scope: l.scope }),
                        None => (
                            lkey,
                            SymbolModel { value, kind: SymbolKind::Variable, scope: local },
                        ),
                    },
                }
            } else if kind == SymbolKind::Equ {
                (lkey, SymbolModel { value, kind: SymbolKind::Equ, scope: local })
            } else {
                (lkey, SymbolModel { value, kind: SymbolKind::Variable, scope: local })
            }
        },
        None => (
            scope_key(name, ScopeModel::Global),
            SymbolModel { value, kind, scope: ScopeModel::Global },
        ),
    }
}

impl Assembler {
    /// Checks that `name` may name a new symbol (see `symbol_check`).
    pub fn validate_symbol_name_and_check_repeats(
        &self,
        name: &str,
        symbol_kind: SymbolKind,
        scope: &SymbolScope,
    ) -> (r: Result<(), InvalidTokenError>)
        ensures
            match symbol_check(*self, name@, symbol_kind, scope@) {
                Ok(_) => r is Ok,
                Err(em) => r matches Err(e) && e.model() == em,
            },
    {
        match self.validate_name(name) {
            Err(e) => {
                return Err(e);
            },
            Ok(_) => {},
        }
        let upper = to_uppercase(name);
        if self.find_macro(&upper).is_some() {
            return Err(
                token_error(
                    name.to_owned(),
                    TokenType::Label,
                    "There already exist a macro with such name",
                ),
            );
        }
        let key = self.symbol_key_for_scope(name, scope);
        match self.find_symbol(&key) {
            Some(symbol) => {
                if symbol_kind == SymbolKind::Variable && symbol.kind == SymbolKind::Variable {
                    Ok(())
                } else {
                    Err(token_error(name.to_owned(), TokenType::Label, "Symbol already defined"))
                }
            },
            None => Ok(()),
        }
    }

    /// The label of an EQU, SET or MACRO line, checked (see
    /// `symbol_check`); a missing label is an error.
    pub fn assert_valid_symbol_name(
        &self,
        name: &Option<String>,
        symbol_kind: SymbolKind,
        scope: &SymbolScope,
    ) -> (r: Result<String, InvalidTokenError>)
        ensures
            match name {
                None => r matches Err(e) && e.model() == token_error_model(
                    TokenType::Label,
                    Seq::empty(),
                    "Label is empty"@,
                ),
                Some(n) => match symbol_check(*self, n@, symbol_kind, scope@) {
                    Ok(_) => r matches Ok(s) && s@ == n@,
                    Err(em) => r matches Err(e) && e.model() == em,
                },
            },
    {
        match name {
            None => Err(token_error(String::new(), TokenType::Label, "Label is empty")),
            Some(n) => {
                match self.validate_symbol_name_and_check_repeats(n.as_str(), symbol_kind, scope) {
                    Err(e) => Err(e),
                    Ok(_) => Ok(n.clone()),
                }
            },
        }
    }

    /// Defines a label at the location counter (see `label_definition` and
    /// `symbol_check`).
    pub fn define_label(&mut self, name: &str) -> (r: Result<(), InvalidTokenError>)
        requires
            old(self).wf(),
        ensures
            final(self).current_line == old(self).current_line,
            final(self).wf(),
            label_effect(*old(self), *final(self), name@, r),
            all_ascii(name@) ==> unicode_upper(name@) == upper_seq(name@),
    {
        let upper = to_uppercase(name);
        let u = chars_of(upper.as_str());
        let n = u.len();
        let (base, scope) = if n >= 2 && u[n - 2] == ':' && u[n - 1] == ':' {
            match &self.current_macro_scope {
                None => {
                    return Err(
                        token_error(upper, TokenType::Label, "Labels with :: only work in macros"),
                    );
                },
                Some(_) => {},
            }
            let b = crate::text::slice_to_vec(u.as_slice(), 0, n - 2);
            (string_of(b.as_slice()), SymbolScope::Global)
        } else if n >= 1 && u[n - 1] == ':' {
            let b = crate::text::slice_to_vec(u.as_slice(), 0, n - 1);
            proof {
                assert(u@.subrange(0, n - 1) =~= u@.drop_last());
            }
            let scope = match &self.current_macro_scope {
                Some(m) => SymbolScope::Local(m.copy()),
                None => SymbolScope::Global,
            };
            (string_of(b.as_slice()), scope)
        } else {
            return Err(token_error(upper, TokenType::Label, ": should be at the end of the label"));
        };
        match self.validate_symbol_name_and_check_repeats(base.as_str(), SymbolKind::Label, &scope) {
            Err(e) => {
                return Err(e);
            },
            Ok(_) => {},
        }
        let key = self.symbol_key_for_scope(base.as_str(), &scope);
        let value = self.memory_pointer as i32;
        self.insert_symbol(key, Symbol { value, kind: SymbolKind::Label, symbol_scope: scope });
        Ok(())
    }

    /// Gives `name` the value `value` (see `set_symbol_entry`). A macro
    /// name cannot be set inside a macro expansion.
    pub fn set_symbol(&mut self, name: String, value: i32, symbol_kind: SymbolKind)
        requires
            old(self).current_macro_scope is Some ==> symbol_kind != SymbolKind::Macro,
        ensures
            final(self).same_but_symbols(*old(self)),
            forall|k: Seq<char>|
                #[trigger] final(self).symbol(k) == if k == set_symbol_entry(
                    *old(self),
                    name@,
                    value,
                    symbol_kind,
                ).0 {
                    Some(set_symbol_entry(*old(self), name@, value, symbol_kind).1)
                } else {
                    old(self).symbol(k)
                },
    {
        match &self.current_macro_scope {
            Some(m) => {
                let local = SymbolScope::Local(m.copy());
                let lkey = self.symbol_key_for_scope(name.as_str(), &local);
                if symbol_kind == SymbolKind::Variable {
                    let gkey = self.symbol_key_for_scope(name.as_str(), &SymbolScope::Global);
                    let global = match self.find_symbol(&gkey) {
                        Some(g) => {
                            if g.kind == SymbolKind::Variable {
                                Some(Symbol { value, kind: g.kind, symbol_scope: g.symbol_scope.copy() })
                            } else {
                                None
                            }
                        },
                        None => None,
                    };
                    match global {
                        Some(sym) => {
                            self.insert_symbol(gkey, sym);
                            return ;
                        },
                        None => {},
                    }
                    let entry = match self.find_symbol(&lkey) {
                        Some(l) => Symbol { value, kind: l.kind, symbol_scope: l.symbol_scope.copy() },
                        None => Symbol { value, kind: SymbolKind::Variable, symbol_scope: local },
                    };
                    self.insert_symbol(lkey, entry);
                } else if symbol_kind == SymbolKind::Equ {
                    self.insert_symbol(
                        lkey,
                        Symbol { value, kind: SymbolKind::Equ, symbol_scope: local },
                    );
                } else {
                    self.insert_symbol(
                        lkey,
                        Symbol { value, kind: SymbolKind::Variable, symbol_scope: local },
                    );
                }
            },
            None => {
                let key = self.symbol_key_for_scope(name.as_str(), &SymbolScope::Global);
                self.insert_symbol(
                    key,
                    Symbol { value, kind: symbol_kind, symbol_scope: SymbolScope::Global },
                );
            },
        }
    }
}

} // verus!

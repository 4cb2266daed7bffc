//! The patch-instruction assembler: address labels, `b`, `bl`, `u32`, `lis`
//! and `nop`, with symbol resolution against two tables.

use vstd::prelude::*;
use vstd::string::StrSliceExecFns;
use crate::encoding::{
    addis_word, branch_word, build_branch_instruction, build_lis_instruction, NOP_WORD,
};
use crate::symbols::SymbolTable;
use crate::text::{find_char, find_from, has_prefix, skip_ws, starts_with, trim, trim_start};

verus! {

/// The value of an integer literal as `syn` reads one (`42`, `-7`, `0x8000`,
/// `0b101`, `1_000`, `5u32`), when it is one and fits in an `i64`.
pub uninterp spec fn int_literal_value(s: Seq<char>) -> Option<i64>;

/// Relies on `syn::parse_str::<syn::LitInt>` and `syn::LitInt::base10_parse::<i64>`:
/// the value of the literal, or `None` where either rejects the text.
#[verifier::external_body]
fn parse_i64_literal(literal: &str) -> (r: Option<i64>)
    ensures
        r == int_literal_value(literal@),
{
    match syn::parse_str::<syn::LitInt>(literal) {
        Ok(lit) => lit.base10_parse::<i64>().ok(),
        Err(_) => None,
    }
}

/// A literal's value as a 32-bit word (two's complement for negative values).
pub open spec fn u32_literal_value(s: Seq<char>) -> Option<u32> {
    match int_literal_value(s) {
        Some(i) => Some(#[verifier::truncate] (i as u32)),
        None => None,
    }
}

/// Reads an integer literal as a 32-bit word.
pub fn parse_u32_literal(literal: &str) -> (r: Option<u32>)
    ensures
        r == u32_literal_value(literal@),
{
    match parse_i64_literal(literal) {
        Some(i) => Some(#[verifier::truncate] (i as u32)),
        None => None,
    }
}

/// An assembled instruction word and the address it goes to.
#[derive(Clone, Copy, Debug, PartialEq, Eq)]
pub struct Instruction {
    pub address: u32,
    pub data: u32,
}

/// Why a patch did not assemble.
#[derive(Clone, Debug, PartialEq, Eq)]
pub enum AsmError {
    /// A line that could not be parsed, as it stood once comments and
    /// surrounding whitespace were removed.
    ParseError(String),
    /// A name that neither symbol table holds.
    UnknownSymbol(String),
}

/// The mathematical content of an [`AsmError`].
pub enum AsmFault {
    ParseError(Seq<char>),
    UnknownSymbol(Seq<char>),
}

impl View for AsmError {
    type V = AsmFault;

    open spec fn view(&self) -> AsmFault {
        match self {
            AsmError::ParseError(l) => AsmFault::ParseError(l@),
            AsmError::UnknownSymbol(s) => AsmFault::UnknownSymbol(s@),
        }
    }
}

/// The part of a source line that holds code: the text before the first `;`,
/// trimmed.
pub open spec fn code_of(line: Seq<char>) -> Seq<char> {
    trim(line.take(find_from(line, ';', 0)))
}

/// What a branch target or bracketed label term denotes: a literal first, then
/// a label the patch itself defined, then the user's table (when there is
/// one), then the prelinked table.
pub open spec fn resolve(
    user: Option<Map<Seq<char>, u32>>,
    pre: Map<Seq<char>, u32>,
    labels: Map<Seq<char>, u32>,
    s: Seq<char>,
) -> Result<u32, AsmFault> {
    match u32_literal_value(s) {
        Some(v) => Ok(v),
        None => if labels.contains_key(s) {
            Ok(labels[s])
        } else if user is Some && user->0.contains_key(s) {
            Ok(user->0[s])
        } else if pre.contains_key(s) {
            Ok(pre[s])
        } else {
            Err(AsmFault::UnknownSymbol(s))
        },
    }
}

/// Characters that may continue a numeric literal at index `i` of a label term.
pub open spec fn literal_char(i: int, c: char) -> bool {
    ('0' <= c && c <= '9') || ('A' <= c && c <= 'F') || ('a' <= c && c <= 'f') || c == '_' || (c
        == '-' && i == 0) || (c == 'x' && i == 1)
}

/// The length of the literal that starts `s`, counted from index `i` on.
pub open spec fn literal_len(s: Seq<char>, i: int) -> int
    decreases s.len() - i,
{
    if 0 <= i < s.len() && literal_char(i, s[i]) {
        literal_len(s, i + 1)
    } else {
        i
    }
}

/// The index of the `]` that closes a bracket opened before `s`, scanning from
/// `i` at nesting `depth`; `s.len()` when it is never closed.
pub open spec fn bracket_end(s: Seq<char>, i: int, depth: int) -> int
    decreases s.len() - i,
{
    if i < 0 || i >= s.len() {
        s.len() as int
    } else if s[i] == '[' {
        bracket_end(s, i + 1, depth + 1)
    } else if s[i] == ']' {
        if depth <= 1 {
            i
        } else {
            bracket_end(s, i + 1, depth - 1)
        }
    } else {
        bracket_end(s, i + 1, depth)
    }
}

/// The first term of `t` (a literal, or a bracketed symbol) and what follows it.
pub open spec fn label_term(
    user: Option<Map<Seq<char>, u32>>,
    pre: Map<Seq<char>, u32>,
    labels: Map<Seq<char>, u32>,
    code: Seq<char>,
    t: Seq<char>,
) -> Result<(u32, Seq<char>), AsmFault> {
    if t.len() == 0 {
        Err(AsmFault::ParseError(code))
    } else if ('0' <= t[0] && t[0] <= '9') || t[0] == '-' {
        let n = literal_len(t, 0);
        match u32_literal_value(t.take(n)) {
            Some(v) => Ok((v, t.skip(n))),
            None => Err(AsmFault::ParseError(code)),
        }
    } else if t[0] == '[' {
        let b = t.skip(1);
        let e = bracket_end(b, 0, 1);
        if e >= b.len() {
            Err(AsmFault::ParseError(code))
        } else {
            match resolve(user, pre, labels, b.take(e)) {
                Ok(v) => Ok((v, b.skip(e + 1))),
                Err(f) => Err(f),
            }
        }
    } else {
        Err(AsmFault::ParseError(code))
    }
}

/// Adds or subtracts a term, wrapping at 32 bits.
pub open spec fn combine(acc: u32, v: u32, add: bool) -> u32 {
    if add {
        acc.wrapping_add(v)
    } else {
        acc.wrapping_sub(v)
    }
}

/// Evaluates the label expression `s` left to right onto `acc`; `add` says
/// whether its first term is added or subtracted.
pub open spec fn eval_label(
    user: Option<Map<Seq<char>, u32>>,
    pre: Map<Seq<char>, u32>,
    labels: Map<Seq<char>, u32>,
    code: Seq<char>,
    s: Seq<char>,
    acc: u32,
    add: bool,
) -> Result<u32, AsmFault>
    decreases s.len(),
    via eval_label_decreases
{
    match label_term(user, pre, labels, code, trim_start(s)) {
        Err(f) => Err(f),
        Ok((v, rest)) => {
            let acc2 = combine(acc, v, add);
            let r = trim_start(rest);
            if r.len() == 0 {
                Ok(acc2)
            } else if r[0] == '+' {
                eval_label(user, pre, labels, code, r.drop_first(), acc2, true)
            } else if r[0] == '-' {
                eval_label(user, pre, labels, code, r.drop_first(), acc2, false)
            } else {
                Err(AsmFault::ParseError(code))
            }
        },
    }
}

proof fn lemma_trim_start_len(s: Seq<char>)
    ensures
        trim_start(s).len() <= s.len(),
    decreases s.len(),
{
    if s.len() > 0 && crate::text::is_ws(s[0]) {
        lemma_trim_start_len(s.drop_first());
    }
}

proof fn lemma_literal_len_bounds(s: Seq<char>, i: int)
    requires
        0 <= i <= s.len(),
    ensures
        i <= literal_len(s, i) <= s.len(),
    decreases s.len() - i,
{
    if i < s.len() && literal_char(i, s[i]) {
        lemma_literal_len_bounds(s, i + 1);
    }
}

proof fn lemma_bracket_end_bounds(s: Seq<char>, i: int, depth: int)
    requires
        0 <= i,
    ensures
        0 <= bracket_end(s, i, depth) <= s.len(),
    decreases s.len() - i,
{
    if i < s.len() {
        if s[i] == '[' {
            lemma_bracket_end_bounds(s, i + 1, depth + 1);
        } else if s[i] == ']' {
            if depth > 1 {
                lemma_bracket_end_bounds(s, i + 1, depth - 1);
            }
        } else {
            lemma_bracket_end_bounds(s, i + 1, depth);
        }
    }
}

/// What follows a term is shorter than the text the term was read from.
proof fn lemma_label_term_shrinks(
    user: Option<Map<Seq<char>, u32>>,
    pre: Map<Seq<char>, u32>,
    labels: Map<Seq<char>, u32>,
    code: Seq<char>,
    t: Seq<char>,
)
    ensures
        label_term(user, pre, labels, code, t) matches Ok((v, rest)) ==> rest.len() < t.len(),
{
    if t.len() > 0 {
        if ('0' <= t[0] && t[0] <= '9') || t[0] == '-' {
            lemma_literal_len_bounds(t, 0);
            lemma_literal_len_bounds(t, 1);
        } else if t[0] == '[' {
            lemma_bracket_end_bounds(t.skip(1), 0, 1);
        }
    }
}

#[via_fn]
proof fn eval_label_decreases(
    user: Option<Map<Seq<char>, u32>>,
    pre: Map<Seq<char>, u32>,
    labels: Map<Seq<char>, u32>,
    code: Seq<char>,
    s: Seq<char>,
    acc: u32,
    add: bool,
) {
    lemma_trim_start_len(s);
    lemma_label_term_shrinks(user, pre, labels, code, trim_start(s));
    match label_term(user, pre, labels, code, trim_start(s)) {
        Ok((v, rest)) => {
            lemma_trim_start_len(rest);
        },
        Err(_) => {},
    }
}

/// The word of `lis rN, imm` from its operand text, split at commas.
pub open spec fn lis_word(code: Seq<char>, operand: Seq<char>) -> Result<u32, AsmFault> {
    let k = find_from(operand, ',', 0);
    let reg = trim(operand.take(k));
    let rest = operand.skip(k + 1);
    let imm = trim(rest.take(find_from(rest, ',', 0)));
    if reg.len() > 0 && reg[0] == 'r' && int_literal_value(reg.skip(1)) is Some && k
        < operand.len() && int_literal_value(imm) is Some {
        Ok(
            addis_word(
                #[verifier::truncate] (int_literal_value(reg.skip(1))->0 as u8),
                0,
                #[verifier::truncate] (int_literal_value(imm)->0 as i16),
            ),
        )
    } else {
        Err(AsmFault::ParseError(code))
    }
}

/// The word that an instruction line assembles to at address `pc`.
pub open spec fn instruction_word(
    user: Option<Map<Seq<char>, u32>>,
    pre: Map<Seq<char>, u32>,
    labels: Map<Seq<char>, u32>,
    pc: u32,
    code: Seq<char>,
) -> Result<u32, AsmFault> {
    if starts_with(code, seq!['b', 'l', ' ']) {
        match resolve(user, pre, labels, code.skip(3)) {
            Ok(d) => Ok(branch_word(pc, d, false, true)),
            Err(f) => Err(f),
        }
    } else if starts_with(code, seq!['b', ' ']) {
        match resolve(user, pre, labels, code.skip(2)) {
            Ok(d) => Ok(branch_word(pc, d, false, false)),
            Err(f) => Err(f),
        }
    } else if starts_with(code, seq!['u', '3', '2', ' ']) {
        match u32_literal_value(code.skip(4)) {
            Some(v) => Ok(v),
            None => Err(AsmFault::ParseError(code)),
        }
    } else if starts_with(code, seq!['l', 'i', 's', ' ']) {
        lis_word(code, code.skip(4))
    } else if code == seq!['n', 'o', 'p'] {
        Ok(NOP_WORD)
    } else {
        Err(AsmFault::ParseError(code))
    }
}

/// The views of a slice of lines.
pub open spec fn line_views(lines: Seq<&str>) -> Seq<Seq<char>> {
    lines.map_values(|l: &str| l@)
}

/// Characters that may start a label name.
pub open spec fn name_start(c: char) -> bool {
    ('A' <= c && c <= 'Z') || ('a' <= c && c <= 'z') || c == '_'
}

/// Characters that may continue a label name.
pub open spec fn name_char(c: char) -> bool {
    name_start(c) || ('0' <= c && c <= '9') || c == '.'
}

/// Whether the body of a label line is a name, which the line defines as
/// the current program counter, rather than an address expression.
pub open spec fn is_label_name(s: Seq<char>) -> bool {
    s.len() > 0 && name_start(s[0]) && forall|i: int| 0 <= i < s.len() ==> name_char(#[trigger] s[i])
}

/// `out` followed by what `r` assembles, or `r`'s failure.
pub open spec fn after(out: Seq<Instruction>, r: Result<Seq<Instruction>, AsmFault>) -> Result<
    Seq<Instruction>,
    AsmFault,
> {
    match r {
        Ok(v) => Ok(out + v),
        Err(f) => Err(f),
    }
}

/// Assembles `lines` from program counter `pc` with the labels defined so
/// far: the instructions in order or the first failure, and the program
/// counter and labels where assembly stopped.
pub open spec fn assemble_lines(
    user: Option<Map<Seq<char>, u32>>,
    pre: Map<Seq<char>, u32>,
    labels: Map<Seq<char>, u32>,
    pc: u32,
    lines: Seq<Seq<char>>,
) -> (Result<Seq<Instruction>, AsmFault>, u32, Map<Seq<char>, u32>)
    decreases lines.len(),
{
    if lines.len() == 0 {
        (Ok(Seq::empty()), pc, labels)
    } else {
        let code = code_of(lines[0]);
        let rest = lines.drop_first();
        if code.len() == 0 {
            assemble_lines(user, pre, labels, pc, rest)
        } else if code.last() == ':' && is_label_name(code.drop_last()) {
            assemble_lines(user, pre, labels.insert(code.drop_last(), pc), pc, rest)
        } else if code.last() == ':' {
            match label_value(user, pre, labels, code) {
                Ok(a) => assemble_lines(user, pre, labels, a, rest),
                Err(f) => (Err(f), pc, labels),
            }
        } else {
            match instruction_word(user, pre, labels, pc, code) {
                Err(f) => (Err(f), pc, labels),
                Ok(w) => {
                    let r = assemble_lines(user, pre, labels, pc.wrapping_add(4), rest);
                    (after(seq![Instruction { address: pc, data: w }], r.0), r.1, r.2)
                },
            }
        }
    }
}

/// The address that a label line (one that ends in `:`) sets.
pub open spec fn label_value(
    user: Option<Map<Seq<char>, u32>>,
    pre: Map<Seq<char>, u32>,
    labels: Map<Seq<char>, u32>,
    code: Seq<char>,
) -> Result<u32, AsmFault> {
    eval_label(user, pre, labels, code, code.drop_last(), 0, true)
}

} // verus!

verus! {

/// Reduces a source line to its code: the text before the first `;`, trimmed.
pub fn reduce_line_to_code(line: &str) -> (r: &str)
    ensures
        r@ == code_of(line@),
{
    let k = find_char(line, ';', 0);
    let before = line.substring_char(0, k);
    proof {
        assert(before@ =~= line@.take(k as int));
    }
    crate::text::trim_str(before)
}

/// Whether `c` may stand at index `i` of a label's numeric literal.
fn is_literal_char(i: usize, c: char) -> (r: bool)
    ensures
        r == literal_char(i as int, c),
{
    ('0' <= c && c <= '9') || ('A' <= c && c <= 'F') || ('a' <= c && c <= 'f') || c == '_' || (c
        == '-' && i == 0) || (c == 'x' && i == 1)
}

/// The end of the literal that starts at `from` in `s`.
fn literal_end(s: &str, from: usize) -> (e: usize)
    requires
        from <= s@.len(),
    ensures
        e == from + literal_len(s@.skip(from as int), 0),
        from <= e <= s@.len(),
{
    let n = s.unicode_len();
    let ghost t = s@.skip(from as int);
    let mut k: usize = 0;
    while from + k < n && is_literal_char(k, s.get_char(from + k))
        invariant
            n == s@.len(),
            from <= n,
            t == s@.skip(from as int),
            from + k <= n,
            literal_len(t, k as int) == literal_len(t, 0),
        decreases n - from - k,
    {
        assert(t[k as int] == s@[from + k]);
        k = k + 1;
    }
    proof {
        if from + k < n {
            assert(t[k as int] == s@[from + k]);
        }
    }
    from + k
}

/// The index in `s` of the `]` that closes a bracket opened just before
/// `from`, or the length of `s` when none does.
fn bracket_close(s: &str, from: usize) -> (e: usize)
    requires
        from <= s@.len(),
    ensures
        e == from + bracket_end(s@.skip(from as int), 0, 1),
        from <= e <= s@.len(),
{
    let n = s.unicode_len();
    let ghost t = s@.skip(from as int);
    let mut k: usize = 0;
    let mut nested: usize = 0;
    while from + k < n
        invariant
            n == s@.len(),
            from <= n,
            t == s@.skip(from as int),
            from + k <= n,
            nested <= k,
            bracket_end(t, k as int, nested + 1) == bracket_end(t, 0, 1),
        decreases n - from - k,
    {
        let c = s.get_char(from + k);
        assert(t[k as int] == c);
        if c == '[' {
            nested = nested + 1;
        } else if c == ']' {
            if nested == 0 {
                return from + k;
            }
            nested = nested - 1;
        }
        k = k + 1;
    }
    n
}

} // verus!

verus! {

/// Assembles patch lines into instruction words, tracking the program counter.
pub struct Assembler<'a> {
    symbol_table: Option<SymbolTable>,
    prelinked_symbols: &'a SymbolTable,
    labels: SymbolTable,
    program_counter: u32,
}

impl<'a> Assembler<'a> {
    /// The user-declared symbols, if the patch declares any.
    pub closed spec fn user_symbols(&self) -> Option<Map<Seq<char>, u32>> {
        match &self.symbol_table {
            Some(t) => Some(t@),
            None => None,
        }
    }

    /// The symbols of the prelinked code.
    pub closed spec fn prelinked(&self) -> Map<Seq<char>, u32> {
        self.prelinked_symbols@
    }

    /// The labels that the lines assembled so far defined.
    pub closed spec fn labels(&self) -> Map<Seq<char>, u32> {
        self.labels@
    }

    /// The address the next instruction goes to.
    pub closed spec fn pc(&self) -> u32 {
        self.program_counter
    }

    /// An assembler at program counter 0 over the given symbol tables.
    pub fn new(symbol_table: Option<SymbolTable>, prelinked_symbols: &'a SymbolTable) -> (r:
        Assembler<'a>)
        ensures
            r.user_symbols() == (match symbol_table {
                Some(t) => Some(t@),
                None => None::<Map<Seq<char>, u32>>,
            }),
            r.prelinked() == prelinked_symbols@,
            r.labels() == Map::<Seq<char>, u32>::empty(),
            r.pc() == 0,
    {
        Assembler { symbol_table, prelinked_symbols, labels: SymbolTable::new(), program_counter: 0 }
    }

    /// The address that `symbol` denotes: a literal, else a label defined by
    /// the lines so far, else the user's table, else the prelinked table.
    pub fn resolve_symbol(&self, symbol: &str) -> (r: Result<u32, AsmError>)
        ensures
            r matches Ok(v) ==> resolve(self.user_symbols(), self.prelinked(), self.labels(), symbol@) == Ok::<
                u32,
                AsmFault,
            >(v),
            r matches Err(e) ==> resolve(self.user_symbols(), self.prelinked(), self.labels(), symbol@) == Err::<
                u32,
                AsmFault,
            >(e@),
    {
        if let Some(address) = parse_u32_literal(symbol) {
            return Ok(address);
        }
        if let Some(address) = self.labels.get(symbol) {
            return Ok(address);
        }
        if let Some(table) = &self.symbol_table {
            if let Some(address) = table.get(symbol) {
                return Ok(address);
            }
        }
        if let Some(address) = self.prelinked_symbols.get(symbol) {
            return Ok(address);
        }
        Err(AsmError::UnknownSymbol(symbol.to_owned()))
    }

    /// Evaluates the address expression of a label line (`code` ends in `:`).
    pub fn parse_program_counter_label(&self, code: &str) -> (r: Result<u32, AsmError>)
        requires
            code@.len() > 0,
        ensures
            r matches Ok(v) ==> label_value(self.user_symbols(), self.prelinked(), self.labels(), code@) == Ok::<
                u32,
                AsmFault,
            >(v),
            r matches Err(e) ==> label_value(self.user_symbols(), self.prelinked(), self.labels(), code@) == Err::<
                u32,
                AsmFault,
            >(e@),
    {
        let ghost user = self.user_symbols();
        let ghost pre = self.prelinked();
        let ghost labels = self.labels();
        let n0 = code.unicode_len();
        let body = code.substring_char(0, n0 - 1);
        let n = n0 - 1;
        proof {
            assert(body@ =~= code@.drop_last());
            assert(body@.skip(0) =~= body@);
        }
        let mut pos: usize = 0;
        let mut acc: u32 = 0;
        let mut add = true;
        loop
            invariant
                n == body@.len(),
                pos <= n,
                body@ == code@.drop_last(),
                user == self.user_symbols(),
                pre == self.prelinked(),
                labels == self.labels(),
                eval_label(user, pre, labels, code@, body@.skip(pos as int), acc, add) == label_value(
                    user,
                    pre,
                    labels,
                    code@,
                ),
            decreases n - pos,
        {
            let ghost s = body@.skip(pos as int);
            let t0 = skip_ws(body, pos);
            let ghost t = body@.skip(t0 as int);
            assert(t == trim_start(s));
            if t0 >= n {
                return Err(AsmError::ParseError(code.to_owned()));
            }
            let c = body.get_char(t0);
            assert(t[0] == c);
            let v: u32;
            let next: usize;
            if ('0' <= c && c <= '9') || c == '-' {
                let e = literal_end(body, t0);
                let lit = body.substring_char(t0, e);
                proof {
                    assert(lit@ =~= t.take(e - t0));
                }
                match parse_u32_literal(lit) {
                    Some(x) => {
                        v = x;
                        next = e;
                        assert(t.skip(e - t0) =~= body@.skip(e as int));
                    },
                    None => {
                        return Err(AsmError::ParseError(code.to_owned()));
                    },
                }
            } else if c == '[' {
                let e = bracket_close(body, t0 + 1);
                proof {
                    assert(t.skip(1) =~= body@.skip(t0 + 1));
                }
                if e >= n {
                    return Err(AsmError::ParseError(code.to_owned()));
                }
                let sym = body.substring_char(t0 + 1, e);
                proof {
                    assert(sym@ =~= t.skip(1).take(e - t0 - 1));
                    assert(t.skip(1).skip(e - t0 - 1 + 1) =~= body@.skip(e + 1));
                }
                match self.resolve_symbol(sym) {
                    Ok(x) => {
                        v = x;
                        next = e + 1;
                    },
                    Err(f) => {
                        return Err(f);
                    },
                }
            } else {
                return Err(AsmError::ParseError(code.to_owned()));
            }
            acc = if add {
                acc.wrapping_add(v)
            } else {
                acc.wrapping_sub(v)
            };
            let r0 = skip_ws(body, next);
            if r0 >= n {
                return Ok(acc);
            }
            let op = body.get_char(r0);
            assert(body@.skip(r0 as int)[0] == op);
            if op == '+' {
                add = true;
            } else if op == '-' {
                add = false;
            } else {
                return Err(AsmError::ParseError(code.to_owned()));
            }
            assert(body@.skip(r0 as int).drop_first() =~= body@.skip(r0 + 1));
            pos = r0 + 1;
        }
    }
}

} // verus!

verus! {

impl<'a> Assembler<'a> {
    /// Assembles one instruction line (already reduced to code) at the
    /// current program counter.
    pub fn parse_instruction(&self, line: &str) -> (r: Result<Instruction, AsmError>)
        ensures
            r matches Ok(i) ==> i.address == self.pc() && instruction_word(
                self.user_symbols(),
                self.prelinked(),
                self.labels(),
                self.pc(),
                line@,
            ) == Ok::<u32, AsmFault>(i.data),
            r matches Err(e) ==> instruction_word(
                self.user_symbols(),
                self.prelinked(),
                self.labels(),
                self.pc(),
                line@,
            ) == Err::<u32, AsmFault>(e@),
    {
        proof {
            reveal_strlit("bl ");
            reveal_strlit("b ");
            reveal_strlit("u32 ");
            reveal_strlit("lis ");
            reveal_strlit("nop");
            assert("bl "@ =~= seq!['b', 'l', ' ']);
            assert("b "@ =~= seq!['b', ' ']);
            assert("u32 "@ =~= seq!['u', '3', '2', ' ']);
            assert("lis "@ =~= seq!['l', 'i', 's', ' ']);
            assert("nop"@ =~= seq!['n', 'o', 'p']);
        }
        let n = line.unicode_len();
        let data: u32;
        if has_prefix(line, "bl ") {
            let operand = line.substring_char(3, n);
            assert(operand@ =~= line@.skip(3));
            let destination = match self.resolve_symbol(operand) {
                Ok(d) => d,
                Err(e) => {
                    return Err(e);
                },
            };
            data = build_branch_instruction(self.program_counter, destination, false, true);
        } else if has_prefix(line, "b ") {
            let operand = line.substring_char(2, n);
            assert(operand@ =~= line@.skip(2));
            let destination = match self.resolve_symbol(operand) {
                Ok(d) => d,
                Err(e) => {
                    return Err(e);
                },
            };
            data = build_branch_instruction(self.program_counter, destination, false, false);
        } else if has_prefix(line, "u32 ") {
            let operand = line.substring_char(4, n);
            assert(operand@ =~= line@.skip(4));
            data = match parse_u32_literal(operand) {
                Some(v) => v,
                None => {
                    return Err(AsmError::ParseError(line.to_owned()));
                },
            };
        } else if has_prefix(line, "lis ") {
            let operand = line.substring_char(4, n);
            assert(operand@ =~= line@.skip(4));
            data = match lis_operands(operand) {
                Some((register, imm)) => build_lis_instruction(register, imm),
                None => {
                    return Err(AsmError::ParseError(line.to_owned()));
                },
            };
        } else if has_prefix(line, "nop") && n == 3 {
            assert(line@ =~= line@.take(3));
            data = NOP_WORD;
        } else {
            proof {
                if line@.len() == 3 && line@ == seq!['n', 'o', 'p'] {
                    assert(line@.take(3) =~= line@);
                }
            }
            return Err(AsmError::ParseError(line.to_owned()));
        }
        Ok(Instruction { address: self.program_counter, data })
    }

    /// Assembles every line in order. Comments (from `;`) and blank lines are
    /// skipped; a label line either defines its name as the current program
    /// counter or sets the program counter to its address expression; every
    /// other line emits one instruction and advances it by 4. The program
    /// counter and labels are left where assembly stopped.
    pub fn assemble_all_lines(&mut self, lines: &[&str]) -> (r: Result<Vec<Instruction>, AsmError>)
        ensures
            final(self).user_symbols() == old(self).user_symbols(),
            final(self).prelinked() == old(self).prelinked(),
            final(self).pc() == assemble_lines(
                old(self).user_symbols(),
                old(self).prelinked(),
                old(self).labels(),
                old(self).pc(),
                line_views(lines@),
            ).1,
            final(self).labels() == assemble_lines(
                old(self).user_symbols(),
                old(self).prelinked(),
                old(self).labels(),
                old(self).pc(),
                line_views(lines@),
            ).2,
            r matches Ok(v) ==> assemble_lines(
                old(self).user_symbols(),
                old(self).prelinked(),
                old(self).labels(),
                old(self).pc(),
                line_views(lines@),
            ).0 == Ok::<Seq<Instruction>, AsmFault>(v@),
            r matches Err(e) ==> assemble_lines(
                old(self).user_symbols(),
                old(self).prelinked(),
                old(self).labels(),
                old(self).pc(),
                line_views(lines@),
            ).0 == Err::<Seq<Instruction>, AsmFault>(e@),
    {
        let ghost user = self.user_symbols();
        let ghost pre = self.prelinked();
        let ghost all = line_views(lines@);
        let ghost total = assemble_lines(user, pre, self.labels(), self.pc(), all);
        let mut instructions: Vec<Instruction> = Vec::new();
        let mut i: usize = 0;
        proof {
            assert(all.skip(0) =~= all);
            match total.0 {
                Ok(v) => {
                    assert(Seq::<Instruction>::empty() + v =~= v);
                },
                Err(_) => {},
            }
        }
        while i < lines.len()
            invariant
                i <= lines@.len(),
                all == line_views(lines@),
                all.len() == lines@.len(),
                user == self.user_symbols(),
                pre == self.prelinked(),
                user == old(self).user_symbols(),
                pre == old(self).prelinked(),
                total == assemble_lines(
                    old(self).user_symbols(),
                    old(self).prelinked(),
                    old(self).labels(),
                    old(self).pc(),
                    all,
                ),
                ({
                    let run = assemble_lines(user, pre, self.labels(), self.pc(), all.skip(i as int));
                    total == (after(instructions@, run.0), run.1, run.2)
                }),
            decreases lines@.len() - i,
        {
            let line = reduce_line_to_code(lines[i]);
            let ghost rest = all.skip(i as int);
            assert(rest[0] == lines@[i as int]@);
            assert(rest.drop_first() =~= all.skip(i + 1));
            let n = line.unicode_len();
            if n == 0 {
            } else if line.get_char(n - 1) == ':' {
                assert(line@.last() == ':');
                let body = line.substring_char(0, n - 1);
                assert(body@ =~= line@.drop_last());
                if label_name(body) {
                    let pc = self.program_counter;
                    self.labels.insert(body, pc);
                } else {
                    match self.parse_program_counter_label(line) {
                        Ok(a) => {
                            self.program_counter = a;
                        },
                        Err(e) => {
                            return Err(e);
                        },
                    }
                }
            } else {
                match self.parse_instruction(line) {
                    Ok(instruction) => {
                        let ghost before = instructions@;
                        instructions.push(instruction);
                        self.program_counter = self.program_counter.wrapping_add(4);
                        proof {
                            let run = assemble_lines(
                                user,
                                pre,
                                self.labels(),
                                self.pc(),
                                all.skip(i + 1),
                            );
                            match run.0 {
                                Ok(v) => {
                                    assert(before + (seq![instruction] + v) =~= instructions@ + v);
                                },
                                Err(_) => {},
                            }
                        }
                    },
                    Err(e) => {
                        return Err(e);
                    },
                }
            }
            i = i + 1;
        }
        proof {
            assert(all.skip(i as int).len() == 0);
            assert(instructions@ + Seq::<Instruction>::empty() =~= instructions@);
        }
        Ok(instructions)
    }
}

/// Whether `s` is a label name.
fn label_name(s: &str) -> (r: bool)
    ensures
        r == is_label_name(s@),
{
    let n = s.unicode_len();
    if n == 0 {
        return false;
    }
    let c0 = s.get_char(0);
    if !(('A' <= c0 && c0 <= 'Z') || ('a' <= c0 && c0 <= 'z') || c0 == '_') {
        return false;
    }
    let mut i: usize = 0;
    while i < n
        invariant
            n == s@.len(),
            i <= n,
            forall|t: int| 0 <= t < i ==> name_char(#[trigger] s@[t]),
        decreases n - i,
    {
        let c = s.get_char(i);
        if !(('A' <= c && c <= 'Z') || ('a' <= c && c <= 'z') || c == '_' || ('0' <= c && c <= '9')
            || c == '.') {
            assert(!name_char(s@[i as int]));
            return false;
        }
        i = i + 1;
    }
    true
}

/// The register number and immediate of `lis` operand text.
fn lis_operands(operand: &str) -> (r: Option<(u8, i16)>)
    ensures
        r matches Some((reg, imm)) ==> lis_word(seq![], operand@) == Ok::<u32, AsmFault>(
            addis_word(reg, 0, imm),
        ),
        r is None ==> lis_word(seq![], operand@) is Err,
{
    let on = operand.unicode_len();
    let k = find_char(operand, ',', 0);
    let first = operand.substring_char(0, k);
    assert(first@ =~= operand@.take(k as int));
    let reg = crate::text::trim_str(first);
    let rn = reg.unicode_len();
    if rn == 0 || reg.get_char(0) != 'r' {
        return None;
    }
    let number = reg.substring_char(1, rn);
    assert(number@ =~= reg@.skip(1));
    let reg_v = match parse_i64_literal(number) {
        Some(x) => x,
        None => {
            return None;
        },
    };
    if k >= on {
        return None;
    }
    let rest = operand.substring_char(k + 1, on);
    assert(rest@ =~= operand@.skip(k + 1));
    let k2 = find_char(rest, ',', 0);
    let second = rest.substring_char(0, k2);
    assert(second@ =~= rest@.take(k2 as int));
    let imm = crate::text::trim_str(second);
    let imm_v = match parse_i64_literal(imm) {
        Some(x) => x,
        None => {
            return None;
        },
    };
    Some((#[verifier::truncate] (reg_v as u8), #[verifier::truncate] (imm_v as i16)))
}

} // verus!

verus! {

/// A name bound in both tables resolves to the user's address: the user's
/// table is consulted before the prelinked one. (A numeric literal denotes
/// itself, and a label the patch defines names its own address.)
pub proof fn lemma_user_symbols_take_precedence(
    user: Map<Seq<char>, u32>,
    pre: Map<Seq<char>, u32>,
    labels: Map<Seq<char>, u32>,
    name: Seq<char>,
)
    requires
        user.contains_key(name),
        pre.contains_key(name),
        u32_literal_value(name) is None,
        !labels.contains_key(name),
    ensures
        resolve(Some(user), pre, labels, name) == Ok::<u32, AsmFault>(user[name]),
{
}

/// A branch to its own address carries displacement 0, whether or not it
/// links.
pub proof fn lemma_self_branch_displacement(pc: u32, lk: bool)
    ensures
        branch_word(pc, pc, false, lk) & crate::encoding::BRANCH_DISPLACEMENT_MASK == 0,
        branch_word(pc, pc, false, lk) >> 26u32 == crate::encoding::BRANCH_OPCODE,
{
    let w = branch_word(pc, pc, false, lk);
    let l: u32 = if lk { 1 } else { 0 };
    assert(pc.wrapping_sub(pc) == 0);
    assert(w == (18u32 << 26u32) | (0x03FF_FFFCu32 & 0u32) | (0u32 << 1u32) | l);
    assert(((18u32 << 26u32) | (0x03FF_FFFCu32 & 0u32) | (0u32 << 1u32) | l) & 0x03FF_FFFCu32 == 0
        && ((18u32 << 26u32) | (0x03FF_FFFCu32 & 0u32) | (0u32 << 1u32) | l) >> 26u32 == 18u32)
        by (bit_vector)
        requires
            l <= 1,
    ;
}

} // verus!

//! The two-pass assembler: label scanning, per-line decoding, and the
//! assembly loop.

use crate::inst::parse_register;
use crate::inst::reg_of_tok;
use crate::inst::Instruction;
use crate::inst::Register;
use crate::inst::CmpKind;
use crate::labels::map_get;
use crate::labels::LabelTable;
use crate::text::i32_literal_val;
use crate::text::is_i32_literal;
use crate::text::parse_i32;
use crate::text::split_chars;
use crate::text::split_on;
use crate::text::str_to_chars;
use crate::text::tok_is;
use crate::text::views_of;
use vstd::prelude::*;

verus! {

/// The kinds of diagnostic a line can raise.  Every kind skips the line and
/// marks the run as failed; none of them stops assembly.
#[derive(Clone, Copy, PartialEq, Eq, Structural, Debug)]
pub enum DiagKind {
    /// The line holds fewer operand tokens than its opcode requires.
    SyntaxError,
    /// An operand token does not decode as the integer, register name, or
    /// resolvable label the opcode requires.
    TypeError,
    /// The first token matches no known mnemonic.
    UnexpectedToken,
}

/// What one source line contributes to assembly.
#[derive(PartialEq, Eq, Debug)]
pub enum LineAction {
    /// A blank line, a comment, or a label declaration: nothing is emitted.
    Skip,
    /// A well-formed instruction line: the decoded instruction is emitted.
    Emit(Instruction),
    /// A malformed line: a diagnostic of this kind is recorded instead.
    Fault(DiagKind),
    /// A `hlt` line: `Hlt` is emitted and assembly stops at once.
    Halt,
}

/// Two register operands, demanded at token positions 1 and 2: too few
/// tokens is a syntax error, an unknown register name a type error.
pub open spec fn reg_pair_of(toks: Seq<Seq<char>>) -> Result<(Register, Register), DiagKind> {
    if toks.len() < 3 {
        Err(DiagKind::SyntaxError)
    } else {
        match reg_of_tok(toks[1], false) {
            Option::None => Err(DiagKind::TypeError),
            Option::Some(a) => match reg_of_tok(toks[2], false) {
                Option::None => Err(DiagKind::TypeError),
                Option::Some(b) => Ok((a, b)),
            },
        }
    }
}

pub open spec fn reg_pair_action(
    toks: Seq<Seq<char>>,
    make: spec_fn(Register, Register) -> Instruction,
) -> LineAction {
    match reg_pair_of(toks) {
        Result::Ok(p) => LineAction::Emit(make(p.0, p.1)),
        Result::Err(k) => LineAction::Fault(k),
    }
}

/// One register operand at token position 1; `drg` alone also accepts the
/// flag register.
pub open spec fn one_reg_of(toks: Seq<Seq<char>>, allow_flag: bool) -> Result<
    Register,
    DiagKind,
> {
    if toks.len() < 2 {
        Err(DiagKind::SyntaxError)
    } else {
        match reg_of_tok(toks[1], allow_flag) {
            Option::None => Err(DiagKind::TypeError),
            Option::Some(r) => Ok(r),
        }
    }
}

/// The address a jump operand denotes: a numeric token is taken verbatim,
/// bypassing the label table; anything else must be a declared label.
pub open spec fn addr_of_tok(t: Seq<char>, labels: Map<Seq<char>, i32>) -> Option<i32> {
    if is_i32_literal(t) {
        Some(i32_literal_val(t) as i32)
    } else if labels.contains_key(t) {
        Some(labels[t])
    } else {
        None
    }
}

pub open spec fn addr_action(
    toks: Seq<Seq<char>>,
    labels: Map<Seq<char>, i32>,
    make: spec_fn(i32) -> Instruction,
) -> LineAction {
    if toks.len() < 2 {
        LineAction::Fault(DiagKind::SyntaxError)
    } else {
        match addr_of_tok(toks[1], labels) {
            Option::None => LineAction::Fault(DiagKind::TypeError),
            Option::Some(n) => LineAction::Emit(make(n)),
        }
    }
}

/// An integer operand at token position 1, for `psh`.
pub open spec fn int_action(toks: Seq<Seq<char>>) -> LineAction {
    if toks.len() < 2 {
        LineAction::Fault(DiagKind::SyntaxError)
    } else if is_i32_literal(toks[1]) {
        LineAction::Emit(Instruction::Psh(i32_literal_val(toks[1]) as i32))
    } else {
        LineAction::Fault(DiagKind::TypeError)
    }
}

/// What a source line contributes, given the completed label table.  Lines
/// are split at single spaces, so runs of spaces produce empty tokens; the
/// first token selects the opcode by exact, case-sensitive match.
pub open spec fn line_action(line: Seq<char>, labels: Map<Seq<char>, i32>) -> LineAction {
    if line.len() == 0 {
        LineAction::Skip
    } else if line[0] == ';' || line[0] == ':' {
        LineAction::Skip
    } else {
        let toks = split_on(line, ' ');
        let m = toks[0];
        if m == "dmp"@ {
            LineAction::Emit(Instruction::Dmp)
        } else if m == "gto"@ {
            addr_action(toks, labels, |n: i32| Instruction::Gto(n))
        } else if m == "prt"@ {
            match one_reg_of(toks, false) {
                Result::Ok(r) => LineAction::Emit(Instruction::Prt(r)),
                Result::Err(k) => LineAction::Fault(k),
            }
        } else if m == "tee"@ {
            reg_pair_action(toks, |a: Register, b: Register| Instruction::Tst(CmpKind::Equal, a, b))
        } else if m == "tne"@ {
            reg_pair_action(
                toks,
                |a: Register, b: Register| Instruction::Tst(CmpKind::NotEqual, a, b),
            )
        } else if m == "tll"@ {
            reg_pair_action(toks, |a: Register, b: Register| Instruction::Tst(CmpKind::Less, a, b))
        } else if m == "tmm"@ {
            reg_pair_action(
                toks,
                |a: Register, b: Register| Instruction::Tst(CmpKind::Greater, a, b),
            )
        } else if m == "tel"@ {
            reg_pair_action(
                toks,
                |a: Register, b: Register| Instruction::Tst(CmpKind::LessOrEqual, a, b),
            )
        } else if m == "tem"@ {
            reg_pair_action(
                toks,
                |a: Register, b: Register| Instruction::Tst(CmpKind::GreaterOrEqual, a, b),
            )
        } else if m == "jmp"@ {
            addr_action(toks, labels, |n: i32| Instruction::Jmp(n))
        } else if m == "psh"@ {
            int_action(toks)
        } else if m == "mov"@ {
            reg_pair_action(toks, |a: Register, b: Register| Instruction::Mov(a, b))
        } else if m == "add"@ {
            reg_pair_action(toks, |a: Register, b: Register| Instruction::Add(a, b))
        } else if m == "sub"@ {
            reg_pair_action(toks, |a: Register, b: Register| Instruction::Sub(a, b))
        } else if m == "mul"@ {
            reg_pair_action(toks, |a: Register, b: Register| Instruction::Mul(a, b))
        } else if m == "div"@ {
            reg_pair_action(toks, |a: Register, b: Register| Instruction::Div(a, b))
        } else if m == "pop"@ {
            LineAction::Emit(Instruction::Pop)
        } else if m == "drg"@ {
            match one_reg_of(toks, true) {
                Result::Ok(r) => LineAction::Emit(Instruction::Drg(r)),
                Result::Err(k) => LineAction::Fault(k),
            }
        } else if m == "hlt"@ {
            LineAction::Halt
        } else {
            LineAction::Fault(DiagKind::UnexpectedToken)
        }
    }
}

/// Decodes two register operands, exactly as `reg_pair_of` describes.
fn two_reg_operands(toks: &Vec<Vec<char>>) -> (r: Result<(Register, Register), DiagKind>)
    ensures
        r == reg_pair_of(views_of(toks@)),
{
    if toks.len() < 3 {
        return Err(DiagKind::SyntaxError);
    }
    let a = match parse_register(&toks[1], false) {
        Option::Some(a) => a,
        Option::None => {
            return Err(DiagKind::TypeError);
        },
    };
    let b = match parse_register(&toks[2], false) {
        Option::Some(b) => b,
        Option::None => {
            return Err(DiagKind::TypeError);
        },
    };
    Ok((a, b))
}

/// Decodes one register operand, exactly as `one_reg_of` describes.
fn one_reg_operand(toks: &Vec<Vec<char>>, allow_flag: bool) -> (r: Result<Register, DiagKind>)
    ensures
        r == one_reg_of(views_of(toks@), allow_flag),
{
    if toks.len() < 2 {
        return Err(DiagKind::SyntaxError);
    }
    match parse_register(&toks[1], allow_flag) {
        Option::Some(r) => Ok(r),
        Option::None => Err(DiagKind::TypeError),
    }
}

/// Resolves an address operand, exactly as `addr_action` describes.
fn addr_operand(toks: &Vec<Vec<char>>, labels: &LabelTable) -> (r: Result<i32, DiagKind>)
    ensures
        toks@.len() < 2 ==> r == Err::<i32, DiagKind>(DiagKind::SyntaxError),
        toks@.len() >= 2 ==> r == (match addr_of_tok(views_of(toks@)[1], labels@) {
            Option::Some(n) => Ok::<i32, DiagKind>(n),
            Option::None => Err::<i32, DiagKind>(DiagKind::TypeError),
        }),
{
    if toks.len() < 2 {
        return Err(DiagKind::SyntaxError);
    }
    match parse_i32(&toks[1]) {
        Option::Some(n) => Ok(n),
        Option::None => match labels.lookup_tok(&toks[1]) {
            Option::Some(n) => Ok(n),
            Option::None => Err(DiagKind::TypeError),
        },
    }
}

/// Decodes one source line against the completed label table, exactly as
/// `line_action` describes.
pub fn parse_line(line: &Vec<char>, labels: &LabelTable) -> (r: LineAction)
    ensures
        r == line_action(line@, labels@),
{
    if line.len() == 0 {
        return LineAction::Skip;
    }
    let c0 = line[0];
    if c0 == ';' || c0 == ':' {
        return LineAction::Skip;
    }
    let toks = split_chars(line, ' ');
    let ghost tv = views_of(toks@);
    proof {
        crate::text::lemma_split_on_len(line@, ' ');
        assert(toks@[0]@ == tv[0]);
    }
    let m = &toks[0];
    if tok_is(m, "dmp") {
        LineAction::Emit(Instruction::Dmp)
    } else if tok_is(m, "gto") {
        match addr_operand(&toks, labels) {
            Result::Ok(n) => LineAction::Emit(Instruction::Gto(n)),
            Result::Err(k) => LineAction::Fault(k),
        }
    } else if tok_is(m, "prt") {
        match one_reg_operand(&toks, false) {
            Result::Ok(r) => LineAction::Emit(Instruction::Prt(r)),
            Result::Err(k) => LineAction::Fault(k),
        }
    } else if tok_is(m, "tee") {
        match two_reg_operands(&toks) {
            Result::Ok(p) => LineAction::Emit(Instruction::Tst(CmpKind::Equal, p.0, p.1)),
            Result::Err(k) => LineAction::Fault(k),
        }
    } else if tok_is(m, "tne") {
        match two_reg_operands(&toks) {
            Result::Ok(p) => LineAction::Emit(Instruction::Tst(CmpKind::NotEqual, p.0, p.1)),
            Result::Err(k) => LineAction::Fault(k),
        }
    } else if tok_is(m, "tll") {
        match two_reg_operands(&toks) {
            Result::Ok(p) => LineAction::Emit(Instruction::Tst(CmpKind::Less, p.0, p.1)),
            Result::Err(k) => LineAction::Fault(k),
        }
    } else if tok_is(m, "tmm") {
        match two_reg_operands(&toks) {
            Result::Ok(p) => LineAction::Emit(Instruction::Tst(CmpKind::Greater, p.0, p.1)),
            Result::Err(k) => LineAction::Fault(k),
        }
    } else if tok_is(m, "tel") {
        match two_reg_operands(&toks) {
            Result::Ok(p) => LineAction::Emit(Instruction::Tst(CmpKind::LessOrEqual, p.0, p.1)),
            Result::Err(k) => LineAction::Fault(k),
        }
    } else if tok_is(m, "tem") {
        match two_reg_operands(&toks) {
            Result::Ok(p) => LineAction::Emit(Instruction::Tst(CmpKind::GreaterOrEqual, p.0, p.1)),
            Result::Err(k) => LineAction::Fault(k),
        }
    } else if tok_is(m, "jmp") {
        match addr_operand(&toks, labels) {
            Result::Ok(n) => LineAction::Emit(Instruction::Jmp(n)),
            Result::Err(k) => LineAction::Fault(k),
        }
    } else if tok_is(m, "psh") {
        if toks.len() < 2 {
            LineAction::Fault(DiagKind::SyntaxError)
        } else {
            match parse_i32(&toks[1]) {
                Option::Some(n) => LineAction::Emit(Instruction::Psh(n)),
                Option::None => LineAction::Fault(DiagKind::TypeError),
            }
        }
    } else if tok_is(m, "mov") {
        match two_reg_operands(&toks) {
            Result::Ok(p) => LineAction::Emit(Instruction::Mov(p.0, p.1)),
            Result::Err(k) => LineAction::Fault(k),
        }
    } else if tok_is(m, "add") {
        match two_reg_operands(&toks) {
            Result::Ok(p) => LineAction::Emit(Instruction::Add(p.0, p.1)),
            Result::Err(k) => LineAction::Fault(k),
        }
    } else if tok_is(m, "sub") {
        match two_reg_operands(&toks) {
            Result::Ok(p) => LineAction::Emit(Instruction::Sub(p.0, p.1)),
            Result::Err(k) => LineAction::Fault(k),
        }
    } else if tok_is(m, "mul") {
        match two_reg_operands(&toks) {
            Result::Ok(p) => LineAction::Emit(Instruction::Mul(p.0, p.1)),
            Result::Err(k) => LineAction::Fault(k),
        }
    } else if tok_is(m, "div") {
        match two_reg_operands(&toks) {
            Result::Ok(p) => LineAction::Emit(Instruction::Div(p.0, p.1)),
            Result::Err(k) => LineAction::Fault(k),
        }
    } else if tok_is(m, "pop") {
        LineAction::Emit(Instruction::Pop)
    } else if tok_is(m, "drg") {
        match one_reg_operand(&toks, true) {
            Result::Ok(r) => LineAction::Emit(Instruction::Drg(r)),
            Result::Err(k) => LineAction::Fault(k),
        }
    } else if tok_is(m, "hlt") {
        LineAction::Halt
    } else {
        LineAction::Fault(DiagKind::UnexpectedToken)
    }
}

/// A line declares a label exactly when its first character is the marker.
pub open spec fn is_label_line(line: Seq<char>) -> bool {
    line.len() > 0 && line[0] == ':'
}

/// The name a declaration binds: its first token with the marker removed.
pub open spec fn label_name(line: Seq<char>) -> Seq<char> {
    split_on(line, ' ')[0].drop_first()
}

/// The address a declaration on the 0-based line `i` records: the 1-based
/// number of the line that follows it.  Addresses name raw source lines, not
/// instruction-stream positions; reconciling the two is the execution
/// engine's documented correction.
pub open spec fn label_addr(i: int) -> int {
    i + 2
}

/// The label table after the first `n` lines of the scan pass: every
/// declaration inserted in order, so the latest one wins.
pub open spec fn labels_after(lines: Seq<Seq<char>>, n: int) -> Map<Seq<char>, i32>
    decreases n,
{
    if n <= 0 {
        Map::empty()
    } else if is_label_line(lines[n - 1]) {
        labels_after(lines, n - 1).insert(label_name(lines[n - 1]), label_addr(n - 1) as i32)
    } else {
        labels_after(lines, n - 1)
    }
}

pub open spec fn labels_of(lines: Seq<Seq<char>>) -> Map<Seq<char>, i32> {
    labels_after(lines, lines.len() as int)
}

/// The source, split at every newline.
pub open spec fn source_lines(code: Seq<char>) -> Seq<Seq<char>> {
    split_on(code, '\n')
}

fn scan_lines(lines: &Vec<Vec<char>>) -> (t: LabelTable)
    requires
        lines@.len() + 1 <= i32::MAX,
    ensures
        t@ == labels_of(views_of(lines@)),
{
    let ghost lv = views_of(lines@);
    let mut t = LabelTable::new();
    let mut i: usize = 0;
    while i < lines.len()
        invariant
            0 <= i <= lines@.len(),
            lines@.len() + 1 <= i32::MAX,
            lv == views_of(lines@),
            t@ == labels_after(lv, i as int),
        decreases lines@.len() - i,
    {
        let line = &lines[i];
        proof {
            assert(line@ == lv[i as int]);
        }
        if line.len() > 0 && line[0] == ':' {
            let toks = split_chars(line, ' ');
            proof {
                crate::text::lemma_split_on_len(line@, ' ');
                assert(toks@[0]@ == split_on(line@, ' ')[0]);
            }
            let t0 = &toks[0];
            let mut name: Vec<char> = Vec::new();
            let mut j: usize = 1;
            proof {
                crate::text::lemma_split_on_first(line@, ' ');
            }
            while j < t0.len()
                invariant
                    1 <= j <= t0@.len() || (t0@.len() == 0 && j == 1),
                    name@ =~= t0@.subrange(1, j as int) || (t0@.len() == 0 && name@.len() == 0),
                decreases t0@.len() - j,
            {
                name.push(t0[j]);
                proof {
                    assert(name@ =~= t0@.subrange(1, j + 1 as int));
                }
                j = j + 1;
            }
            proof {
                assert(t0@.len() > 0);
                assert(name@ =~= t0@.drop_first());
                assert(name@ == label_name(lv[i as int]));
            }
            t.insert(name, (i as i32) + 2);
        }
        i = i + 1;
    }
    t
}

/// The first pass: records every label declaration into a fresh table.  No
/// other line shape is inspected and nothing is validated; a duplicate name
/// simply overwrites the earlier address.
pub fn scan_labels(code: &str) -> (t: LabelTable)
    requires
        code@.len() + 2 <= i32::MAX,
    ensures
        t@ == labels_of(source_lines(code@)),
{
    let chars = str_to_chars(code);
    let lines = split_chars(&chars, '\n');
    proof {
        crate::text::lemma_split_on_len(code@, '\n');
    }
    scan_lines(&lines)
}

/// A diagnostic: the 1-based number of the offending line, the raw line
/// text, and the kind of fault.  Rendering a message is the caller's
/// affair; the kind determines it.
pub struct Diag {
    pub line: usize,
    pub text: Vec<char>,
    pub kind: DiagKind,
}

/// The abstract value of a diagnostic.
pub struct DiagView {
    pub line: int,
    pub text: Seq<char>,
    pub kind: DiagKind,
}

impl View for Diag {
    type V = DiagView;

    open spec fn view(&self) -> DiagView {
        DiagView { line: self.line as int, text: self.text@, kind: self.kind }
    }
}

pub open spec fn diags_view(ds: Seq<Diag>) -> Seq<DiagView> {
    ds.map_values(|d: Diag| d@)
}

/// The assembly pass's accumulated outcome: the instructions emitted so
/// far, the diagnostics raised so far, and whether a `hlt` line has already
/// stopped the pass.
#[verifier::ext_equal]
pub struct PassState {
    pub instrs: Seq<Instruction>,
    pub diags: Seq<DiagView>,
    pub halted: bool,
}

/// How one line advances the assembly pass.  After a halt nothing changes:
/// the remaining lines are never inspected.
pub open spec fn step_line(
    st: PassState,
    line: Seq<char>,
    ln: int,
    labels: Map<Seq<char>, i32>,
) -> PassState {
    if st.halted {
        st
    } else {
        match line_action(line, labels) {
            LineAction::Skip => st,
            LineAction::Emit(i) => PassState {
                instrs: st.instrs.push(i),
                diags: st.diags,
                halted: false,
            },
            LineAction::Fault(k) => PassState {
                instrs: st.instrs,
                diags: st.diags.push(DiagView { line: ln, text: line, kind: k }),
                halted: false,
            },
            LineAction::Halt => PassState {
                instrs: st.instrs.push(Instruction::Hlt),
                diags: st.diags,
                halted: true,
            },
        }
    }
}

/// The assembly pass's state after its first `n` lines.
pub open spec fn state_after(
    lines: Seq<Seq<char>>,
    labels: Map<Seq<char>, i32>,
    n: int,
) -> PassState
    decreases n,
{
    if n <= 0 {
        PassState { instrs: Seq::empty(), diags: Seq::empty(), halted: false }
    } else {
        step_line(state_after(lines, labels, n - 1), lines[n - 1], n, labels)
    }
}

/// The completed assembly of a program: every line processed in order, and
/// a terminal `Hlt` synthesized when no `hlt` line stopped the pass.
pub open spec fn assembly_of(lines: Seq<Seq<char>>, labels: Map<Seq<char>, i32>) -> PassState {
    let st = state_after(lines, labels, lines.len() as int);
    if st.halted {
        st
    } else {
        PassState { instrs: st.instrs.push(Instruction::Hlt), diags: st.diags, halted: false }
    }
}

fn assemble_lines(lines: &Vec<Vec<char>>, labels: &LabelTable) -> (r: (Vec<Instruction>, Vec<
    Diag,
>))
    ensures
        ({
            let st = assembly_of(views_of(lines@), labels@);
            r.0@ == st.instrs && diags_view(r.1@) == st.diags
        }),
{
    let ghost lv = views_of(lines@);
    let mut instrs: Vec<Instruction> = Vec::new();
    let mut diags: Vec<Diag> = Vec::new();
    let mut halted = false;
    let mut i: usize = 0;
    while i < lines.len()
        invariant
            0 <= i <= lines@.len(),
            lv == views_of(lines@),
            state_after(lv, labels@, i as int) == (PassState {
                instrs: instrs@,
                diags: diags_view(diags@),
                halted: halted,
            }),
        decreases lines@.len() - i,
    {
        proof {
            assert(lines@[i as int]@ == lv[i as int]);
        }
        if !halted {
            let act = parse_line(&lines[i], labels);
            match act {
                LineAction::Skip => {},
                LineAction::Emit(ins) => {
                    instrs.push(ins);
                },
                LineAction::Fault(k) => {
                    let d = Diag {
                        line: i + 1,
                        text: crate::text::copy_chars(&lines[i]),
                        kind: k,
                    };
                    diags.push(d);
                    proof {
                        assert(diags_view(diags@) =~= diags_view(diags@.drop_last()).push(
                            diags@.last()@,
                        ));
                    }
                },
                LineAction::Halt => {
                    instrs.push(Instruction::Hlt);
                    halted = true;
                },
            }
        }
        proof {
            assert(state_after(lv, labels@, i + 1 as int) =~= (PassState {
                instrs: instrs@,
                diags: diags_view(diags@),
                halted: halted,
            }));
        }
        i = i + 1;
    }
    if !halted {
        instrs.push(Instruction::Hlt);
    }
    (instrs, diags)
}

/// The second pass: tokenizes every line that declares no label and holds
/// no comment, decodes it against the completed table, and emits the
/// instruction stream, exactly as `assembly_of` describes.  Malformed lines
/// are skipped with a diagnostic; a `hlt` line stops the pass at once and
/// the remaining lines are never inspected; a terminal `Hlt` is synthesized
/// when none was written.
pub fn assemble(code: &str, labels: &LabelTable) -> (r: (Vec<Instruction>, Vec<Diag>))
    ensures
        ({
            let st = assembly_of(source_lines(code@), labels@);
            r.0@ == st.instrs && diags_view(r.1@) == st.diags
        }),
{
    let chars = str_to_chars(code);
    let lines = split_chars(&chars, '\n');
    assemble_lines(&lines, labels)
}

/// Everything one assembly run returns: the instruction stream, the label
/// table, and the diagnostics of every malformed line, in source order.
pub struct Assembly {
    pub instrs: Vec<Instruction>,
    pub labels: LabelTable,
    pub diags: Vec<Diag>,
}

impl Assembly {
    /// Whether any line was malformed.  The stream is still complete and
    /// terminated; aborting on failure is the caller's policy, not ours.
    pub fn had_error(&self) -> (r: bool)
        ensures
            r == (self.diags@.len() > 0),
    {
        self.diags.len() > 0
    }
}

/// Runs both passes over the source: scans every label declaration, then
/// assembles the instruction stream against the completed table.  The
/// result is a function of the source text alone, so two runs on identical
/// input return identical streams, tables and diagnostics.
pub fn parse_code(code: &str) -> (r: Assembly)
    requires
        code@.len() + 2 <= i32::MAX,
    ensures
        ({
            let lines = source_lines(code@);
            let st = assembly_of(lines, labels_of(lines));
            r.labels@ == labels_of(lines) && r.instrs@ == st.instrs && diags_view(r.diags@)
                == st.diags
        }),
{
    let labels = scan_labels(code);
    let (instrs, diags) = assemble(code, &labels);
    Assembly { instrs, labels, diags }
}

/// No line ever emits `Hlt` through decoding: the only sources of `Hlt` in
/// a stream are a `hlt` line stopping the pass and the synthesized
/// terminator.
proof fn lemma_no_decoded_hlt(line: Seq<char>, labels: Map<Seq<char>, i32>)
    ensures
        forall|i: Instruction|
            line_action(line, labels) == LineAction::Emit(i) ==> i != Instruction::Hlt,
{
}

proof fn lemma_state_hlt_shape(lines: Seq<Seq<char>>, labels: Map<Seq<char>, i32>, n: int)
    requires
        0 <= n,
    ensures
        ({
            let st = state_after(lines, labels, n);
            if st.halted {
                st.instrs.len() >= 1 && st.instrs.last() == Instruction::Hlt && forall|i: int|
                    0 <= i < st.instrs.len() - 1 ==> st.instrs[i] != Instruction::Hlt
            } else {
                forall|i: int| 0 <= i < st.instrs.len() ==> st.instrs[i] != Instruction::Hlt
            }
        }),
    decreases n,
{
    if n > 0 {
        lemma_state_hlt_shape(lines, labels, n - 1);
        lemma_no_decoded_hlt(lines[n - 1], labels);
    }
}

/// Idempotent termination: whatever the source — well-formed or not — the
/// assembled stream ends in `Hlt`, and no other `Hlt` appears anywhere in
/// it.
pub proof fn lemma_single_terminal_hlt(lines: Seq<Seq<char>>, labels: Map<Seq<char>, i32>)
    ensures
        ({
            let st = assembly_of(lines, labels);
            st.instrs.len() >= 1 && st.instrs.last() == Instruction::Hlt && forall|i: int|
                0 <= i < st.instrs.len() - 1 ==> st.instrs[i] != Instruction::Hlt
        }),
{
    lemma_state_hlt_shape(lines, labels, lines.len() as int);
}

/// Determinism: any two results that `parse_code` may return for the same
/// source hold the same stream, the same table and the same diagnostics —
/// the contract pins every part of the result to the source text alone.
pub proof fn lemma_parse_deterministic(code: Seq<char>, r1: Assembly, r2: Assembly)
    requires
        ({
            let lines = source_lines(code);
            let st = assembly_of(lines, labels_of(lines));
            r1.labels@ == labels_of(lines) && r1.instrs@ == st.instrs && diags_view(r1.diags@)
                == st.diags && r2.labels@ == labels_of(lines) && r2.instrs@ == st.instrs
                && diags_view(r2.diags@) == st.diags
        }),
    ensures
        r1.instrs@ == r2.instrs@,
        r1.labels@ == r2.labels@,
        diags_view(r1.diags@) == diags_view(r2.diags@),
{
}

/// Last declaration wins: when line `j` declares a name and no later line
/// declares the same name, the scanned table binds the name to line `j`'s
/// address — any earlier declaration is overwritten.
pub proof fn lemma_label_last_wins(lines: Seq<Seq<char>>, j: int)
    requires
        0 <= j < lines.len(),
        is_label_line(lines[j]),
        forall|l: int|
            j < l < lines.len() ==> !(is_label_line(lines[l]) && label_name(lines[l])
                == label_name(lines[j])),
    ensures
        labels_of(lines).contains_key(label_name(lines[j])),
        labels_of(lines)[label_name(lines[j])] == label_addr(j) as i32,
{
    lemma_label_last_wins_upto(lines, j, lines.len() as int);
}

proof fn lemma_label_last_wins_upto(lines: Seq<Seq<char>>, j: int, n: int)
    requires
        0 <= j < n <= lines.len(),
        is_label_line(lines[j]),
        forall|l: int|
            j < l < n ==> !(is_label_line(lines[l]) && label_name(lines[l]) == label_name(
                lines[j],
            )),
    ensures
        labels_after(lines, n).contains_key(label_name(lines[j])),
        labels_after(lines, n)[label_name(lines[j])] == label_addr(j) as i32,
    decreases n,
{
    if n == j + 1 {
    } else {
        lemma_label_last_wins_upto(lines, j, n - 1);
    }
}

} // verus!

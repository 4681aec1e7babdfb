//! Rendering instructions back to source text, and the proof that assembly
//! reads a rendered instruction back unchanged.

use crate::assembler::line_action;
use crate::assembler::LineAction;
use crate::inst::reg_of_tok;
use crate::inst::CmpKind;
use crate::inst::Instruction;
use crate::inst::Register;
use crate::text::all_digits;
use crate::text::digit_val;
use crate::text::digits_val;
use crate::text::i32_literal_val;
use crate::text::is_i32_literal;
use crate::text::literal_magnitude;
use crate::text::split_on;
use crate::text::is_digit_char;
use vstd::prelude::*;
use vstd::string::StrSliceExecFns;

verus! {

/// The operand token that names a register — the inverse of `reg_of_tok`,
/// inverted `e`/`d` pair included.
pub open spec fn reg_text(r: Register) -> Seq<char> {
    match r {
        Register::A => "a"@,
        Register::B => "b"@,
        Register::C => "c"@,
        Register::D => "e"@,
        Register::E => "d"@,
        Register::F => "f"@,
        Register::Ip => "ip"@,
        Register::Sp => "sp"@,
        Register::St => "st"@,
        Register::Eq => "eq"@,
    }
}

/// The mnemonic of a test instruction.
pub open spec fn cmp_text(k: CmpKind) -> Seq<char> {
    match k {
        CmpKind::Equal => "tee"@,
        CmpKind::NotEqual => "tne"@,
        CmpKind::Less => "tll"@,
        CmpKind::Greater => "tmm"@,
        CmpKind::LessOrEqual => "tel"@,
        CmpKind::GreaterOrEqual => "tem"@,
    }
}

pub open spec fn digit_char(d: int) -> char {
    ((48 + d) as u8) as char
}

/// The decimal digits of a non-negative number, most significant first,
/// without leading zeros.
pub open spec fn digits_text(n: int) -> Seq<char>
    decreases n,
{
    if n < 10 {
        seq![digit_char(n)]
    } else {
        digits_text(n / 10).push(digit_char(n % 10))
    }
}

/// The canonical decimal rendering of an integer.
pub open spec fn int_text(n: int) -> Seq<char> {
    if n < 0 {
        seq!['-'] + digits_text(-n)
    } else {
        digits_text(n)
    }
}

/// The canonical source line for an instruction: mnemonic and operand
/// tokens joined by single spaces.
pub open spec fn instr_text(i: Instruction) -> Seq<char> {
    match i {
        Instruction::Dmp => "dmp"@,
        Instruction::Gto(n) => "gto"@ + seq![' '] + int_text(n as int),
        Instruction::Prt(r) => "prt"@ + seq![' '] + reg_text(r),
        Instruction::Tst(k, a, b) => cmp_text(k) + seq![' '] + reg_text(a) + seq![' ']
            + reg_text(b),
        Instruction::Jmp(n) => "jmp"@ + seq![' '] + int_text(n as int),
        Instruction::Psh(n) => "psh"@ + seq![' '] + int_text(n as int),
        Instruction::Mov(a, b) => "mov"@ + seq![' '] + reg_text(a) + seq![' '] + reg_text(b),
        Instruction::Add(a, b) => "add"@ + seq![' '] + reg_text(a) + seq![' '] + reg_text(b),
        Instruction::Sub(a, b) => "sub"@ + seq![' '] + reg_text(a) + seq![' '] + reg_text(b),
        Instruction::Mul(a, b) => "mul"@ + seq![' '] + reg_text(a) + seq![' '] + reg_text(b),
        Instruction::Div(a, b) => "div"@ + seq![' '] + reg_text(a) + seq![' '] + reg_text(b),
        Instruction::Pop => "pop"@,
        Instruction::Drg(r) => "drg"@ + seq![' '] + reg_text(r),
        Instruction::Hlt => "hlt"@,
    }
}

/// An instruction the assembler itself could have produced: only `drg` may
/// name the flag register.
pub open spec fn well_formed(i: Instruction) -> bool {
    match i {
        Instruction::Prt(r) => r != Register::Eq,
        Instruction::Tst(_, a, b) => a != Register::Eq && b != Register::Eq,
        Instruction::Mov(a, b) => a != Register::Eq && b != Register::Eq,
        Instruction::Add(a, b) => a != Register::Eq && b != Register::Eq,
        Instruction::Sub(a, b) => a != Register::Eq && b != Register::Eq,
        Instruction::Mul(a, b) => a != Register::Eq && b != Register::Eq,
        Instruction::Div(a, b) => a != Register::Eq && b != Register::Eq,
        _ => true,
    }
}

/// Appends the characters of a literal.
fn append_lit(v: &mut Vec<char>, s: &str)
    ensures
        final (v)@ == old(v)@ + s@,
{
    let n = s.unicode_len();
    let mut i: usize = 0;
    while i < n
        invariant
            0 <= i <= n,
            n == s@.len(),
            v@ =~= old(v)@ + s@.take(i as int),
        decreases n - i,
    {
        v.push(s.get_char(i));
        proof {
            assert(v@ =~= old(v)@ + s@.take(i + 1 as int));
        }
        i = i + 1;
    }
    proof {
        assert(s@.take(n as int) =~= s@);
        assert(v@ =~= old(v)@ + s@);
    }
}

fn append_reg(v: &mut Vec<char>, r: Register)
    ensures
        final (v)@ == old(v)@ + reg_text(r),
{
    match r {
        Register::A => append_lit(v, "a"),
        Register::B => append_lit(v, "b"),
        Register::C => append_lit(v, "c"),
        Register::D => append_lit(v, "e"),
        Register::E => append_lit(v, "d"),
        Register::F => append_lit(v, "f"),
        Register::Ip => append_lit(v, "ip"),
        Register::Sp => append_lit(v, "sp"),
        Register::St => append_lit(v, "st"),
        Register::Eq => append_lit(v, "eq"),
    }
}

fn append_digits(v: &mut Vec<char>, n: u32)
    ensures
        final (v)@ == old(v)@ + digits_text(n as int),
    decreases n,
{
    if n < 10 {
        v.push(((48 + n) as u8) as char);
        proof {
            assert(v@ =~= old(v)@ + digits_text(n as int));
        }
    } else {
        append_digits(v, n / 10);
        v.push(((48 + n % 10) as u8) as char);
        proof {
            assert(v@ =~= old(v)@ + digits_text(n as int));
        }
    }
}

fn append_int(v: &mut Vec<char>, n: i32)
    ensures
        final (v)@ == old(v)@ + int_text(n as int),
{
    if n < 0 {
        v.push('-');
        let m = (-(n as i64)) as u32;
        append_digits(v, m);
        proof {
            assert(v@ =~= old(v)@ + int_text(n as int));
        }
    } else {
        append_digits(v, n as u32);
    }
}

/// Renders an instruction as its canonical source line, exactly as
/// `instr_text` describes.
pub fn render_instruction(i: &Instruction) -> (v: Vec<char>)
    ensures
        v@ == instr_text(*i),
{
    let mut v: Vec<char> = Vec::new();
    match i {
        Instruction::Dmp => append_lit(&mut v, "dmp"),
        Instruction::Gto(n) => {
            append_lit(&mut v, "gto");
            v.push(' ');
            append_int(&mut v, *n);
        },
        Instruction::Prt(r) => {
            append_lit(&mut v, "prt");
            v.push(' ');
            append_reg(&mut v, *r);
        },
        Instruction::Tst(k, a, b) => {
            match k {
                CmpKind::Equal => append_lit(&mut v, "tee"),
                CmpKind::NotEqual => append_lit(&mut v, "tne"),
                CmpKind::Less => append_lit(&mut v, "tll"),
                CmpKind::Greater => append_lit(&mut v, "tmm"),
                CmpKind::LessOrEqual => append_lit(&mut v, "tel"),
                CmpKind::GreaterOrEqual => append_lit(&mut v, "tem"),
            }
            v.push(' ');
            append_reg(&mut v, *a);
            v.push(' ');
            append_reg(&mut v, *b);
        },
        Instruction::Jmp(n) => {
            append_lit(&mut v, "jmp");
            v.push(' ');
            append_int(&mut v, *n);
        },
        Instruction::Psh(n) => {
            append_lit(&mut v, "psh");
            v.push(' ');
            append_int(&mut v, *n);
        },
        Instruction::Mov(a, b) => {
            append_lit(&mut v, "mov");
            v.push(' ');
            append_reg(&mut v, *a);
            v.push(' ');
            append_reg(&mut v, *b);
        },
        Instruction::Add(a, b) => {
            append_lit(&mut v, "add");
            v.push(' ');
            append_reg(&mut v, *a);
            v.push(' ');
            append_reg(&mut v, *b);
        },
        Instruction::Sub(a, b) => {
            append_lit(&mut v, "sub");
            v.push(' ');
            append_reg(&mut v, *a);
            v.push(' ');
            append_reg(&mut v, *b);
        },
        Instruction::Mul(a, b) => {
            append_lit(&mut v, "mul");
            v.push(' ');
            append_reg(&mut v, *a);
            v.push(' ');
            append_reg(&mut v, *b);
        },
        Instruction::Div(a, b) => {
            append_lit(&mut v, "div");
            v.push(' ');
            append_reg(&mut v, *a);
            v.push(' ');
            append_reg(&mut v, *b);
        },
        Instruction::Pop => append_lit(&mut v, "pop"),
        Instruction::Drg(r) => {
            append_lit(&mut v, "drg");
            v.push(' ');
            append_reg(&mut v, *r);
        },
        Instruction::Hlt => append_lit(&mut v, "hlt"),
    }
    proof {
        assert(v@ =~= instr_text(*i));
    }
    v
}

/// Pins down the characters of every mnemonic and register token, so
/// that the solver can tell any two of them apart.
proof fn lemma_token_chars()
    ensures
        "dmp"@.len() == 3,
        "dmp"@[0] == 'd',
        "dmp"@[1] == 'm',
        "dmp"@[2] == 'p',
        "gto"@.len() == 3,
        "gto"@[0] == 'g',
        "gto"@[1] == 't',
        "gto"@[2] == 'o',
        "prt"@.len() == 3,
        "prt"@[0] == 'p',
        "prt"@[1] == 'r',
        "prt"@[2] == 't',
        "tee"@.len() == 3,
        "tee"@[0] == 't',
        "tee"@[1] == 'e',
        "tee"@[2] == 'e',
        "tne"@.len() == 3,
        "tne"@[0] == 't',
        "tne"@[1] == 'n',
        "tne"@[2] == 'e',
        "tll"@.len() == 3,
        "tll"@[0] == 't',
        "tll"@[1] == 'l',
        "tll"@[2] == 'l',
        "tmm"@.len() == 3,
        "tmm"@[0] == 't',
        "tmm"@[1] == 'm',
        "tmm"@[2] == 'm',
        "tel"@.len() == 3,
        "tel"@[0] == 't',
        "tel"@[1] == 'e',
        "tel"@[2] == 'l',
        "tem"@.len() == 3,
        "tem"@[0] == 't',
        "tem"@[1] == 'e',
        "tem"@[2] == 'm',
        "jmp"@.len() == 3,
        "jmp"@[0] == 'j',
        "jmp"@[1] == 'm',
        "jmp"@[2] == 'p',
        "psh"@.len() == 3,
        "psh"@[0] == 'p',
        "psh"@[1] == 's',
        "psh"@[2] == 'h',
        "mov"@.len() == 3,
        "mov"@[0] == 'm',
        "mov"@[1] == 'o',
        "mov"@[2] == 'v',
        "add"@.len() == 3,
        "add"@[0] == 'a',
        "add"@[1] == 'd',
        "add"@[2] == 'd',
        "sub"@.len() == 3,
        "sub"@[0] == 's',
        "sub"@[1] == 'u',
        "sub"@[2] == 'b',
        "mul"@.len() == 3,
        "mul"@[0] == 'm',
        "mul"@[1] == 'u',
        "mul"@[2] == 'l',
        "div"@.len() == 3,
        "div"@[0] == 'd',
        "div"@[1] == 'i',
        "div"@[2] == 'v',
        "pop"@.len() == 3,
        "pop"@[0] == 'p',
        "pop"@[1] == 'o',
        "pop"@[2] == 'p',
        "drg"@.len() == 3,
        "drg"@[0] == 'd',
        "drg"@[1] == 'r',
        "drg"@[2] == 'g',
        "hlt"@.len() == 3,
        "hlt"@[0] == 'h',
        "hlt"@[1] == 'l',
        "hlt"@[2] == 't',
        "a"@.len() == 1,
        "a"@[0] == 'a',
        "b"@.len() == 1,
        "b"@[0] == 'b',
        "c"@.len() == 1,
        "c"@[0] == 'c',
        "e"@.len() == 1,
        "e"@[0] == 'e',
        "d"@.len() == 1,
        "d"@[0] == 'd',
        "f"@.len() == 1,
        "f"@[0] == 'f',
        "ip"@.len() == 2,
        "ip"@[0] == 'i',
        "ip"@[1] == 'p',
        "sp"@.len() == 2,
        "sp"@[0] == 's',
        "sp"@[1] == 'p',
        "st"@.len() == 2,
        "st"@[0] == 's',
        "st"@[1] == 't',
        "eq"@.len() == 2,
        "eq"@[0] == 'e',
        "eq"@[1] == 'q',
{
    reveal_strlit("dmp");
    reveal_strlit("gto");
    reveal_strlit("prt");
    reveal_strlit("tee");
    reveal_strlit("tne");
    reveal_strlit("tll");
    reveal_strlit("tmm");
    reveal_strlit("tel");
    reveal_strlit("tem");
    reveal_strlit("jmp");
    reveal_strlit("psh");
    reveal_strlit("mov");
    reveal_strlit("add");
    reveal_strlit("sub");
    reveal_strlit("mul");
    reveal_strlit("div");
    reveal_strlit("pop");
    reveal_strlit("drg");
    reveal_strlit("hlt");
    reveal_strlit("a");
    reveal_strlit("b");
    reveal_strlit("c");
    reveal_strlit("e");
    reveal_strlit("d");
    reveal_strlit("f");
    reveal_strlit("ip");
    reveal_strlit("sp");
    reveal_strlit("st");
    reveal_strlit("eq");
}

/// A token free of the separator that splits instruction lines.
pub open spec fn no_space(s: Seq<char>) -> bool {
    forall|i: int| 0 <= i < s.len() ==> s[i] != ' '
}

proof fn lemma_line_tokens1(m: Seq<char>, arg: Seq<char>)
    requires
        no_space(m),
        no_space(arg),
    ensures
        split_on(m + seq![' '] + arg, ' ') == seq![m, arg],
{
    crate::text::lemma_split_on_sep_prefix(m, ' ', arg);
    crate::text::lemma_split_on_no_sep(arg, ' ');
    assert(split_on(m + seq![' '] + arg, ' ') =~~= seq![m, arg]);
}

proof fn lemma_line_tokens2(m: Seq<char>, a: Seq<char>, b: Seq<char>)
    requires
        no_space(m),
        no_space(a),
        no_space(b),
    ensures
        split_on(m + seq![' '] + a + seq![' '] + b, ' ') == seq![m, a, b],
{
    let tail = a + seq![' '] + b;
    assert(m + seq![' '] + a + seq![' '] + b =~= m + seq![' '] + tail);
    crate::text::lemma_split_on_sep_prefix(m, ' ', tail);
    lemma_line_tokens1(a, b);
    assert(split_on(m + seq![' '] + a + seq![' '] + b, ' ') =~~= seq![m, a, b]);
}

proof fn lemma_digits_text_props(n: int)
    requires
        n >= 0,
    ensures
        digits_text(n).len() >= 1,
        all_digits(digits_text(n)),
        digits_val(digits_text(n)) == n,
        no_space(digits_text(n)),
    decreases n,
{
    if n < 10 {
        let d = digits_text(n);
        assert(d =~= seq![digit_char(n)]);
        assert(((48 + n) as u8) as char as u32 == 48 + n);
        assert(is_digit_char(digit_char(n)));
        assert(d.drop_last() =~= Seq::<char>::empty());
        assert(digits_val(Seq::<char>::empty()) == 0);
        assert(digit_val(digit_char(n)) == n);
        assert(digits_val(d) == n);
    } else {
        lemma_digits_text_props(n / 10);
        let d = digits_text(n);
        let p = digits_text(n / 10);
        assert(d == p.push(digit_char(n % 10)));
        assert(d.drop_last() =~= p);
        assert(((48 + (n % 10)) as u8) as char as u32 == 48 + (n % 10));
        assert(digit_val(d.last()) == n % 10);
        assert(digits_val(d) == n);
        assert forall|i: int| 0 <= i < d.len() implies is_digit_char(d[i]) by {
            if i < d.len() - 1 {
                assert(d[i] == p[i]);
            }
        }
        assert(no_space(d));
    }
}

proof fn lemma_int_text_literal(n: i32)
    ensures
        is_i32_literal(int_text(n as int)),
        i32_literal_val(int_text(n as int)) == n as int,
        no_space(int_text(n as int)),
        int_text(n as int).len() > 0,
        int_text(n as int)[0] != ' ',
{
    let t = int_text(n as int);
    if n < 0 {
        lemma_digits_text_props(-(n as int));
        let d = digits_text(-(n as int));
        assert(t == seq!['-'] + d);
        assert(t[0] == '-');
        assert(t.drop_first() =~= d);
        assert(crate::text::literal_negative(t));
        assert(literal_magnitude(t) == d);
        assert(i32_literal_val(t) == n as int);
        assert(no_space(t));
    } else {
        lemma_digits_text_props(n as int);
        assert(t == digits_text(n as int));
        assert(is_digit_char(t[0]));
        assert(t[0] != '+' && t[0] != '-');
        assert(literal_magnitude(t) == t);
        assert(i32_literal_val(t) == n as int);
    }
}

proof fn lemma_reg_text_parses(r: Register, allow_flag: bool)
    requires
        allow_flag || r != Register::Eq,
    ensures
        reg_of_tok(reg_text(r), allow_flag) == Some(r),
        no_space(reg_text(r)),
        reg_text(r).len() > 0,
{
    lemma_token_chars();
    reveal_strlit("a");
    reveal_strlit("b");
    reveal_strlit("c");
    reveal_strlit("e");
    reveal_strlit("d");
    reveal_strlit("f");
    reveal_strlit("ip");
    reveal_strlit("sp");
    reveal_strlit("st");
    reveal_strlit("eq");
}

/// Round trip: a rendered instruction assembles back to itself, whatever
/// the label table holds — numeric operands never consult it.  A rendered
/// `hlt` halts assembly, as the original line did.
#[verifier::rlimit(100)]
pub proof fn lemma_render_round_trip(i: Instruction, labels: Map<Seq<char>, i32>)
    requires
        well_formed(i),
    ensures
        line_action(instr_text(i), labels) == (if i == Instruction::Hlt {
            LineAction::Halt
        } else {
            LineAction::Emit(i)
        }),
{
    reveal_strlit("dmp");
    reveal_strlit("gto");
    reveal_strlit("prt");
    reveal_strlit("tee");
    reveal_strlit("tne");
    reveal_strlit("tll");
    reveal_strlit("tmm");
    reveal_strlit("tel");
    reveal_strlit("tem");
    reveal_strlit("jmp");
    reveal_strlit("psh");
    reveal_strlit("mov");
    reveal_strlit("add");
    reveal_strlit("sub");
    reveal_strlit("mul");
    reveal_strlit("div");
    reveal_strlit("pop");
    reveal_strlit("drg");
    reveal_strlit("hlt");
    lemma_token_chars();
    let text = instr_text(i);
    match i {
        Instruction::Dmp => {
            crate::text::lemma_split_on_no_sep("dmp"@, ' ');
        },
        Instruction::Pop => {
            crate::text::lemma_split_on_no_sep("pop"@, ' ');
        },
        Instruction::Hlt => {
            crate::text::lemma_split_on_no_sep("hlt"@, ' ');
        },
        Instruction::Gto(n) => {
            lemma_int_text_literal(n);
            lemma_line_tokens1("gto"@, int_text(n as int));
            assert(text[0] == 'g');
        },
        Instruction::Jmp(n) => {
            lemma_int_text_literal(n);
            lemma_line_tokens1("jmp"@, int_text(n as int));
            assert(text[0] == 'j');
        },
        Instruction::Psh(n) => {
            lemma_int_text_literal(n);
            lemma_line_tokens1("psh"@, int_text(n as int));
            assert(text[0] == 'p');
        },
        Instruction::Prt(r) => {
            lemma_reg_text_parses(r, false);
            lemma_line_tokens1("prt"@, reg_text(r));
            assert(text[0] == 'p');
        },
        Instruction::Drg(r) => {
            lemma_reg_text_parses(r, true);
            lemma_line_tokens1("drg"@, reg_text(r));
            assert(text[0] == 'd');
        },
        Instruction::Mov(a, b) => {
            lemma_reg_text_parses(a, false);
            lemma_reg_text_parses(b, false);
            lemma_line_tokens2("mov"@, reg_text(a), reg_text(b));
            assert(text[0] == 'm');
        },
        Instruction::Add(a, b) => {
            lemma_reg_text_parses(a, false);
            lemma_reg_text_parses(b, false);
            lemma_line_tokens2("add"@, reg_text(a), reg_text(b));
            assert(text[0] == 'a');
        },
        Instruction::Sub(a, b) => {
            lemma_reg_text_parses(a, false);
            lemma_reg_text_parses(b, false);
            lemma_line_tokens2("sub"@, reg_text(a), reg_text(b));
            assert(text[0] == 's');
        },
        Instruction::Mul(a, b) => {
            lemma_reg_text_parses(a, false);
            lemma_reg_text_parses(b, false);
            lemma_line_tokens2("mul"@, reg_text(a), reg_text(b));
            assert(text[0] == 'm');
        },
        Instruction::Div(a, b) => {
            lemma_reg_text_parses(a, false);
            lemma_reg_text_parses(b, false);
            lemma_line_tokens2("div"@, reg_text(a), reg_text(b));
            assert(text[0] == 'd');
        },
        Instruction::Tst(k, a, b) => {
            lemma_reg_text_parses(a, false);
            lemma_reg_text_parses(b, false);
            match k {
                CmpKind::Equal => {
                    lemma_line_tokens2("tee"@, reg_text(a), reg_text(b));
                },
                CmpKind::NotEqual => {
                    lemma_line_tokens2("tne"@, reg_text(a), reg_text(b));
                },
                CmpKind::Less => {
                    lemma_line_tokens2("tll"@, reg_text(a), reg_text(b));
                },
                CmpKind::Greater => {
                    lemma_line_tokens2("tmm"@, reg_text(a), reg_text(b));
                },
                CmpKind::LessOrEqual => {
                    lemma_line_tokens2("tel"@, reg_text(a), reg_text(b));
                },
                CmpKind::GreaterOrEqual => {
                    lemma_line_tokens2("tem"@, reg_text(a), reg_text(b));
                },
            }
            assert(text[0] == 't');
        },
    }
}

} // verus!

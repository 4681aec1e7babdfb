//! Character-level building blocks: separator splitting (lines and tokens)
//! and decimal integer literals.

use vstd::prelude::*;
use vstd::string::StrSliceExecFns;

verus! {

/// The pieces of `s` between occurrences of `sep`, in order, empty pieces
/// kept.  An empty input yields one empty piece, so the result always holds
/// at least one piece and exactly one piece more than `s` has separators.
pub open spec fn split_on(s: Seq<char>, sep: char) -> Seq<Seq<char>>
    decreases s.len(),
{
    if s.len() == 0 {
        seq![Seq::<char>::empty()]
    } else if s[0] == sep {
        seq![Seq::<char>::empty()] + split_on(s.drop_first(), sep)
    } else {
        let rest = split_on(s.drop_first(), sep);
        rest.update(0, seq![s[0]] + rest[0])
    }
}

pub proof fn lemma_split_on_len(s: Seq<char>, sep: char)
    ensures
        1 <= split_on(s, sep).len() <= s.len() + 1,
    decreases s.len(),
{
    if s.len() > 0 {
        lemma_split_on_len(s.drop_first(), sep);
    }
}

/// Appending a separator appends one empty piece.
pub proof fn lemma_split_on_push_sep(s: Seq<char>, sep: char)
    ensures
        split_on(s.push(sep), sep) == split_on(s, sep).push(Seq::<char>::empty()),
    decreases s.len(),
{
    let t = s.push(sep);
    if s.len() == 0 {
        assert(split_on(Seq::<char>::empty(), sep) =~~= seq![Seq::<char>::empty()]);
        assert(t.drop_first() =~= Seq::<char>::empty());
        assert(split_on(t, sep) =~~= split_on(s, sep).push(Seq::<char>::empty()));
    } else {
        assert(t.drop_first() =~= s.drop_first().push(sep));
        lemma_split_on_push_sep(s.drop_first(), sep);
        lemma_split_on_len(s.drop_first(), sep);
        assert(split_on(t, sep) =~~= split_on(s, sep).push(Seq::<char>::empty()));
    }
}

/// Appending an ordinary character extends the last piece.
pub proof fn lemma_split_on_push_char(s: Seq<char>, sep: char, c: char)
    requires
        c != sep,
    ensures
        split_on(s.push(c), sep) == split_on(s, sep).update(
            split_on(s, sep).len() - 1,
            split_on(s, sep).last().push(c),
        ),
    decreases s.len(),
{
    let t = s.push(c);
    let r = split_on(s, sep);
    if s.len() == 0 {
        assert(split_on(Seq::<char>::empty(), sep) =~~= seq![Seq::<char>::empty()]);
        assert(t.drop_first() =~= Seq::<char>::empty());
        assert(split_on(t, sep) =~~= r.update(r.len() - 1, r.last().push(c)));
    } else {
        assert(t.drop_first() =~= s.drop_first().push(c));
        lemma_split_on_push_char(s.drop_first(), sep, c);
        lemma_split_on_len(s.drop_first(), sep);
        assert(split_on(t, sep) =~~= r.update(r.len() - 1, r.last().push(c)));
    }
}

/// A separator-free input is one single piece.
pub proof fn lemma_split_on_no_sep(s: Seq<char>, sep: char)
    requires
        forall|i: int| 0 <= i < s.len() ==> s[i] != sep,
    ensures
        split_on(s, sep) == seq![s],
    decreases s.len(),
{
    if s.len() == 0 {
        assert(split_on(s, sep) =~~= seq![s]);
    } else {
        lemma_split_on_no_sep(s.drop_first(), sep);
        assert(split_on(s, sep) =~~= seq![s]);
    }
}

/// Splitting after a separator-free prefix: the prefix is the first piece
/// and the rest splits on its own.
pub proof fn lemma_split_on_sep_prefix(a: Seq<char>, sep: char, b: Seq<char>)
    requires
        forall|i: int| 0 <= i < a.len() ==> a[i] != sep,
    ensures
        split_on(a + seq![sep] + b, sep) == seq![a] + split_on(b, sep),
    decreases a.len(),
{
    let s = a + seq![sep] + b;
    if a.len() == 0 {
        assert(s[0] == sep);
        assert(s.drop_first() =~= b);
        assert(split_on(s, sep) =~~= seq![a] + split_on(b, sep));
    } else {
        assert(s[0] == a[0]);
        assert(s.drop_first() =~= a.drop_first() + seq![sep] + b);
        lemma_split_on_sep_prefix(a.drop_first(), sep, b);
        lemma_split_on_len(b, sep);
        assert(split_on(s, sep) =~~= seq![a] + split_on(b, sep));
    }
}

/// A piece list starts with a non-empty piece whenever the input starts with
/// an ordinary character, and that piece starts with the same character.
pub proof fn lemma_split_on_first(s: Seq<char>, sep: char)
    requires
        s.len() > 0,
        s[0] != sep,
    ensures
        split_on(s, sep)[0].len() > 0,
        split_on(s, sep)[0][0] == s[0],
{
    lemma_split_on_len(s.drop_first(), sep);
}

/// The views of a sequence of character vectors.
pub open spec fn views_of(vs: Seq<Vec<char>>) -> Seq<Seq<char>> {
    vs.map_values(|v: Vec<char>| v@)
}

/// Splits `s` at every occurrence of `sep`, keeping empty pieces, exactly as
/// `split_on` describes.
pub fn split_chars(s: &Vec<char>, sep: char) -> (r: Vec<Vec<char>>)
    ensures
        views_of(r@) == split_on(s@, sep),
        r@.len() >= 1,
{
    let mut out: Vec<Vec<char>> = Vec::new();
    let mut cur: Vec<char> = Vec::new();
    let mut i: usize = 0;
    while i < s.len()
        invariant
            0 <= i <= s@.len(),
            views_of(out@).push(cur@) =~~= split_on(s@.take(i as int), sep),
        decreases s@.len() - i,
    {
        let c = s[i];
        proof {
            assert(s@.take(i + 1 as int) =~= s@.take(i as int).push(s@[i as int]));
        }
        if c == sep {
            proof {
                lemma_split_on_push_sep(s@.take(i as int), sep);
            }
            out.push(cur);
            cur = Vec::new();
            proof {
                assert(views_of(out@).push(cur@) =~~= split_on(s@.take(i + 1 as int), sep));
            }
        } else {
            proof {
                lemma_split_on_push_char(s@.take(i as int), sep, c);
                lemma_split_on_len(s@.take(i as int), sep);
            }
            cur.push(c);
            proof {
                assert(views_of(out@).push(cur@) =~~= split_on(s@.take(i + 1 as int), sep));
            }
        }
        i = i + 1;
    }
    proof {
        assert(s@.take(s@.len() as int) =~= s@);
    }
    out.push(cur);
    proof {
        assert(views_of(out@) =~~= split_on(s@, sep));
    }
    out
}

/// Whether the characters of `t` are exactly the characters of `lit`.
pub fn tok_is(t: &Vec<char>, lit: &str) -> (r: bool)
    ensures
        r == (t@ == lit@),
{
    let n = lit.unicode_len();
    if t.len() != n {
        return false;
    }
    let mut i: usize = 0;
    while i < n
        invariant
            0 <= i <= n,
            n == lit@.len(),
            t@.len() == n,
            forall|j: int| 0 <= j < i ==> t@[j] == lit@[j],
        decreases n - i,
    {
        if t[i] != lit.get_char(i) {
            return false;
        }
        i = i + 1;
    }
    proof {
        assert(t@ =~= lit@);
    }
    true
}

/// Whether two character vectors hold the same characters.
pub fn chars_eq(a: &Vec<char>, b: &Vec<char>) -> (r: bool)
    ensures
        r == (a@ == b@),
{
    if a.len() != b.len() {
        return false;
    }
    let mut i: usize = 0;
    while i < a.len()
        invariant
            0 <= i <= a@.len(),
            a@.len() == b@.len(),
            forall|j: int| 0 <= j < i ==> a@[j] == b@[j],
        decreases a@.len() - i,
    {
        if a[i] != b[i] {
            return false;
        }
        i = i + 1;
    }
    proof {
        assert(a@ =~= b@);
    }
    true
}

/// The characters of `s`, as a vector.
pub fn str_to_chars(s: &str) -> (v: Vec<char>)
    ensures
        v@ == s@,
{
    let n = s.unicode_len();
    let mut v: Vec<char> = Vec::new();
    let mut i: usize = 0;
    while i < n
        invariant
            0 <= i <= n,
            n == s@.len(),
            v@ =~= s@.take(i as int),
        decreases n - i,
    {
        v.push(s.get_char(i));
        proof {
            assert(v@ =~= s@.take(i + 1 as int));
        }
        i = i + 1;
    }
    proof {
        assert(s@.take(n as int) =~= s@);
    }
    v
}

/// A copy of a character vector.
pub fn copy_chars(v: &Vec<char>) -> (r: Vec<char>)
    ensures
        r@ == v@,
{
    let mut r: Vec<char> = Vec::new();
    let mut i: usize = 0;
    while i < v.len()
        invariant
            0 <= i <= v@.len(),
            r@ =~= v@.take(i as int),
        decreases v@.len() - i,
    {
        r.push(v[i]);
        proof {
            assert(r@ =~= v@.take(i + 1 as int));
        }
        i = i + 1;
    }
    proof {
        assert(v@.take(v@.len() as int) =~= v@);
    }
    r
}

/// A decimal digit.
pub open spec fn is_digit_char(c: char) -> bool {
    48 <= c as u32 <= 57
}

/// The value of a decimal digit.
pub open spec fn digit_val(c: char) -> int {
    c as u32 - 48
}

pub open spec fn all_digits(s: Seq<char>) -> bool {
    forall|i: int| 0 <= i < s.len() ==> is_digit_char(s[i])
}

/// The value of a string of decimal digits, most significant first.
pub open spec fn digits_val(s: Seq<char>) -> int
    decreases s.len(),
{
    if s.len() == 0 {
        0
    } else {
        digits_val(s.drop_last()) * 10 + digit_val(s.last())
    }
}

/// The digit part of a signed decimal literal: everything after a single
/// leading `+` or `-`, or the whole string when no sign is written.
pub open spec fn literal_magnitude(s: Seq<char>) -> Seq<char> {
    if s.len() > 0 && (s[0] == '+' || s[0] == '-') {
        s.drop_first()
    } else {
        s
    }
}

pub open spec fn literal_negative(s: Seq<char>) -> bool {
    s.len() > 0 && s[0] == '-'
}

/// The mathematical value a decimal literal denotes.
pub open spec fn i32_literal_val(s: Seq<char>) -> int {
    if literal_negative(s) {
        -digits_val(literal_magnitude(s))
    } else {
        digits_val(literal_magnitude(s))
    }
}

/// A token that `i32` parsing accepts: an optional sign, then one or more
/// decimal digits, denoting a value within the `i32` range.
pub open spec fn is_i32_literal(s: Seq<char>) -> bool {
    &&& literal_magnitude(s).len() > 0
    &&& all_digits(literal_magnitude(s))
    &&& i32::MIN <= i32_literal_val(s) <= i32::MAX
}

/// Once the digits read so far denote more than `2^31`, reading further
/// digits can only grow the value.
proof fn lemma_digits_val_grows(s: Seq<char>, n: int)
    requires
        all_digits(s),
        0 <= n < s.len(),
        digits_val(s.take(n)) > 0x8000_0000,
    ensures
        digits_val(s.take(n + 1)) > 0x8000_0000,
{
    assert(s.take(n + 1).drop_last() =~= s.take(n));
    assert(s.take(n + 1).last() == s[n]);
    let v = digits_val(s.take(n));
    assert(digits_val(s.take(n + 1)) == v * 10 + digit_val(s[n]));
    assert(v * 10 == v * 9 + v);
    assert(v * 9 >= 0) by (nonlinear_arith)
        requires
            v > 0,
    ;
}

/// Parses `t` exactly as `str::parse::<i32>` would: an optional single sign
/// followed by at least one decimal digit, rejected when any other character
/// appears or the value falls outside the `i32` range.
pub fn parse_i32(t: &Vec<char>) -> (r: Option<i32>)
    ensures
        is_i32_literal(t@) ==> r == Some(i32_literal_val(t@) as i32),
        !is_i32_literal(t@) ==> r is None,
{
    let n = t.len();
    if n == 0 {
        return None;
    }
    let c0 = t[0];
    let neg = c0 == '-';
    let start: usize = if c0 == '-' || c0 == '+' {
        1
    } else {
        0
    };
    if n == start {
        // a bare sign has no digits
        return None;
    }
    let ghost mag = literal_magnitude(t@);
    proof {
        assert(mag =~= t@.subrange(start as int, n as int));
    }
    let mut acc: u64 = 0;
    let mut over = false;
    let mut i: usize = start;
    while i < n
        invariant
            start <= i <= n,
            n == t@.len(),
            mag == literal_magnitude(t@),
            mag =~= t@.subrange(start as int, n as int),
            mag.len() == n - start,
            forall|j: int| 0 <= j < i - start ==> is_digit_char(mag[j]),
            !over ==> acc == digits_val(mag.take(i - start)) && acc <= 0x8000_0000,
            over ==> digits_val(mag.take(i - start)) > 0x8000_0000,
        decreases n - i,
    {
        let c = t[i];
        let u = c as u32;
        proof {
            assert(mag[i - start] == t@[i as int]);
        }
        if u < 48 || u > 57 {
            // a non-digit anywhere after the sign rejects the literal
            proof {
                assert(!is_digit_char(mag[i - start]));
                assert(!all_digits(mag));
            }
            return None;
        }
        proof {
            assert(mag.take(i - start + 1).drop_last() =~= mag.take(i - start));
            assert(mag.take(i - start + 1).last() == mag[i - start]);
        }
        if !over {
            let d = (u - 48) as u64;
            acc = acc * 10 + d;
            proof {
                assert(acc == digits_val(mag.take(i - start + 1)));
            }
            if acc > 0x8000_0000 {
                over = true;
            }
        } else {
            proof {
                assert(all_digits(mag.take(i - start + 1))) by {
                    assert(forall|j: int|
                        0 <= j < i - start + 1 ==> is_digit_char(
                            #[trigger] mag.take(i - start + 1)[j],
                        ));
                }
                lemma_digits_val_grows(mag.take(i - start + 1), i - start);
                assert(mag.take(i - start + 1).take(i - start) =~= mag.take(i - start));
            }
        }
        i = i + 1;
    }
    proof {
        assert(mag.take(n - start) =~= mag);
        assert(all_digits(mag));
    }
    if over {
        // more than 2^31 in magnitude lies outside the range either way
        return None;
    }
    if neg {
        let v = -(acc as i64);
        proof {
            assert(i32_literal_val(t@) == -(acc as int));
            assert(i32::MIN <= v <= i32::MAX);
        }
        Some(v as i32)
    } else {
        if acc > 0x7fff_ffff {
            proof {
                assert(i32_literal_val(t@) == acc as int);
                assert(!is_i32_literal(t@));
            }
            return None;
        }
        proof {
            assert(i32_literal_val(t@) == acc as int);
        }
        Some(acc as i32)
    }
}

} // verus!

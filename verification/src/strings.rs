//! Small verified string utilities: equality, lexicographic order, decimal
//! rendering and newline joining, shared by the event, exit and listing logic.

use vstd::prelude::*;
use vstd::string::*;

verus! {

/// The character for a single decimal digit.
pub open spec fn digit_char(d: nat) -> char {
    if d == 0 {
        '0'
    } else if d == 1 {
        '1'
    } else if d == 2 {
        '2'
    } else if d == 3 {
        '3'
    } else if d == 4 {
        '4'
    } else if d == 5 {
        '5'
    } else if d == 6 {
        '6'
    } else if d == 7 {
        '7'
    } else if d == 8 {
        '8'
    } else {
        '9'
    }
}

/// The decimal rendering of a natural number, most significant digit first.
pub open spec fn dec_chars(n: nat) -> Seq<char>
    decreases n,
{
    if n < 10 {
        seq![digit_char(n)]
    } else {
        dec_chars(n / 10).push(digit_char(n % 10))
    }
}

/// Decimal rendering padded with leading zeros to at least two characters.
pub open spec fn pad2_chars(n: nat) -> Seq<char> {
    if n < 10 {
        seq!['0'] + dec_chars(n)
    } else {
        dec_chars(n)
    }
}

/// Decimal rendering padded with leading zeros to at least four characters.
pub open spec fn pad4_chars(n: nat) -> Seq<char> {
    if n < 10 {
        seq!['0', '0', '0'] + dec_chars(n)
    } else if n < 100 {
        seq!['0', '0'] + dec_chars(n)
    } else if n < 1000 {
        seq!['0'] + dec_chars(n)
    } else {
        dec_chars(n)
    }
}

/// Lexicographic order on character sequences, by code point; a prefix sorts
/// before every extension of it.
pub open spec fn lex_le(a: Seq<char>, b: Seq<char>) -> bool
    decreases a.len(),
{
    if a.len() == 0 {
        true
    } else if b.len() == 0 {
        false
    } else if (a[0] as int) < (b[0] as int) {
        true
    } else if (a[0] as int) > (b[0] as int) {
        false
    } else {
        lex_le(a.skip(1), b.skip(1))
    }
}

/// All lines joined with a single newline between consecutive lines.
pub open spec fn join_nl(lines: Seq<String>) -> Seq<char>
    decreases lines.len(),
{
    if lines.len() == 0 {
        Seq::<char>::empty()
    } else if lines.len() == 1 {
        lines[0]@
    } else {
        lines[0]@ + seq!['\n'] + join_nl(lines.skip(1))
    }
}

proof fn lemma_dec_chars_len(n: nat)
    ensures
        n < 10 ==> dec_chars(n).len() == 1,
        10 <= n < 100 ==> dec_chars(n).len() == 2,
        100 <= n < 1000 ==> dec_chars(n).len() == 3,
        1000 <= n < 10000 ==> dec_chars(n).len() == 4,
    decreases n,
{
    if n >= 10 {
        lemma_dec_chars_len(n / 10);
    }
}

/// A two-padded rendering of a number under one hundred is two characters.
pub proof fn lemma_pad2_len(n: nat)
    requires
        n < 100,
    ensures
        pad2_chars(n).len() == 2,
{
    lemma_dec_chars_len(n);
}

/// A four-padded rendering of a number under ten thousand is four characters.
pub proof fn lemma_pad4_len(n: nat)
    requires
        n < 10000,
    ensures
        pad4_chars(n).len() == 4,
{
    lemma_dec_chars_len(n);
}

/// Joins a base path and one component with a single separator.
pub fn join_path(base: &str, name: &str) -> (r: String)
    ensures
        r@ == base@ + seq!['/'] + name@,
{
    let mut out = String::from_str(base);
    proof {
        reveal_strlit("/");
        assert("/"@ =~= seq!['/']);
    }
    out.append("/");
    out.append(name);
    assert(out@ =~= base@ + seq!['/'] + name@);
    out
}

fn push_digit(out: &mut String, d: u32)
    requires
        d < 10,
    ensures
        final(out)@ == old(out)@ + seq![digit_char(d as nat)],
{
    if d == 0 {
        proof {
            reveal_strlit("0");
        }
        out.append("0");
        assert(final(out)@ =~= old(out)@ + seq![digit_char(d as nat)]);
    } else if d == 1 {
        proof {
            reveal_strlit("1");
        }
        out.append("1");
        assert(final(out)@ =~= old(out)@ + seq![digit_char(d as nat)]);
    } else if d == 2 {
        proof {
            reveal_strlit("2");
        }
        out.append("2");
        assert(final(out)@ =~= old(out)@ + seq![digit_char(d as nat)]);
    } else if d == 3 {
        proof {
            reveal_strlit("3");
        }
        out.append("3");
        assert(final(out)@ =~= old(out)@ + seq![digit_char(d as nat)]);
    } else if d == 4 {
        proof {
            reveal_strlit("4");
        }
        out.append("4");
        assert(final(out)@ =~= old(out)@ + seq![digit_char(d as nat)]);
    } else if d == 5 {
        proof {
            reveal_strlit("5");
        }
        out.append("5");
        assert(final(out)@ =~= old(out)@ + seq![digit_char(d as nat)]);
    } else if d == 6 {
        proof {
            reveal_strlit("6");
        }
        out.append("6");
        assert(final(out)@ =~= old(out)@ + seq![digit_char(d as nat)]);
    } else if d == 7 {
        proof {
            reveal_strlit("7");
        }
        out.append("7");
        assert(final(out)@ =~= old(out)@ + seq![digit_char(d as nat)]);
    } else if d == 8 {
        proof {
            reveal_strlit("8");
        }
        out.append("8");
        assert(final(out)@ =~= old(out)@ + seq![digit_char(d as nat)]);
    } else {
        proof {
            reveal_strlit("9");
        }
        out.append("9");
        assert(final(out)@ =~= old(out)@ + seq![digit_char(d as nat)]);
    }
}

/// Appends the decimal rendering of `n` to `out`.
pub fn push_dec_u32(out: &mut String, n: u32)
    ensures
        final(out)@ == old(out)@ + dec_chars(n as nat),
    decreases n,
{
    if n < 10 {
        push_digit(out, n);
    } else {
        push_dec_u32(out, n / 10);
        push_digit(out, n % 10);
        assert(final(out)@ =~= old(out)@ + dec_chars(n as nat));
    }
}

/// Appends the decimal rendering of `n` padded to at least two digits.
pub fn push_pad2(out: &mut String, n: u32)
    ensures
        final(out)@ == old(out)@ + pad2_chars(n as nat),
{
    if n < 10 {
        push_digit(out, 0);
        push_digit(out, n);
        assert(final(out)@ =~= old(out)@ + pad2_chars(n as nat));
    } else {
        push_dec_u32(out, n);
    }
}

/// Appends the decimal rendering of `n` padded to at least four digits.
pub fn push_pad4(out: &mut String, n: u32)
    ensures
        final(out)@ == old(out)@ + pad4_chars(n as nat),
{
    if n < 10 {
        push_digit(out, 0);
        push_digit(out, 0);
        push_digit(out, 0);
        push_digit(out, n);
        assert(final(out)@ =~= old(out)@ + pad4_chars(n as nat));
    } else if n < 100 {
        push_digit(out, 0);
        push_digit(out, 0);
        push_dec_u32(out, n);
        assert(final(out)@ =~= old(out)@ + pad4_chars(n as nat));
    } else if n < 1000 {
        push_digit(out, 0);
        push_dec_u32(out, n);
        assert(final(out)@ =~= old(out)@ + pad4_chars(n as nat));
    } else {
        push_dec_u32(out, n);
    }
}

/// The decimal rendering of `n` as a fresh string.
pub fn dec_u32_string(n: u32) -> (r: String)
    ensures
        r@ == dec_chars(n as nat),
{
    let mut out = String::new();
    push_dec_u32(&mut out, n);
    assert(out@ =~= dec_chars(n as nat));
    out
}

/// Character-for-character equality of two string slices.
pub fn str_eq(a: &str, b: &str) -> (r: bool)
    ensures
        r == (a@ == b@),
{
    let an: usize = a.unicode_len();
    let bn: usize = b.unicode_len();
    if an != bn {
        assert(a@ != b@) by {
            if a@ == b@ {
                assert(a@.len() == b@.len());
            }
        }
        return false;
    }
    let mut i: usize = 0;
    while i < an
        invariant
            i <= an,
            an == a@.len(),
            an == b@.len(),
            forall|j: int| 0 <= j < i ==> a@[j] == b@[j],
        decreases an - i,
    {
        let ca = a.get_char(i);
        let cb = b.get_char(i);
        if ca != cb {
            assert(a@ != b@) by {
                if a@ == b@ {
                    assert(a@[i as int] == b@[i as int]);
                }
            }
            return false;
        }
        i += 1;
    }
    proof {
        assert(a@ =~= b@);
    }
    true
}

proof fn lemma_lex_skip(a: Seq<char>, b: Seq<char>, i: int)
    requires
        0 <= i <= a.len(),
        i <= b.len(),
        forall|j: int| 0 <= j < i ==> a[j] == b[j],
    ensures
        lex_le(a, b) == lex_le(a.skip(i), b.skip(i)),
    decreases i,
{
    if i > 0 {
        assert(a.len() > 0 && b.len() > 0);
        assert(a[0] == b[0]);
        lemma_lex_skip(a.skip(1), b.skip(1), i - 1);
        assert(a.skip(1).skip(i - 1) =~= a.skip(i));
        assert(b.skip(1).skip(i - 1) =~= b.skip(i));
    } else {
        assert(a.skip(0) =~= a);
        assert(b.skip(0) =~= b);
    }
}

/// Whether `a` sorts at or before `b` in lexicographic order.
pub fn str_lex_le(a: &str, b: &str) -> (r: bool)
    ensures
        r == lex_le(a@, b@),
{
    let an: usize = a.unicode_len();
    let bn: usize = b.unicode_len();
    let mut i: usize = 0;
    loop
        invariant
            i <= an,
            i <= bn,
            an == a@.len(),
            bn == b@.len(),
            forall|j: int| 0 <= j < i ==> a@[j] == b@[j],
        decreases an - i,
    {
        proof {
            lemma_lex_skip(a@, b@, i as int);
        }
        if i >= an {
            return true;
        }
        if i >= bn {
            return false;
        }
        let ca = a.get_char(i);
        let cb = b.get_char(i);
        assert(a@.skip(i as int)[0] == a@[i as int]);
        assert(b@.skip(i as int)[0] == b@[i as int]);
        if (ca as u32) < (cb as u32) {
            return true;
        }
        if (ca as u32) > (cb as u32) {
            return false;
        }
        i += 1;
    }
}

proof fn lemma_digit_char_monotone(a: nat, b: nat)
    requires
        a < b < 10,
    ensures
        (digit_char(a) as int) < (digit_char(b) as int),
{
}

/// Two-padded renderings of numbers under one hundred compare like the
/// numbers themselves.
pub proof fn lemma_pad2_monotone(a: nat, b: nat)
    requires
        a < b < 100,
    ensures
        lex_le(pad2_chars(a), pad2_chars(b)),
        pad2_chars(a) != pad2_chars(b),
{
    lemma_pad2_len(a);
    lemma_pad2_len(b);
    let x = pad2_chars(a);
    let y = pad2_chars(b);
    assert(x[0] == digit_char(a / 10) && x[1] == digit_char(a % 10)) by {
        if a < 10 {
            assert(x =~= seq!['0'] + dec_chars(a));
        } else {
            assert(dec_chars(a) == dec_chars(a / 10).push(digit_char(a % 10)));
        }
    }
    assert(y[0] == digit_char(b / 10) && y[1] == digit_char(b % 10)) by {
        if b < 10 {
            assert(y =~= seq!['0'] + dec_chars(b));
        } else {
            assert(dec_chars(b) == dec_chars(b / 10).push(digit_char(b % 10)));
        }
    }
    if a / 10 < b / 10 {
        lemma_digit_char_monotone(a / 10, b / 10);
    } else {
        assert(a / 10 == b / 10);
        assert(a % 10 < b % 10);
        lemma_digit_char_monotone(a % 10, b % 10);
        assert(x.skip(1)[0] == x[1] && y.skip(1)[0] == y[1]);
        assert(x.skip(1).skip(1) =~= Seq::<char>::empty());
        assert(lex_le(x.skip(1), y.skip(1)));
        assert(x[1] != y[1]);
        assert(x != y) by {
            if x == y {
                assert(x[1] == y[1]);
            }
        }
    }
}

/// Four-padded renderings of numbers under ten thousand compare like the
/// numbers themselves.
pub proof fn lemma_pad4_monotone(a: nat, b: nat)
    requires
        a < b < 10000,
    ensures
        lex_le(pad4_chars(a), pad4_chars(b)),
        pad4_chars(a) != pad4_chars(b),
{
    lemma_pad4_len(a);
    lemma_pad4_len(b);
    let x = pad4_chars(a);
    let y = pad4_chars(b);
    assert(x =~= pad2_chars(a / 100) + pad2_chars(a % 100)) by {
        lemma_pad4_split(a);
    }
    assert(y =~= pad2_chars(b / 100) + pad2_chars(b % 100)) by {
        lemma_pad4_split(b);
    }
    lemma_pad2_len(a / 100);
    lemma_pad2_len(b / 100);
    if a / 100 < b / 100 {
        lemma_pad2_monotone(a / 100, b / 100);
        lemma_lex_concat(pad2_chars(a / 100), pad2_chars(a % 100), pad2_chars(b / 100), pad2_chars(b % 100));
        assert(x != y) by {
            if x == y {
                assert(x.take(2) =~= pad2_chars(a / 100));
                assert(y.take(2) =~= pad2_chars(b / 100));
            }
        }
    } else {
        assert(a / 100 == b / 100);
        assert(a % 100 < b % 100);
        lemma_pad2_monotone(a % 100, b % 100);
        lemma_lex_concat(pad2_chars(a / 100), pad2_chars(a % 100), pad2_chars(b / 100), pad2_chars(b % 100));
        assert(x != y) by {
            assert(x.skip(2) =~= pad2_chars(a % 100));
            assert(y.skip(2) =~= pad2_chars(b % 100));
        }
    }
}

proof fn lemma_pad4_split(n: nat)
    requires
        n < 10000,
    ensures
        pad4_chars(n) =~= pad2_chars(n / 100) + pad2_chars(n % 100),
{
    if n < 100 {
        assert(n / 100 == 0 && n % 100 == n);
        assert(pad2_chars(0) =~= seq!['0', '0']);
        if n < 10 {
            assert(pad4_chars(n) =~= seq!['0', '0', '0'] + dec_chars(n));
            assert(pad2_chars(0) + pad2_chars(n) =~= seq!['0', '0', '0'] + dec_chars(n));
        }
    } else if n < 1000 {
        assert(dec_chars(n) == dec_chars(n / 10).push(digit_char(n % 10)));
        assert(dec_chars(n / 10) == dec_chars(n / 10 / 10).push(digit_char(n / 10 % 10)));
        assert(n / 10 / 10 == n / 100) by (nonlinear_arith);
        assert(n / 10 % 10 == n % 100 / 10) by (nonlinear_arith);
        assert(n % 10 == n % 100 % 10) by (nonlinear_arith);
        assert(10 <= n / 10 < 100);
        assert(1 <= n / 100 < 10);
        assert(10 <= n % 100 || n % 100 < 10);
        if n % 100 < 10 {
            assert(pad2_chars(n % 100) =~= seq!['0'] + dec_chars(n % 100));
            assert(n % 100 / 10 == 0);
        } else {
            assert(dec_chars(n % 100) == dec_chars(n % 100 / 10).push(digit_char(n % 100 % 10)));
        }
    } else {
        assert(dec_chars(n) == dec_chars(n / 10).push(digit_char(n % 10)));
        assert(dec_chars(n / 10) == dec_chars(n / 10 / 10).push(digit_char(n / 10 % 10)));
        assert(n / 10 / 10 == n / 100) by (nonlinear_arith);
        assert(n / 10 % 10 == n % 100 / 10) by (nonlinear_arith);
        assert(n % 10 == n % 100 % 10) by (nonlinear_arith);
        assert(100 <= n / 10);
        assert(10 <= n / 100 < 100);
        if n % 100 < 10 {
            assert(pad2_chars(n % 100) =~= seq!['0'] + dec_chars(n % 100));
            assert(n % 100 / 10 == 0);
        } else {
            assert(dec_chars(n % 100) == dec_chars(n % 100 / 10).push(digit_char(n % 100 % 10)));
        }
    }
}

/// Appending to both sides keeps the order decided by equal-length prefixes,
/// and equal prefixes reduce the comparison to what follows them.
pub proof fn lemma_lex_concat(a: Seq<char>, b: Seq<char>, c: Seq<char>, d: Seq<char>)
    requires
        a.len() == c.len(),
    ensures
        a == c ==> lex_le(a + b, c + d) == lex_le(b, d),
        a != c && lex_le(a, c) ==> lex_le(a + b, c + d),
    decreases a.len(),
{
    if a.len() == 0 {
        assert(a =~= c);
        assert(a + b =~= b);
        assert(c + d =~= d);
    } else {
        lemma_lex_concat(a.skip(1), b, c.skip(1), d);
        assert((a + b)[0] == a[0] && (c + d)[0] == c[0]);
        assert((a + b).skip(1) =~= a.skip(1) + b);
        assert((c + d).skip(1) =~= c.skip(1) + d);
        if a == c {
            assert(a[0] == c[0] && a.skip(1) =~= c.skip(1));
        } else if lex_le(a, c) {
            if a[0] == c[0] {
                assert(a.skip(1) != c.skip(1)) by {
                    if a.skip(1) == c.skip(1) {
                        assert forall|i: int| 0 <= i < a.len() implies a[i] == c[i] by {
                            if i > 0 {
                                assert(a.skip(1)[i - 1] == c.skip(1)[i - 1]);
                            }
                        }
                        assert(a =~= c);
                    }
                }
            }
        }
    }
}

/// Lexicographic order is reflexive.
pub proof fn lemma_lex_refl(a: Seq<char>)
    ensures
        lex_le(a, a),
    decreases a.len(),
{
    if a.len() > 0 {
        lemma_lex_refl(a.skip(1));
    }
}

/// Lexicographic order is total.
pub proof fn lemma_lex_total(a: Seq<char>, b: Seq<char>)
    ensures
        lex_le(a, b) || lex_le(b, a),
    decreases a.len(),
{
    if a.len() > 0 && b.len() > 0 && a[0] == b[0] {
        lemma_lex_total(a.skip(1), b.skip(1));
    }
}

/// Lexicographic order is transitive.
pub proof fn lemma_lex_trans(a: Seq<char>, b: Seq<char>, c: Seq<char>)
    requires
        lex_le(a, b),
        lex_le(b, c),
    ensures
        lex_le(a, c),
    decreases a.len(),
{
    if a.len() > 0 && b.len() > 0 && c.len() > 0 {
        if a[0] == b[0] && b[0] == c[0] {
            lemma_lex_trans(a.skip(1), b.skip(1), c.skip(1));
        }
    }
}

proof fn lemma_join_nl_push(lines: Seq<String>, x: String)
    ensures
        join_nl(lines.push(x)) == if lines.len() == 0 {
            x@
        } else {
            join_nl(lines) + seq!['\n'] + x@
        },
    decreases lines.len(),
{
    let pushed = lines.push(x);
    if lines.len() == 0 {
        assert(pushed.len() == 1);
        assert(join_nl(pushed) == pushed[0]@);
    } else {
        lemma_join_nl_push(lines.skip(1), x);
        assert(pushed.skip(1) =~= lines.skip(1).push(x));
        if lines.len() == 1 {
            assert(join_nl(pushed) =~= join_nl(lines) + seq!['\n'] + x@);
        } else {
            assert(join_nl(pushed) =~= join_nl(lines) + seq!['\n'] + x@);
        }
    }
}

/// Joins the lines with a newline between consecutive lines.
pub fn join_lines(lines: &Vec<String>) -> (r: String)
    ensures
        r@ == join_nl(lines@),
{
    let mut out = String::new();
    let mut i: usize = 0;
    while i < lines.len()
        invariant
            i <= lines@.len(),
            out@ == join_nl(lines@.take(i as int)),
        decreases lines@.len() - i,
    {
        if i > 0 {
            proof {
                reveal_strlit("\n");
            }
            out.append("\n");
            assert(out@ =~= join_nl(lines@.take(i as int)) + seq!['\n']);
        }
        out.append(lines[i].as_str());
        proof {
            lemma_join_nl_push(lines@.take(i as int), lines@[i as int]);
            assert(lines@.take(i as int).push(lines@[i as int]) =~= lines@.take(i + 1));
        }
        i += 1;
    }
    proof {
        assert(lines@.take(lines@.len() as int) =~= lines@);
    }
    out
}

} // verus!

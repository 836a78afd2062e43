//! Rendering of unsigned integers as text: digits in a radix, zero padding
//! on the left and space padding on the right.
use vstd::prelude::*;
use vstd::string::*;

verus! {

/// The lower-case digit character for `d < 16`.
pub open spec fn digit_char(d: nat) -> char {
    if d == 0 { '0' }
    else if d == 1 { '1' }
    else if d == 2 { '2' }
    else if d == 3 { '3' }
    else if d == 4 { '4' }
    else if d == 5 { '5' }
    else if d == 6 { '6' }
    else if d == 7 { '7' }
    else if d == 8 { '8' }
    else if d == 9 { '9' }
    else if d == 10 { 'a' }
    else if d == 11 { 'b' }
    else if d == 12 { 'c' }
    else if d == 13 { 'd' }
    else if d == 14 { 'e' }
    else { 'f' }
}

/// The digits of `n` in radix `base`, most significant first, without
/// leading zeros (zero is "0").
pub open spec fn digits(n: nat, base: nat) -> Seq<char>
    decreases n via digits_decreases
{
    if base < 2 || n < base {
        seq![digit_char(n)]
    } else {
        digits(n / base, base).push(digit_char(n % base))
    }
}

#[via_fn]
proof fn digits_decreases(n: nat, base: nat) {
    if !(base < 2 || n < base) {
        lemma_div_smaller(n, base);
    }
}

/// `count` copies of `c`.
pub open spec fn repeat(c: char, count: nat) -> Seq<char> {
    Seq::new(count, |i: int| c)
}

/// `s` with `c` prepended until it is at least `width` long.
pub open spec fn pad_left(s: Seq<char>, width: nat, c: char) -> Seq<char> {
    if s.len() < width { repeat(c, (width - s.len()) as nat) + s } else { s }
}

/// `s` with spaces appended until it is at least `width` long.
pub open spec fn pad_right(s: Seq<char>, width: nat) -> Seq<char> {
    if s.len() < width { s + repeat(' ', (width - s.len()) as nat) } else { s }
}

/// `n` in radix `base`, zero padded to at least `width` digits.
pub open spec fn zero_padded(n: nat, base: nat, width: nat) -> Seq<char> {
    pad_left(digits(n, base), width, '0')
}

proof fn lemma_div_smaller(n: nat, base: nat)
    requires
        n >= base >= 2,
    ensures
        1 <= n / base < n,
{
    assert(1 <= n / base < n) by (nonlinear_arith)
        requires
            n >= base >= 2,
    ;
}

/// The digit `d` as a one-character string.
fn digit_str(d: u64) -> (r: &'static str)
    requires
        d < 16,
    ensures
        r@ == seq![digit_char(d as nat)],
{
    proof {
        reveal_strlit("0");
        reveal_strlit("1");
        reveal_strlit("2");
        reveal_strlit("3");
        reveal_strlit("4");
        reveal_strlit("5");
        reveal_strlit("6");
        reveal_strlit("7");
        reveal_strlit("8");
        reveal_strlit("9");
        reveal_strlit("a");
        reveal_strlit("b");
        reveal_strlit("c");
        reveal_strlit("d");
        reveal_strlit("e");
        reveal_strlit("f");
    }
    let r = match d {
        0 => "0",
        1 => "1",
        2 => "2",
        3 => "3",
        4 => "4",
        5 => "5",
        6 => "6",
        7 => "7",
        8 => "8",
        9 => "9",
        10 => "a",
        11 => "b",
        12 => "c",
        13 => "d",
        14 => "e",
        _ => "f",
    };
    assert(r@ =~= seq![digit_char(d as nat)]);
    r
}

/// Appends the digits of `n` in radix `base`.
pub fn push_digits(out: &mut String, n: u64, base: u64)
    requires
        2 <= base <= 16,
    ensures
        final(out)@ == old(out)@ + digits(n as nat, base as nat),
    decreases n,
{
    if n >= base {
        proof {
            lemma_div_smaller(n as nat, base as nat);
        }
        push_digits(out, n / base, base);
    } else {
        proof {
            vstd::arithmetic::div_mod::lemma_small_mod(n as nat, base as nat);
        }
    }
    out.append(digit_str(n % base));
    assert(digits(n as nat, base as nat) == if n < base {
        seq![digit_char(n as nat)]
    } else {
        digits((n / base) as nat, base as nat).push(digit_char((n % base) as nat))
    });
    assert(out@ =~= old(out)@ + digits(n as nat, base as nat));
}

/// The number of digits of `n` in radix `base`.
pub fn digit_count(n: u64, base: u64) -> (r: u64)
    requires
        2 <= base <= 16,
    ensures
        r == digits(n as nat, base as nat).len(),
        r <= n || r == 1,
    decreases n,
{
    if n >= base {
        proof {
            lemma_div_smaller(n as nat, base as nat);
        }
        let k = digit_count(n / base, base);
        k + 1
    } else {
        1
    }
}

/// Appends `count` copies of the one-character string `c`.
pub fn push_repeat(out: &mut String, c: &str, count: u64)
    requires
        c@.len() == 1,
    ensures
        final(out)@ == old(out)@ + repeat(c@[0], count as nat),
{
    let mut i: u64 = 0;
    while i < count
        invariant
            i <= count,
            c@.len() == 1,
            out@ == old(out)@ + repeat(c@[0], i as nat),
        decreases count - i,
    {
        out.append(c);
        i = i + 1;
        assert(out@ =~= old(out)@ + repeat(c@[0], i as nat));
    }
}

/// Appends `n` in radix `base`, zero padded to at least `width` digits.
pub fn push_zero_padded(out: &mut String, n: u64, base: u64, width: u64)
    requires
        2 <= base <= 16,
    ensures
        final(out)@ == old(out)@ + zero_padded(n as nat, base as nat, width as nat),
{
    let count = digit_count(n, base);
    if count < width {
        proof {
            reveal_strlit("0");
        }
        push_repeat(out, "0", width - count);
    }
    push_digits(out, n, base);
    assert(out@ =~= old(out)@ + zero_padded(n as nat, base as nat, width as nat));
}

/// Appends `s`, space padded on the right to at least `width`.
pub fn push_str_left(out: &mut String, s: &str, width: u64)
    ensures
        final(out)@ == old(out)@ + pad_right(s@, width as nat),
{
    out.append(s);
    let count = s.unicode_len() as u64;
    if count < width {
        proof {
            reveal_strlit(" ");
        }
        push_repeat(out, " ", width - count);
    }
    assert(out@ =~= old(out)@ + pad_right(s@, width as nat));
}

/// One labelled line of a header listing:
/// `indent`, the label padded to `lw`, `": "`, the value padded to `vw`, a
/// space, `tail`, and a newline.
pub open spec fn field_line(
    indent: Seq<char>,
    label: Seq<char>,
    lw: nat,
    value: Seq<char>,
    vw: nat,
    tail: Seq<char>,
) -> Seq<char> {
    indent + pad_right(label, lw) + ": "@ + pad_right(value, vw) + " "@ + tail + "\n"@
}

/// `n` in radix `base` as a string.
pub fn radix_string(n: u64, base: u64) -> (r: String)
    requires
        2 <= base <= 16,
    ensures
        r@ == digits(n as nat, base as nat),
{
    let mut s = String::new();
    push_digits(&mut s, n, base);
    s
}

/// `n` in radix `base`, zero padded to `width`, as a string.
pub fn padded_string(n: u64, base: u64, width: u64) -> (r: String)
    requires
        2 <= base <= 16,
    ensures
        r@ == zero_padded(n as nat, base as nat, width as nat),
{
    let mut s = String::new();
    push_zero_padded(&mut s, n, base, width);
    s
}

/// Appends one labelled line of a header listing.
pub fn push_field_line(
    out: &mut String,
    indent: &str,
    label: &str,
    lw: u64,
    value: &str,
    vw: u64,
    tail: &str,
)
    ensures
        final(out)@ == old(out)@ + field_line(indent@, label@, lw as nat, value@, vw as nat, tail@),
{
    proof {
        reveal_strlit(": ");
        reveal_strlit(" ");
        reveal_strlit("\n");
    }
    out.append(indent);
    push_str_left(out, label, lw);
    out.append(": ");
    push_str_left(out, value, vw);
    out.append(" ");
    out.append(tail);
    out.append("\n");
    assert(out@ =~= old(out)@ + field_line(indent@, label@, lw as nat, value@, vw as nat, tail@));
}

} // verus!

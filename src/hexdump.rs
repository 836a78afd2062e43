//! A hex dump in the style of `od`: sixteen bytes per line, as hex and as
//! printable characters.
use vstd::prelude::*;
use vstd::string::*;

use crate::text::{push_zero_padded, zero_padded};

verus! {

/// Relies on `String::push`: appends one character.
#[verifier::external_body]
fn push_char(s: &mut String, c: char)
    ensures
        final(s)@ == old(s)@.push(c),
{
    s.push(c)
}

/// The character shown for a byte: itself when printable ASCII or a space,
/// else a dot.
pub open spec fn shown_char(b: u8) -> char {
    if 0x20 <= b <= 0x7e { b as char } else { '.' }
}

/// Column `j` of the hex part: two hex digits and a space, or three spaces
/// past the end of the chunk; one more space after the eighth column.
pub open spec fn hex_cell(chunk: Seq<u8>, j: int) -> Seq<char> {
    (if j < chunk.len() { zero_padded(chunk[j] as nat, 16, 2) + " "@ } else { "   "@ }) + if j
        == 7 {
        " "@
    } else {
        Seq::empty()
    }
}

/// The first `n` columns of the hex part.
pub open spec fn hex_cells(chunk: Seq<u8>, n: nat) -> Seq<char>
    decreases n,
{
    if n == 0 { Seq::empty() } else { hex_cells(chunk, (n - 1) as nat) + hex_cell(chunk, n - 1) }
}

/// The printable part of a chunk.
pub open spec fn shown(chunk: Seq<u8>) -> Seq<char> {
    chunk.map_values(|b: u8| shown_char(b))
}

/// The `k`-th sixteen bytes of `data`.
pub open spec fn chunk(data: Seq<u8>, k: int) -> Seq<u8> {
    data.subrange(16 * k, if 16 * k + 16 <= data.len() { 16 * k + 16 } else { data.len() as int })
}

/// Line `k` of the dump of `data`.
pub open spec fn hex_line(data: Seq<u8>, k: int) -> Seq<char> {
    zero_padded((16 * k) as nat, 16, 8) + "  "@ + hex_cells(chunk(data, k), 16) + " |"@ + shown(
        chunk(data, k),
    ) + "|"@
}

/// The number of lines of the dump of `len` bytes.
pub open spec fn line_count(len: nat) -> nat {
    (len + 15) / 16
}

fn hex_line_of(data: &[u8], k: usize) -> (r: String)
    requires
        16 * k < data.len(),
    ensures
        r@ == hex_line(data@, k as int),
{
    proof {
        reveal_strlit("  ");
        reveal_strlit(" ");
        reveal_strlit("   ");
        reveal_strlit(" |");
        reveal_strlit("|");
    }
    let start = 16 * k;
    let end = if data.len() - start >= 16 {
        start + 16
    } else {
        data.len()
    };
    let c = vstd::slice::slice_subrange(data, start, end);
    assert(c@ == chunk(data@, k as int));
    let mut line = String::new();
    push_zero_padded(&mut line, start as u64, 16, 8);
    line.append("  ");
    let ghost head = line@;
    let mut j: usize = 0;
    while j < 16
        invariant
            j <= 16,
            c@ == chunk(data@, k as int),
            line@ == head + hex_cells(c@, j as nat),
        decreases 16 - j,
    {
        if j < c.len() {
            push_zero_padded(&mut line, c[j] as u64, 16, 2);
            line.append(" ");
        } else {
            line.append("   ");
        }
        if j == 7 {
            line.append(" ");
        }
        assert(line@ =~= head + hex_cells(c@, (j + 1) as nat));
        j = j + 1;
    }
    line.append(" |");
    let ghost mid = line@;
    let mut i: usize = 0;
    while i < c.len()
        invariant
            i <= c@.len(),
            line@ == mid + shown(c@.take(i as int)),
        decreases c@.len() - i,
    {
        let b = c[i];
        let ch = if 0x20 <= b && b <= 0x7e {
            b as char
        } else {
            '.'
        };
        push_char(&mut line, ch);
        assert(shown(c@.take(i + 1)) =~= shown(c@.take(i as int)).push(shown_char(b)));
        i = i + 1;
    }
    assert(c@.take(i as int) =~= c@);
    line.append("|");
    assert(line@ =~= hex_line(data@, k as int));
    line
}

/// The lines of the dump of `data`.
pub fn hex_dump_lines(data: &[u8]) -> (r: Vec<String>)
    ensures
        r@.len() == line_count(data@.len()),
        forall|k: int| 0 <= k < r@.len() ==> (#[trigger] r@[k])@ == hex_line(data@, k),
{
    let mut lines: Vec<String> = Vec::new();
    let mut k: usize = 0;
    while k < data.len() / 16 || (k == data.len() / 16 && data.len() % 16 != 0)
        invariant
            k <= line_count(data@.len()),
            lines@.len() == k,
            forall|m: int| 0 <= m < k ==> (#[trigger] lines@[m])@ == hex_line(data@, m),
        decreases line_count(data@.len()) - k,
    {
        lines.push(hex_line_of(data, k));
        k = k + 1;
    }
    lines
}

} // verus!

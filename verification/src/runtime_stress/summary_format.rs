use vstd::prelude::*;

use crate::text::{grouped_string, grouped_text, push_char};

verus! {

/// `"예"` for a completed run, `"아니오"` otherwise.
pub fn completion_label(completed: bool) -> (r: &'static str)
    ensures
        r@ == if completed { "예"@ } else { "아니오"@ },
{
    if completed {
        "예"
    } else {
        "아니오"
    }
}

/// A count with a comma between each group of three digits.
pub fn format_count(value: usize) -> (r: String)
    ensures
        r@ == grouped_text(value as nat),
{
    grouped_string(value as u64)
}

/// The columns a character takes: one for ASCII, two for anything else.
pub open spec fn char_width(c: char) -> int {
    if (c as u32) < 128 {
        1
    } else {
        2
    }
}

/// The columns a text takes.
pub open spec fn text_width(s: Seq<char>) -> int
    decreases s.len(),
{
    if s.len() == 0 {
        0
    } else {
        text_width(s.drop_last()) + char_width(s.last())
    }
}

proof fn lemma_text_width_bound(s: Seq<char>)
    ensures
        0 <= text_width(s) <= 2 * s.len(),
    decreases s.len(),
{
    if s.len() > 0 {
        lemma_text_width_bound(s.drop_last());
    }
}

/// The columns `value` takes on a terminal, counting two for each non-ASCII character.
pub fn display_width(value: &str) -> (r: usize)
    requires
        2 * value@.len() <= usize::MAX,
    ensures
        r == text_width(value@),
{
    let n = value.unicode_len();
    let mut width: usize = 0;
    let mut i: usize = 0;
    while i < n
        invariant
            n == value@.len(),
            2 * n <= usize::MAX,
            0 <= i <= n,
            width == text_width(value@.take(i as int)),
        decreases n - i,
    {
        let c = value.get_char(i);
        proof {
            assert(value@.take(i + 1).drop_last() =~= value@.take(i as int));
            lemma_text_width_bound(value@.take(i as int));
        }
        if (c as u32) < 128 {
            width = width + 1;
        } else {
            width = width + 2;
        }
        i = i + 1;
    }
    assert(value@.take(n as int) =~= value@);
    width
}

/// The column where a row's value starts, after its two-space indent.
pub const LABEL_WIDTH: usize = 19;

/// `n` spaces.
pub open spec fn spaces(n: nat) -> Seq<char> {
    Seq::new(n, |i: int| ' ')
}

/// The spaces between a label and its value: enough to reach the value column, at least one.
pub open spec fn row_padding(label: Seq<char>) -> nat {
    if text_width(label) < LABEL_WIDTH - 1 {
        (LABEL_WIDTH - text_width(label)) as nat
    } else {
        1
    }
}

/// Appends one report row: two spaces, the label, padding up to the value column, the
/// value, and a line break.
pub fn push_row(output: &mut String, label: &str, value: &str)
    requires
        2 * label@.len() <= usize::MAX,
    ensures
        final(output)@ == old(output)@ + "  "@ + label@ + spaces(row_padding(label@)) + value@ + seq!['\n'],
{
    let width = display_width(label);
    let padding = if width < LABEL_WIDTH - 1 {
        LABEL_WIDTH - width
    } else {
        1
    };
    output.append("  ");
    output.append(label);
    let ghost before = output@;
    let mut k: usize = 0;
    while k < padding
        invariant
            0 <= k <= padding,
            output@ == before + spaces(k as nat),
        decreases padding - k,
    {
        push_char(output, ' ');
        k = k + 1;
        assert(output@ =~= before + spaces(k as nat));
    }
    output.append(value);
    push_char(output, '\n');
}

} // verus!

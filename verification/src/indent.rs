//! Leading blanks of lines.

use vstd::prelude::*;

use crate::ascii::{SPACE, TAB};

verus! {

pub open spec fn blank(byte: u8) -> bool {
    byte == SPACE || byte == TAB
}

/// The character of a blank byte.
pub open spec fn blank_char(byte: u8) -> char {
    if byte == SPACE {
        ' '
    } else {
        '\t'
    }
}

/// The run of spaces and tabs that starts at `from`, as far as `to`.
pub open spec fn blanks(bytes: Seq<u8>, from: int, to: int) -> Seq<char>
    decreases to - from,
{
    if from >= to || !blank(bytes[from]) {
        Seq::empty()
    } else {
        seq![blank_char(bytes[from])] + blanks(bytes, from + 1, to)
    }
}

/// The run of spaces and tabs that starts at `from`, as far as `to`.
pub fn blanks_from(bytes: &[u8], from: usize, to: usize) -> (indent: String)
    requires
        from <= to <= bytes@.len(),
    ensures
        indent@ == blanks(bytes@, from as int, to as int),
{
    let mut indent = String::new();
    let mut i: usize = from;
    assert(Seq::<char>::empty() + blanks(bytes@, from as int, to as int) =~= blanks(
        bytes@,
        from as int,
        to as int,
    ));
    while i < to && (bytes[i] == SPACE || bytes[i] == TAB)
        invariant
            from <= i <= to <= bytes@.len(),
            indent@ + blanks(bytes@, i as int, to as int) == blanks(bytes@, from as int, to as int),
        decreases to - i,
    {
        let ghost before = indent@;
        let c = if bytes[i] == SPACE {
            ' '
        } else {
            '\t'
        };
        indent.push(c);
        i += 1;
        assert(before + (seq![c] + blanks(bytes@, i as int, to as int)) =~= indent@ + blanks(
            bytes@,
            i as int,
            to as int,
        ));
    }
    assert(indent@ + Seq::<char>::empty() =~= indent@);
    indent
}

/// An indent is made of spaces and tabs only.
pub proof fn law_indent_is_blank(bytes: Seq<u8>, from: int, to: int)
    ensures
        forall|i: int|
            0 <= i < blanks(bytes, from, to).len() ==> #[trigger] blanks(bytes, from, to)[i] == ' '
                || blanks(bytes, from, to)[i] == '\t',
    decreases to - from,
{
    if from < to && blank(bytes[from]) {
        law_indent_is_blank(bytes, from + 1, to);
        let rest = blanks(bytes, from + 1, to);
        let all = blanks(bytes, from, to);
        assert forall|i: int| 0 <= i < all.len() implies #[trigger] all[i] == ' ' || all[i]
            == '\t' by {
            if i > 0 {
                assert(all[i] == rest[i - 1]);
            }
        }
    }
}

} // verus!

//! The indent renderer: a padding string whose length equals the indentation
//! amount, one decorative middle dot per column, or a plain space when the
//! environment has decorative output switched off. The toggle is read by the
//! caller on every render, never cached here.

use vstd::prelude::*;
use vstd::string::StringExecFns;
use crate::style::plain_text;

verus! {

/// The padding character: a middle dot, or a space when decorative output is
/// disabled.
pub open spec fn pad_char(colors_disabled: bool) -> char {
    if colors_disabled {
        ' '
    } else {
        '·'
    }
}

/// The padding text for one render: `amount` copies of the padding character.
pub open spec fn spec_indent(amount: nat, colors_disabled: bool) -> Seq<char> {
    Seq::new(amount, |i: int| pad_char(colors_disabled))
}

/// The indent of a guard at depth `d` is exactly `2 * d` characters long,
/// whichever padding character the environment selects.
pub proof fn lemma_indent_len_is_twice_depth(d: nat, colors_disabled: bool)
    ensures
        spec_indent(2 * d, colors_disabled).len() == 2 * d,
{
}

/// An indent is plain text: it holds no escape character, so the styling
/// collaborator keeps it intact.
pub proof fn lemma_indent_plain(amount: nat, colors_disabled: bool)
    ensures
        plain_text(spec_indent(amount, colors_disabled)),
{
}

/// Renders the padding string for `indent_amount` columns. `colors_disabled`
/// reflects the environment's color toggle as the caller read it for this
/// render.
pub fn compute_indent(indent_amount: usize, colors_disabled: bool) -> (r: String)
    ensures
        r@ == spec_indent(indent_amount as nat, colors_disabled),
{
    proof {
        reveal_strlit(" ");
        reveal_strlit("·");
    }
    let pad: &str = if colors_disabled {
        " "
    } else {
        "·"
    };
    assert(pad@ =~= seq![pad_char(colors_disabled)]);
    let mut indent = String::new();
    let mut i: usize = 0;
    while i < indent_amount
        invariant
            i <= indent_amount,
            pad@ == seq![pad_char(colors_disabled)],
            indent@ == spec_indent(i as nat, colors_disabled),
        decreases indent_amount - i,
    {
        indent.append(pad);
        i = i + 1;
        assert(indent@ =~= spec_indent(i as nat, colors_disabled));
    }
    indent
}

} // verus!

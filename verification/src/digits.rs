//! Decimal rendering of unsigned integers, used by the duration formatter.

use vstd::prelude::*;
use vstd::string::StringExecFns;
use crate::style::plain_text;

verus! {

/// The character for one decimal digit.
pub open spec fn digit_char(d: nat) -> char {
    if d == 0 {
        '0'
    } else if d == 1 {
        '1'
    } else if d == 2 {
        '2'
    } else if d == 3 {
        '3'
    } else if d == 4 {
        '4'
    } else if d == 5 {
        '5'
    } else if d == 6 {
        '6'
    } else if d == 7 {
        '7'
    } else if d == 8 {
        '8'
    } else {
        '9'
    }
}

/// The decimal digits of `n`, most significant first, with no leading zeros
/// (zero itself is the single digit '0').
pub open spec fn spec_u64_str(n: nat) -> Seq<char>
    decreases n,
{
    if n < 10 {
        seq![digit_char(n)]
    } else {
        spec_u64_str(n / 10) + seq![digit_char(n % 10)]
    }
}

fn digit_str(d: u64) -> (r: &'static str)
    requires
        d < 10,
    ensures
        r@ == seq![digit_char(d as nat)],
{
    proof {
        reveal_strlit("0");
        reveal_strlit("1");
        reveal_strlit("2");
        reveal_strlit("3");
        reveal_strlit("4");
        reveal_strlit("5");
        reveal_strlit("6");
        reveal_strlit("7");
        reveal_strlit("8");
        reveal_strlit("9");
    }
    let r = match d {
        0 => "0",
        1 => "1",
        2 => "2",
        3 => "3",
        4 => "4",
        5 => "5",
        6 => "6",
        7 => "7",
        8 => "8",
        _ => "9",
    };
    proof {
        assert(r@ =~= seq![digit_char(d as nat)]);
    }
    r
}

/// Renders `n` in decimal, exactly as `spec_u64_str` describes.
pub fn u64_to_string(n: u64) -> (r: String)
    ensures
        r@ == spec_u64_str(n as nat),
    decreases n,
{
    if n < 10 {
        String::from_str(digit_str(n))
    } else {
        let mut r = u64_to_string(n / 10);
        r.append(digit_str(n % 10));
        r
    }
}

/// Every decimal digit string is plain text: it holds no escape character,
/// so the styling collaborator keeps it intact.
pub proof fn lemma_u64_str_plain(n: nat)
    ensures
        plain_text(spec_u64_str(n)),
    decreases n,
{
    let s = spec_u64_str(n);
    if n < 10 {
        assert forall|i: int| 0 <= i < s.len() implies #[trigger] s[i] != crate::style::esc_char() by {
            assert(s[i] == digit_char(n));
        }
    } else {
        lemma_u64_str_plain(n / 10);
        let head = spec_u64_str(n / 10);
        assert forall|i: int| 0 <= i < s.len() implies #[trigger] s[i] != crate::style::esc_char() by {
            if i < head.len() {
                assert(s[i] == head[i]);
            } else {
                assert(s[i] == digit_char(n % 10));
            }
        }
    }
}

} // verus!

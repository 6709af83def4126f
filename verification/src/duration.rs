//! The duration formatter: an elapsed time span, given as whole seconds and
//! sub-second nanoseconds, rendered by a unit-escalation policy. The largest
//! non-zero unit is shown with the next finer unit after a decimal point;
//! finer remainders are truncated, never rounded.

use vstd::prelude::*;
use vstd::string::StringExecFns;
use crate::digits::{digit_char, spec_u64_str, u64_to_string, lemma_u64_str_plain};
use crate::style::plain_text;

verus! {

/// The rendering policy, unit by unit:
/// seconds if any ("{secs}.{millis}s"), else milliseconds if any
/// ("{millis}.{micros}ms"), else microseconds if any ("{micros}.{nanos}µs"),
/// else bare nanoseconds ("{nanos}ns").
pub open spec fn spec_format_duration(secs: u64, subsec_nanos: u32) -> Seq<char> {
    let millis = (subsec_nanos / 1_000_000) as nat;
    let micros = ((subsec_nanos / 1_000) % 1_000) as nat;
    let nanos = (subsec_nanos % 1_000) as nat;
    if secs != 0 {
        spec_u64_str(secs as nat) + seq!['.'] + spec_u64_str(millis) + seq!['s']
    } else if millis > 0 {
        spec_u64_str(millis) + seq!['.'] + spec_u64_str(micros) + seq!['m', 's']
    } else if micros > 0 {
        spec_u64_str(micros) + seq!['.'] + spec_u64_str(nanos) + seq!['µ', 's']
    } else {
        spec_u64_str(subsec_nanos as nat) + seq!['n', 's']
    }
}

/// Renders an elapsed span exactly as `spec_format_duration` describes.
/// `subsec_nanos` is the sub-second part of the span, so it is below one
/// second's worth of nanoseconds.
pub fn format_duration(secs: u64, subsec_nanos: u32) -> (r: String)
    requires
        subsec_nanos < 1_000_000_000,
    ensures
        r@ == spec_format_duration(secs, subsec_nanos),
{
    proof {
        reveal_strlit(".");
        reveal_strlit("s");
        reveal_strlit("ms");
        reveal_strlit("µs");
        reveal_strlit("ns");
    }
    let millis: u32 = subsec_nanos / 1_000_000;
    let micros: u32 = (subsec_nanos / 1_000) % 1_000;
    let nanos: u32 = subsec_nanos % 1_000;
    if secs != 0 {
        let mut r = u64_to_string(secs);
        r.append(".");
        let m = u64_to_string(millis as u64);
        r.append(m.as_str());
        r.append("s");
        assert(r@ =~= spec_format_duration(secs, subsec_nanos));
        r
    } else if millis > 0 {
        let mut r = u64_to_string(millis as u64);
        r.append(".");
        let m = u64_to_string(micros as u64);
        r.append(m.as_str());
        r.append("ms");
        assert(r@ =~= spec_format_duration(secs, subsec_nanos));
        r
    } else if micros > 0 {
        let mut r = u64_to_string(micros as u64);
        r.append(".");
        let m = u64_to_string(nanos as u64);
        r.append(m.as_str());
        r.append("µs");
        assert(r@ =~= spec_format_duration(secs, subsec_nanos));
        r
    } else {
        let mut r = u64_to_string(subsec_nanos as u64);
        r.append("ns");
        assert(r@ =~= spec_format_duration(secs, subsec_nanos));
        r
    }
}

/// A formatted duration is plain text: digits, a point and unit letters hold
/// no escape character, so the styling collaborator keeps the text intact.
pub proof fn lemma_format_duration_plain(secs: u64, subsec_nanos: u32)
    ensures
        plain_text(spec_format_duration(secs, subsec_nanos)),
{
    let millis = (subsec_nanos / 1_000_000) as nat;
    let micros = ((subsec_nanos / 1_000) % 1_000) as nat;
    let nanos = (subsec_nanos % 1_000) as nat;
    lemma_u64_str_plain(secs as nat);
    lemma_u64_str_plain(millis);
    lemma_u64_str_plain(micros);
    lemma_u64_str_plain(nanos);
    lemma_u64_str_plain(subsec_nanos as nat);
    let s = spec_format_duration(secs, subsec_nanos);
    assert forall|i: int| 0 <= i < s.len() implies #[trigger] s[i] != crate::style::esc_char() by {
        lemma_concat_char_cases(s, i, secs, subsec_nanos);
    }
}

proof fn lemma_concat_char_cases(s: Seq<char>, i: int, secs: u64, subsec_nanos: u32)
    requires
        s == spec_format_duration(secs, subsec_nanos),
        0 <= i < s.len(),
        plain_text(spec_u64_str(secs as nat)),
        plain_text(spec_u64_str((subsec_nanos / 1_000_000) as nat)),
        plain_text(spec_u64_str(((subsec_nanos / 1_000) % 1_000) as nat)),
        plain_text(spec_u64_str((subsec_nanos % 1_000) as nat)),
        plain_text(spec_u64_str(subsec_nanos as nat)),
    ensures
        s[i] != crate::style::esc_char(),
{
    let millis = (subsec_nanos / 1_000_000) as nat;
    let micros = ((subsec_nanos / 1_000) % 1_000) as nat;
    let nanos = (subsec_nanos % 1_000) as nat;
    if secs != 0 {
        lemma_four_part_plain(spec_u64_str(secs as nat), seq!['.'], spec_u64_str(millis), seq!['s'], i);
    } else if millis > 0 {
        lemma_four_part_plain(spec_u64_str(millis), seq!['.'], spec_u64_str(micros), seq!['m', 's'], i);
    } else if micros > 0 {
        lemma_four_part_plain(spec_u64_str(micros), seq!['.'], spec_u64_str(nanos), seq!['µ', 's'], i);
    } else {
        lemma_four_part_plain(
            spec_u64_str(subsec_nanos as nat),
            seq!['n', 's'],
            Seq::empty(),
            Seq::empty(),
            i,
        );
    }
}

proof fn lemma_four_part_plain(a: Seq<char>, b: Seq<char>, c: Seq<char>, d: Seq<char>, i: int)
    requires
        plain_text(a),
        plain_text(b),
        plain_text(c),
        plain_text(d),
        0 <= i < (a + b + c + d).len(),
    ensures
        (a + b + c + d)[i] != crate::style::esc_char(),
{
    let s = a + b + c + d;
    if i < a.len() {
        assert(s[i] == a[i]);
    } else if i < a.len() + b.len() {
        assert(s[i] == b[i - a.len()]);
    } else if i < a.len() + b.len() + c.len() {
        assert(s[i] == c[i - a.len() - b.len()]);
    } else {
        assert(s[i] == d[i - a.len() - b.len() - c.len()]);
    }
}

} // verus!

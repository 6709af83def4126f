//! The timing guard. Creation notes the nesting depth, increments it, and
//! yields the start line; disposal decrements the depth, formats the elapsed
//! time, and yields the end line. Disposal is idempotent: a guard already
//! disposed changes nothing and yields no line. The caller prints the yielded
//! lines and reads the environment's color toggle fresh for every call.

use vstd::prelude::*;
use vstd::string::{StringExecFns, StrSliceExecFns};
use crate::depth::{DepthCounter, dec_depth};
use crate::duration::{spec_format_duration, format_duration, lemma_format_duration_plain};
use crate::indent::{spec_indent, compute_indent, lemma_indent_plain};
use crate::style::{plain_text, is_styled, style_start_tag, style_end_tag, style_emphasis,
    style_pad};

verus! {

/// The column where the duration of an end line begins, before indentation
/// is taken off the budget.
pub const END_COLUMN_BUDGET: usize = 75;

/// The text of the start tag, before styling.
pub open spec fn start_tag() -> Seq<char> {
    seq!['S', 't', 'a', 'r', 't', ':']
}

/// The text of the end tag, before styling.
pub open spec fn end_tag() -> Seq<char> {
    seq!['E', 'n', 'd', ':']
}

/// The spaces after the start tag: the tag sits in an eight-column field and
/// one more space separates it from the label.
pub open spec fn start_gap() -> Seq<char> {
    seq![' ', ' ', ' ']
}

/// The spaces after the end tag, filling its eight-column field plus the
/// separator.
pub open spec fn end_gap() -> Seq<char> {
    seq![' ', ' ', ' ', ' ', ' ']
}

/// `k` fill dots.
pub open spec fn spec_dots(k: nat) -> Seq<char> {
    Seq::new(k, |i: int| '.')
}

/// The end line's label field: the label, a space, and the suffix.
pub open spec fn spec_message(label: Seq<char>, suffix: Seq<char>) -> Seq<char> {
    label + seq![' '] + suffix
}

/// The width the end line's label field is filled to: the column budget less
/// the indentation, and zero once indentation exceeds the budget.
pub open spec fn end_pad_width(indent_amount: nat) -> nat {
    if indent_amount <= END_COLUMN_BUDGET as nat {
        (END_COLUMN_BUDGET as nat - indent_amount) as nat
    } else {
        0
    }
}

/// The label field dot-filled up to `width`; a field already that wide is
/// kept as it is.
pub open spec fn spec_dot_fill(msg: Seq<char>, width: nat) -> Seq<char> {
    if msg.len() >= width {
        msg
    } else {
        msg + spec_dots((width - msg.len()) as nat)
    }
}

/// A start line for a guard created at depth `depth`: the styled indent of
/// `2 * depth` columns, the styled start tag in its field, and the label.
pub open spec fn is_start_line(
    line: Seq<char>,
    depth: nat,
    colors_disabled: bool,
    label: Seq<char>,
) -> bool {
    exists|si: Seq<char>, st: Seq<char>|
        #![trigger is_styled(si, spec_indent(2 * depth, colors_disabled)), is_styled(st, start_tag())]
        is_styled(si, spec_indent(2 * depth, colors_disabled)) && is_styled(st, start_tag())
            && line == si + st + start_gap() + label
}

/// An end line rendered at depth `depth` (the counter's value after the
/// disposal's decrement): the styled indent, the styled end tag in its field,
/// the dot-filled label-and-suffix field, and the styled duration for some
/// elapsed span of `secs` seconds and `subsec_nanos` nanoseconds.
pub open spec fn is_end_line(
    line: Seq<char>,
    depth: nat,
    colors_disabled: bool,
    label: Seq<char>,
    suffix: Seq<char>,
    secs: u64,
    subsec_nanos: u32,
) -> bool {
    exists|si: Seq<char>, st: Seq<char>, sd: Seq<char>|
        #![trigger is_styled(si, spec_indent(2 * depth, colors_disabled)), is_styled(st, end_tag()), is_styled(sd, spec_format_duration(secs, subsec_nanos))]
        is_styled(si, spec_indent(2 * depth, colors_disabled)) && is_styled(st, end_tag())
            && is_styled(sd, spec_format_duration(secs, subsec_nanos)) && line == si + st
            + end_gap() + spec_dot_fill(
            spec_message(label, suffix),
            end_pad_width(2 * depth),
        ) + sd
}

/// One in-flight timed operation: its label, the instant it started, and
/// whether it has already been disposed.
pub struct TimerInfo {
    pub msg: String,
    pub time: std::time::Instant,
    disposed: bool,
}

impl TimerInfo {
    /// Whether the guard's disposal has already happened; a disposed guard
    /// stays disposed and never yields another end line.
    pub closed spec fn is_disposed(&self) -> bool {
        self.disposed
    }

    /// The label captured at creation.
    pub closed spec fn label(&self) -> Seq<char> {
        self.msg@
    }
}

/// Renders the start line for a guard created at depth `depth` with the
/// label `msg`.
pub fn render_start_line(depth: usize, colors_disabled: bool, msg: &str) -> (r: String)
    requires
        depth < usize::MAX / 2,
    ensures
        is_start_line(r@, depth as nat, colors_disabled, msg@),
{
    proof {
        reveal_strlit("Start:");
        reveal_strlit("   ");
    }
    let indent_amount = 2 * depth;
    let indent = compute_indent(indent_amount, colors_disabled);
    proof {
        lemma_indent_plain(indent_amount as nat, colors_disabled);
    }
    let styled_indent = style_pad(indent.as_str());
    assert(plain_text("Start:"@)) by {
        assert(forall|i: int| 0 <= i < 6 ==> #[trigger] ("Start:"@)[i] != crate::style::esc_char());
    }
    let styled_tag = style_start_tag("Start:");
    let mut line = styled_indent;
    line.append(styled_tag.as_str());
    line.append("   ");
    line.append(msg);
    proof {
        assert("Start:"@ =~= start_tag());
        assert("   "@ =~= start_gap());
    }
    assert(is_start_line(line@, depth as nat, colors_disabled, msg@)) by {
        assert(is_styled(styled_indent@, spec_indent(2 * (depth as nat), colors_disabled)));
        assert(is_styled(styled_tag@, start_tag()));
        assert(line@ =~= styled_indent@ + styled_tag@ + start_gap() + msg@);
    }
    line
}

/// Creates a guard for the operation `msg` names: notes the current depth,
/// renders the start line at that depth, increments the counter, and captures
/// the start instant. `colors_disabled` is the environment's color toggle as
/// the caller read it for this render.
pub fn timer_start(counter: &mut DepthCounter, msg: String, colors_disabled: bool) -> (r: (
    TimerInfo,
    Option<String>,
))
    requires
        old(counter).depth() < usize::MAX / 2,
    ensures
        final(counter).depth() == old(counter).depth() + 1,
        r.0.label() == msg@,
        !r.0.is_disposed(),
        r.1 matches Some(line) && is_start_line(
            line@,
            old(counter).depth(),
            colors_disabled,
            msg@,
        ),
{
    let depth = counter.increment_and_get_previous();
    let line = render_start_line(depth, colors_disabled, msg.as_str());
    let info = TimerInfo { msg, time: std::time::Instant::now(), disposed: false };
    (info, Some(line))
}

/// Renders the end line for a guard whose label is `label`, disposed with
/// `suffix`, at the already-decremented depth `depth`, for an elapsed span of
/// `secs` seconds and `subsec_nanos` nanoseconds.
pub fn render_end_line(
    depth: usize,
    colors_disabled: bool,
    label: &str,
    suffix: &str,
    secs: u64,
    subsec_nanos: u32,
) -> (r: String)
    requires
        depth < usize::MAX / 2,
        subsec_nanos < 1_000_000_000,
    ensures
        is_end_line(r@, depth as nat, colors_disabled, label@, suffix@, secs, subsec_nanos),
{
    proof {
        reveal_strlit("End:");
        reveal_strlit("     ");
        reveal_strlit(" ");
        reveal_strlit(".");
    }
    let dur = format_duration(secs, subsec_nanos);
    proof {
        lemma_format_duration_plain(secs, subsec_nanos);
    }
    let styled_dur = style_emphasis(dur.as_str());

    let indent_amount = 2 * depth;
    let indent = compute_indent(indent_amount, colors_disabled);
    proof {
        lemma_indent_plain(indent_amount as nat, colors_disabled);
    }
    let styled_indent = style_pad(indent.as_str());
    assert(plain_text("End:"@)) by {
        assert(forall|i: int| 0 <= i < 4 ==> #[trigger] ("End:"@)[i] != crate::style::esc_char());
    }
    let styled_tag = style_end_tag("End:");

    let mut field = String::from_str(label);
    field.append(" ");
    field.append(suffix);
    let ghost msg_view = field@;
    proof {
        assert(msg_view =~= spec_message(label@, suffix@));
    }
    let msg_chars = field.as_str().unicode_len();
    let pad_width = if indent_amount <= END_COLUMN_BUDGET {
        END_COLUMN_BUDGET - indent_amount
    } else {
        0
    };
    assert(pad_width as nat == end_pad_width(indent_amount as nat));
    let mut k = msg_chars;
    proof {
        assert(field@ =~= msg_view + spec_dots((k - msg_chars) as nat));
    }
    while k < pad_width
        invariant
            msg_chars <= k,
            pad_width <= END_COLUMN_BUDGET,
            msg_chars >= pad_width ==> k == msg_chars,
            msg_chars < pad_width ==> k <= pad_width,
            msg_view.len() == msg_chars as nat,
            "."@ == seq!['.'],
            field@ == msg_view + spec_dots((k - msg_chars) as nat),
        decreases pad_width - k,
    {
        field.append(".");
        k = k + 1;
        assert(field@ =~= msg_view + spec_dots((k - msg_chars) as nat));
    }
    proof {
        if msg_view.len() >= pad_width as nat {
            assert(field@ =~= spec_dot_fill(msg_view, pad_width as nat));
        } else {
            assert(k == pad_width);
            assert(field@ =~= spec_dot_fill(msg_view, pad_width as nat));
        }
    }

    let mut line = styled_indent;
    line.append(styled_tag.as_str());
    line.append("     ");
    line.append(field.as_str());
    line.append(styled_dur.as_str());
    assert(is_end_line(line@, depth as nat, colors_disabled, label@, suffix@, secs, subsec_nanos))
        by {
        assert(is_styled(styled_indent@, spec_indent(2 * (depth as nat), colors_disabled)));
        assert("End:"@ =~= end_tag());
        assert(is_styled(styled_tag@, end_tag()));
        assert(is_styled(styled_dur@, spec_format_duration(secs, subsec_nanos)));
        assert("     "@ =~= end_gap());
        assert(line@ =~= styled_indent@ + styled_tag@ + end_gap() + spec_dot_fill(
            spec_message(label@, suffix@),
            end_pad_width(2 * (depth as nat)),
        ) + styled_dur@);
    }
    line
}

/// Disposes the guard with a suffix appended to the end line's label field:
/// formats the elapsed time, decrements the counter first and renders the end
/// line at the decremented depth, and marks the guard disposed. Disposing a
/// guard a second time is a no-op: the counter is untouched and no line is
/// yielded.
pub fn timer_end_with(
    counter: &mut DepthCounter,
    info: &mut TimerInfo,
    suffix: &str,
    colors_disabled: bool,
) -> (r: Option<String>)
    requires
        old(counter).depth() < usize::MAX / 2,
    ensures
        old(info).is_disposed() ==> r is None && *final(counter) == *old(counter) && *final(info)
            == *old(info),
        !old(info).is_disposed() ==> {
            &&& final(info).is_disposed()
            &&& final(info).label() == old(info).label()
            &&& final(counter).depth() == dec_depth(old(counter).depth())
            &&& r is Some
            &&& exists|secs: u64, subsec_nanos: u32|
                is_end_line(
                    r->0@,
                    final(counter).depth(),
                    colors_disabled,
                    old(info).label(),
                    suffix@,
                    secs,
                    subsec_nanos,
                )
        },
{
    if info.disposed {
        return None;
    }
    info.disposed = true;
    let elapsed = info.time.elapsed();
    let secs = elapsed.as_secs();
    let subsec_nanos = elapsed.subsec_nanos();
    counter.decrement();
    let depth = counter.current();
    let line = render_end_line(depth, colors_disabled, info.msg.as_str(), suffix, secs, subsec_nanos);
    let r_out = Some(line);
    proof {
        assert(is_end_line(
            r_out->0@,
            final(counter).depth(),
            colors_disabled,
            old(info).label(),
            suffix@,
            secs,
            subsec_nanos,
        ));
    }
    r_out
}

/// Disposes the guard with an empty suffix: the form an automatic disposal
/// at scope exit uses.
pub fn timer_end(counter: &mut DepthCounter, info: &mut TimerInfo, colors_disabled: bool) -> (r:
    Option<String>)
    requires
        old(counter).depth() < usize::MAX / 2,
    ensures
        old(info).is_disposed() ==> r is None && *final(counter) == *old(counter) && *final(info)
            == *old(info),
        !old(info).is_disposed() ==> {
            &&& final(info).is_disposed()
            &&& final(info).label() == old(info).label()
            &&& final(counter).depth() == dec_depth(old(counter).depth())
            &&& r is Some
            &&& exists|secs: u64, subsec_nanos: u32|
                is_end_line(
                    r->0@,
                    final(counter).depth(),
                    colors_disabled,
                    old(info).label(),
                    Seq::<char>::empty(),
                    secs,
                    subsec_nanos,
                )
        },
{
    proof {
        reveal_strlit("");
        assert(""@ =~= Seq::<char>::empty());
    }
    timer_end_with(counter, info, "", colors_disabled)
}

} // verus!

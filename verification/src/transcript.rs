//! The transcript ring: a bounded rolling buffer of a sub-agent's
//! recent output lines. Lines are trimmed of trailing blank space,
//! clipped to a byte budget on a character boundary (with an ellipsis
//! marking the cut), and the oldest lines are evicted beyond the line
//! budget, stickily marking the buffer as truncated.

use vstd::prelude::*;
use vstd::string::*;
use vstd::utf8::*;

use crate::text::boundary_below;
use crate::text::byte_bounded_prefix;
use crate::text::is_line_space;
use crate::text::line_split;
use crate::text::take_bytes_at_char_boundary;
use crate::text::trim_end_spec;

verus! {

/// Greatest number of transcript lines retained per sub-agent.
pub const SUBAGENT_TRANSCRIPT_MAX_LINES: usize = 30;

/// Greatest byte length of one retained transcript line, before the
/// ellipsis marker.
pub const SUBAGENT_TRANSCRIPT_MAX_LINE_BYTES: usize = 300;

/// The ellipsis marker appended to a clipped line.
pub open spec fn ellipsis() -> Seq<char> {
    seq!['\u{2026}']
}

/// A line clipped to the byte budget: left whole when its encoding
/// fits, otherwise cut at the greatest character boundary within the
/// budget and closed with the ellipsis marker.
pub open spec fn clip_spec(line: Seq<char>) -> Seq<char> {
    let b = encode_utf8(line);
    if b.len() <= SUBAGENT_TRANSCRIPT_MAX_LINE_BYTES as int {
        line
    } else {
        decode_utf8(byte_bounded_prefix(b, SUBAGENT_TRANSCRIPT_MAX_LINE_BYTES as int)) + ellipsis()
    }
}

/// Clips one trimmed line to the byte budget at a character boundary,
/// appending the ellipsis marker when a cut was made.
pub fn clip_transcript_line(line: &str) -> (r: String)
    ensures
        r@ == clip_spec(line@),
{
    proof {
        encode_utf8_valid_utf8(line@);
    }
    let blen = line.as_bytes().len();
    if blen <= SUBAGENT_TRANSCRIPT_MAX_LINE_BYTES {
        line.to_owned()
    } else {
        let p = take_bytes_at_char_boundary(line, SUBAGENT_TRANSCRIPT_MAX_LINE_BYTES);
        let mut r = p.to_owned();
        r.append("\u{2026}");
        proof {
            reveal_strlit("\u{2026}");
            assert("\u{2026}"@ =~= ellipsis());
            assert(r@ == clip_spec(line@));
        }
        r
    }
}

/// What one raw line does to the ring: a line whose trimmed text is
/// blank is dropped; otherwise its trimmed, clipped form is appended,
/// and if the ring then exceeds the line budget the oldest line is
/// evicted and the truncation flag set.
pub open spec fn ring_push(tail: Seq<Seq<char>>, truncated: bool, line: Seq<char>) -> (
    Seq<Seq<char>>,
    bool,
) {
    let t = trim_end_spec(line);
    if t.len() == 0 {
        (tail, truncated)
    } else {
        let grown = tail.push(clip_spec(t));
        if grown.len() > SUBAGENT_TRANSCRIPT_MAX_LINES as int {
            (grown.drop_first(), true)
        } else {
            (grown, truncated)
        }
    }
}

/// The raw lines folded into the ring, oldest first.
pub open spec fn ring_append_lines(tail: Seq<Seq<char>>, truncated: bool, lines: Seq<Seq<char>>) -> (
    Seq<Seq<char>>,
    bool,
)
    decreases lines.len(),
{
    if lines.len() == 0 {
        (tail, truncated)
    } else {
        let stepped = ring_push(tail, truncated, lines.first());
        ring_append_lines(stepped.0, stepped.1, lines.drop_first())
    }
}

/// What appending a whole produced message does to the ring: its lines
/// are folded in, in order.
pub open spec fn ring_append_message(
    tail: Seq<Seq<char>>,
    truncated: bool,
    msg: Seq<char>,
) -> (Seq<Seq<char>>, bool) {
    ring_append_lines(tail, truncated, line_split(msg))
}

/// Folding one more line equals folding the rest and then that line.
pub proof fn lemma_ring_append_lines_push(
    tail: Seq<Seq<char>>,
    truncated: bool,
    lines: Seq<Seq<char>>,
    x: Seq<char>,
)
    ensures
        ring_append_lines(tail, truncated, lines.push(x)) == ring_push(
            ring_append_lines(tail, truncated, lines).0,
            ring_append_lines(tail, truncated, lines).1,
            x,
        ),
    decreases lines.len(),
{
    if lines.len() == 0 {
        let stepped = ring_push(tail, truncated, x);
        assert(lines.push(x).first() == x);
        assert(lines.push(x).drop_first() =~= Seq::<Seq<char>>::empty());
        assert(ring_append_lines(stepped.0, stepped.1, Seq::<Seq<char>>::empty()) == stepped);
        assert(ring_append_lines(tail, truncated, lines) == (tail, truncated));
    } else {
        assert(lines.push(x).first() == lines.first());
        assert(lines.push(x).drop_first() =~= lines.drop_first().push(x));
        let stepped = ring_push(tail, truncated, lines.first());
        lemma_ring_append_lines_push(stepped.0, stepped.1, lines.drop_first(), x);
        assert(ring_append_lines(tail, truncated, lines.push(x)) == ring_append_lines(
            stepped.0,
            stepped.1,
            lines.drop_first().push(x),
        ));
        assert(ring_append_lines(tail, truncated, lines) == ring_append_lines(
            stepped.0,
            stepped.1,
            lines.drop_first(),
        ));
    }
}

/// The ring never grows past the line budget.
pub proof fn lemma_ring_append_lines_bound(
    tail: Seq<Seq<char>>,
    truncated: bool,
    lines: Seq<Seq<char>>,
)
    requires
        tail.len() <= SUBAGENT_TRANSCRIPT_MAX_LINES as int,
    ensures
        ring_append_lines(tail, truncated, lines).0.len() <= SUBAGENT_TRANSCRIPT_MAX_LINES as int,
    decreases lines.len(),
{
    if lines.len() > 0 {
        let stepped = ring_push(tail, truncated, lines.first());
        lemma_ring_append_lines_bound(stepped.0, stepped.1, lines.drop_first());
    }
}

/// Once set, the truncation flag survives any further appends.
pub proof fn lemma_ring_append_lines_sticky(
    tail: Seq<Seq<char>>,
    truncated: bool,
    lines: Seq<Seq<char>>,
)
    requires
        truncated,
    ensures
        ring_append_lines(tail, truncated, lines).1,
    decreases lines.len(),
{
    if lines.len() > 0 {
        let stepped = ring_push(tail, truncated, lines.first());
        lemma_ring_append_lines_sticky(stepped.0, stepped.1, lines.drop_first());
    }
}

} // verus!

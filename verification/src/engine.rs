//! What the embedded Whisper engine does around the inference itself: the
//! decode profiles, and how the segments it returns become one text.

use vstd::prelude::*;
use crate::streaming::appended;
use crate::text::{chars_of, push_chars, str_views, string_from_chars, trim, trim_exec};

verus! {

/// How the engine decodes: `Fast` is greedy, `Safe` a beam search without
/// context, for long dictation where stability matters more than latency.
#[derive(Debug, Clone, Copy, PartialEq, Eq, Structural)]
pub enum DecodeProfile {
    Fast,
    Safe,
}

/// The text of the segments `segs`: each trimmed, the empty ones left out,
/// the others joined by single spaces.
pub open spec fn joined_segments(segs: Seq<Seq<char>>) -> Seq<char>
    decreases segs.len(),
{
    if segs.len() == 0 {
        Seq::empty()
    } else {
        appended(joined_segments(segs.drop_last()), trim(segs.last()))
    }
}

/// Joins the segment texts of a transcription into one text.
pub fn join_segments(segments: &[String]) -> (r: String)
    ensures
        r@ == joined_segments(str_views(segments@)),
{
    let mut text: Vec<char> = Vec::new();
    let mut i: usize = 0;
    while i < segments.len()
        invariant
            i <= segments@.len(),
            text@ == joined_segments(str_views(segments@).take(i as int)),
        decreases segments@.len() - i,
    {
        let seg = trim_exec(chars_of(segments[i].as_str()).as_slice());
        proof {
            reveal_strlit(" ");
            let next = str_views(segments@).take(i + 1);
            assert(next.drop_last() =~= str_views(segments@).take(i as int));
            assert(next.last() == segments@[i as int]@);
        }
        if seg.len() > 0 {
            let ghost before = text@;
            if text.len() > 0 {
                text.push(' ');
            }
            push_chars(&mut text, seg.as_slice());
            assert(text@ =~= appended(before, seg@));
        }
        i = i + 1;
    }
    assert(str_views(segments@).take(segments@.len() as int) =~= str_views(segments@));
    string_from_chars(text.as_slice())
}

/// A segment that is only whitespace adds nothing to the text, not even a
/// separator.
pub proof fn lemma_blank_segment_adds_nothing(segs: Seq<Seq<char>>, seg: Seq<char>)
    requires
        trim(seg).len() == 0,
    ensures
        joined_segments(segs.push(seg)) == joined_segments(segs),
{
    assert(segs.push(seg).drop_last() =~= segs);
}

} // verus!

//! From an audio file to a transcript, its checkpoint, its metrics and its embeddings.
pub mod checkpoint;
pub mod decoder;
pub mod embeddings;
pub mod job;
pub mod jsonl_writer;
pub mod models;
pub mod pipeline;
pub mod util;
pub mod whisper_runner;

use crate::text;
use vstd::prelude::*;
use vstd::string::*;

verus! {

/// The texts of the segments that could be read, a space behind each.
pub open spec fn spaced(segments: Seq<Option<Seq<char>>>) -> Seq<char>
    decreases segments.len(),
{
    if segments.len() == 0 {
        Seq::empty()
    } else {
        match segments.last() {
            Some(s) => (spaced(segments.drop_last()) + s) + " "@,
            None => spaced(segments.drop_last()),
        }
    }
}

/// The fragments of a recording: what was said in each chunk, trimmed, without silent chunks.
pub open spec fn fragments(chunks: Seq<Seq<Option<Seq<char>>>>) -> Seq<Seq<char>>
    decreases chunks.len(),
{
    if chunks.len() == 0 {
        Seq::empty()
    } else {
        let fragment = text::trimmed(spaced(chunks.last()));
        if fragment.len() == 0 {
            fragments(chunks.drop_last())
        } else {
            fragments(chunks.drop_last()).push(fragment)
        }
    }
}

/// The segments of a chunk by their characters, `None` for one that could not be read.
pub open spec fn segment_texts(segments: Seq<Option<String>>) -> Seq<Option<Seq<char>>> {
    segments.map_values(|o: Option<String>| text::optional(o))
}

/// The segments of all chunks.
pub open spec fn chunk_texts(chunks: Seq<Vec<Option<String>>>) -> Seq<Seq<Option<Seq<char>>>> {
    chunks.map_values(|c: Vec<Option<String>>| segment_texts(c@))
}

fn spaced_text(segments: &Vec<Option<String>>) -> (r: String)
    ensures
        r@ == spaced(segment_texts(segments@)),
{
    let ghost all = segment_texts(segments@);
    let mut out = String::new();
    let mut i: usize = 0;
    assert(all.take(0) == Seq::<Option<Seq<char>>>::empty());
    while i < segments.len()
        invariant
            i <= segments@.len(),
            all == segment_texts(segments@),
            out@ == spaced(all.take(i as int)),
        decreases segments@.len() - i,
    {
        assert(all.take(i + 1).drop_last() == all.take(i as int));
        assert(all.take(i + 1).last() == text::optional(segments@[i as int]));
        match &segments[i] {
            Some(s) => {
                out.push_str(s.as_str());
                out.push_str(" ");
            },
            None => {},
        }
        i = i + 1;
    }
    assert(all.take(i as int) == all);
    out
}

/// What a recording says, chunk by chunk, from the segments the speech model wrote for each.
pub fn extraer_texto_aislado(chunks: &Vec<Vec<Option<String>>>) -> (r: Vec<String>)
    ensures
        text::texts(r@) == fragments(chunk_texts(chunks@)),
{
    let ghost all = chunk_texts(chunks@);
    let mut out: Vec<String> = Vec::new();
    let mut i: usize = 0;
    assert(all.take(0) == Seq::<Seq<Option<Seq<char>>>>::empty());
    assert(text::texts(out@) == fragments(all.take(0)));
    while i < chunks.len()
        invariant
            i <= chunks@.len(),
            all == chunk_texts(chunks@),
            text::texts(out@) == fragments(all.take(i as int)),
        decreases chunks@.len() - i,
    {
        assert(all.take(i + 1).drop_last() == all.take(i as int));
        assert(all.take(i + 1).last() == segment_texts(chunks@[i as int]@));
        let text = spaced_text(&chunks[i]);
        let fragment = text::trim(text.as_str());
        let ghost before = text::texts(out@);
        if !fragment.is_empty() {
            out.push(fragment.to_owned());
            assert(text::texts(out@) == before.push(fragment@));
        }
        i = i + 1;
    }
    assert(all.take(i as int) == all);
    out
}

/// What a recording says is what its chunks say, one behind the other, each taken by itself: a
/// chunk without words adds nothing, any other its words without the white space around them.
pub proof fn fragments_go_chunk_by_chunk(
    a: Seq<Seq<Option<Seq<char>>>>,
    b: Seq<Seq<Option<Seq<char>>>>,
)
    ensures
        fragments(a + b) == fragments(a) + fragments(b),
        forall|c: Seq<Option<Seq<char>>>| #[trigger]
            fragments(seq![c]) == (if text::is_blank(spaced(c)) {
                Seq::<Seq<char>>::empty()
            } else {
                seq![text::trimmed(spaced(c))]
            }),
    decreases b.len(),
{
    assert forall|c: Seq<Option<Seq<char>>>| #[trigger]
        fragments(seq![c]) == (if text::is_blank(spaced(c)) {
            Seq::<Seq<char>>::empty()
        } else {
            seq![text::trimmed(spaced(c))]
        }) by {
        text::trimmed_is_empty_iff_blank(spaced(c));
        assert(seq![c].drop_last() =~= Seq::<Seq<Option<Seq<char>>>>::empty());
        assert(fragments(seq![c].drop_last()).len() == 0);
        assert(seq![c].last() == c);
    }
    if b.len() == 0 {
        assert(a + b == a);
        assert(fragments(a) + fragments(b) == fragments(a));
    } else {
        fragments_go_chunk_by_chunk(a, b.drop_last());
        assert((a + b).drop_last() == a + b.drop_last());
        assert((a + b).last() == b.last());
    }
}

/// The words of a chunk are those of its readable segments, in order, with a space behind each.
pub proof fn segments_stand_in_order(
    a: Seq<Option<Seq<char>>>,
    b: Seq<Option<Seq<char>>>,
    words: Seq<char>,
)
    ensures
        spaced(a + b) == spaced(a) + spaced(b),
        spaced(seq![Some(words)]) == words + " "@,
        spaced(seq![None]).len() == 0,
    decreases b.len(),
{
    let one = seq![Some(words)];
    let none = seq![None::<Seq<char>>];
    assert(one.drop_last() =~= Seq::<Option<Seq<char>>>::empty());
    assert(none.drop_last() =~= Seq::<Option<Seq<char>>>::empty());
    assert(spaced(one.drop_last()).len() == 0);
    assert((spaced(one.drop_last()) + words) + " "@ =~= words + " "@);
    if b.len() == 0 {
        assert(a + b == a);
        assert(spaced(a) + spaced(b) == spaced(a));
    } else {
        segments_stand_in_order(a, b.drop_last(), words);
        assert((a + b).drop_last() == a + b.drop_last());
        assert((a + b).last() == b.last());
    }
}

} // verus!

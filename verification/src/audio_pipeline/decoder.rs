//! How a stream of samples is cut into overlapping, numbered chunks.
use crate::binary32::Binary32;
use crate::config::{ChunkingConfig, ConfigError, ConfigErrorView};
use vstd::prelude::*;
use vstd::string::*;

verus! {

/// The samples of one chunk, by their position in the whole recording.
#[derive(Debug, Clone, Copy, PartialEq, Eq, Structural)]
pub struct Window {
    pub index: usize,
    pub start: u64,
    pub end: u64,
}

/// What the samples decoded so far allow.
#[derive(Debug, Clone, Copy, PartialEq, Eq, Structural)]
pub enum NextChunk {
    Chunk { window: Window },
    NeedMore,
    EndOfAudio,
}

/// How many samples of a chunk the next one repeats: none where the overlap is below zero.
pub open spec fn repeated(overlap: int) -> int {
    if overlap < 0 {
        0
    } else {
        overlap
    }
}

/// Cuts the audio at `audio_path`, at 16 kHz mono.
#[derive(Debug)]
pub struct StreamingDecoder {
    pub audio_path: String,
    pub chunk_samples: u64,
    pub overlap_samples: u64,
    /// Number of the next chunk. It is wider than a chunk's own number, so that the decoder can
    /// count on behind any of them.
    pub next_index: u128,
    /// Where the next chunk begins.
    pub start: u64,
    /// Everything before this is part of a chunk already.
    pub covered: u64,
}

impl StreamingDecoder {
    /// Chunks advance, and the next one begins inside the overlap of the last.
    pub open spec fn wf(&self) -> bool {
        &&& self.overlap_samples < self.chunk_samples
        &&& self.start <= self.covered <= self.start + self.overlap_samples
    }

    /// The decoder stands at `position`, about to number a chunk `index`.
    pub open spec fn at(&self, index: usize, position: u64) -> bool {
        self.next_index == index && self.start == position && self.covered == position
    }

    /// A decoder at the start of the audio, which numbers its chunks from zero. Nothing is
    /// repeated where the overlap is below zero. It takes only chunks that are longer than what
    /// they repeat, and says so of others.
    pub fn new(audio_path: &str, chunking: &ChunkingConfig) -> (r: Result<StreamingDecoder, String>)
        ensures
            match r {
                Ok(d) => {
                    &&& repeated(chunking.overlap_seconds.samples as int)
                        < chunking.chunk_seconds.samples
                    &&& d.wf()
                    &&& d.audio_path@ == audio_path@
                    &&& d.chunk_samples == chunking.chunk_seconds.samples
                    &&& d.overlap_samples == repeated(chunking.overlap_seconds.samples as int)
                    &&& d.at(0, 0)
                },
                Err(e) => {
                    &&& repeated(chunking.overlap_seconds.samples as int)
                        >= chunking.chunk_seconds.samples
                    &&& e@ == (ConfigErrorView::OverlapTooLong {
                        overlap: chunking.overlap_seconds@.shown,
                        chunk: chunking.chunk_seconds@.shown,
                    }).text()
                },
            },
    {
        let overlap: i64 = if chunking.overlap_seconds.samples < 0 {
            0
        } else {
            chunking.overlap_seconds.samples
        };
        if overlap >= chunking.chunk_seconds.samples {
            let error = ConfigError::OverlapTooLong {
                overlap: chunking.overlap_seconds.shown.clone(),
                chunk: chunking.chunk_seconds.shown.clone(),
            };
            return Err(error.message());
        }
        Ok(
            StreamingDecoder {
                audio_path: audio_path.to_owned(),
                chunk_samples: chunking.chunk_seconds.samples as u64,
                overlap_samples: overlap as u64,
                next_index: 0,
                start: 0,
                covered: 0,
            },
        )
    }

    /// Where the decoder stands once it was sent `seconds` into the audio: at sample `position`
    /// and chunk `resume_from_chunk`, or where it stood if that is the start of the audio.
    pub open spec fn sought(
        &self,
        seconds: Binary32,
        position: u64,
        resume_from_chunk: usize,
        after: StreamingDecoder,
    ) -> bool {
        &&& after.audio_path == self.audio_path
        &&& after.chunk_samples == self.chunk_samples
        &&& after.overlap_samples == self.overlap_samples
        &&& if !seconds.nan() && seconds.value_rank() <= 0 {
            after == *self
        } else {
            after.at(resume_from_chunk, position)
        }
    }

    /// Continues an interrupted job `seconds` into the audio, at sample `position`, with chunk
    /// `resume_from_chunk`. At the start of the audio there is nothing to continue: the numbering
    /// stays as it is.
    pub fn seek_seconds(&mut self, seconds: Binary32, position: u64, resume_from_chunk: usize)
        requires
            old(self).wf(),
        ensures
            final(self).wf(),
            old(self).sought(seconds, position, resume_from_chunk, *final(self)),
    {
        if !seconds.is_nan() && seconds.rank() <= 0 {
            return;
        }
        self.next_index = resume_from_chunk as u128;
        self.start = position;
        self.covered = position;
    }

    /// What `available` samples, of a stream that has `ended` or not, allow next.
    pub open spec fn decision(&self, available: u64, ended: bool) -> NextChunk {
        if self.start + self.chunk_samples <= available {
            NextChunk::Chunk {
                window: Window {
                    index: self.next_index as usize,
                    start: self.start,
                    end: (self.start + self.chunk_samples) as u64,
                },
            }
        } else if !ended {
            NextChunk::NeedMore
        } else if available <= self.covered {
            NextChunk::EndOfAudio
        } else {
            NextChunk::Chunk {
                window: Window {
                    index: self.next_index as usize,
                    start: self.start,
                    end: available,
                },
            }
        }
    }

    /// Where the decoder stands once it has decided this: a chunk is numbered and covered, and
    /// the next begins inside it by the overlap, or behind it where it was the short last one.
    pub open spec fn leads_to(&self, made: NextChunk, after: StreamingDecoder) -> bool {
        &&& after.audio_path == self.audio_path
        &&& after.chunk_samples == self.chunk_samples
        &&& after.overlap_samples == self.overlap_samples
        &&& match made {
            NextChunk::Chunk { window } => {
                &&& after.next_index == self.next_index + 1
                &&& after.covered == window.end
                &&& after.start == (if window.end - window.start == self.chunk_samples {
                    window.end - self.overlap_samples
                } else {
                    window.end as int
                })
            },
            _ => after == *self,
        }
    }

    /// The next chunk, once enough samples are there: a whole one, or at the end of the audio
    /// what is left of it that no chunk holds yet.
    pub fn next_chunk(&mut self, available: u64, ended: bool) -> (r: NextChunk)
        requires
            old(self).wf(),
            old(self).next_index <= usize::MAX,
        ensures
            final(self).wf(),
            r == old(self).decision(available, ended),
            old(self).leads_to(r, *final(self)),
    {
        if available >= self.start && available - self.start >= self.chunk_samples {
            let end: u64 = self.start + self.chunk_samples;
            let window = Window { index: self.next_index as usize, start: self.start, end };
            self.next_index = self.next_index + 1;
            self.covered = end;
            self.start = end - self.overlap_samples;
            return NextChunk::Chunk { window };
        }
        if !ended {
            return NextChunk::NeedMore;
        }
        if available <= self.covered {
            return NextChunk::EndOfAudio;
        }
        let window = Window {
            index: self.next_index as usize,
            start: self.start,
            end: available,
        };
        self.next_index = self.next_index + 1;
        self.covered = available;
        self.start = available;
        NextChunk::Chunk { window }
    }
}

/// At which of its borders a chunk is faded: at its beginning unless the audio begins there, and at
/// its end unless the audio ends there.
pub open spec fn faded_at(start: int, end: int, available: int, ended: bool) -> (bool, bool) {
    (start > 0, !(ended && end == available))
}

/// Whether a chunk is faded in and out, where `available` samples of the audio are there, and it
/// has `ended` with them or not.
pub fn fades(window: Window, available: u64, ended: bool) -> (r: (bool, bool))
    ensures
        r.0 == (window.start > 0),
        r.1 == !(ended && window.end == available),
        r == faded_at(window.start as int, window.end as int, available as int, ended),
{
    (window.start > 0, !(ended && window.end == available))
}

/// Only borders between chunks are faded: no chunk at the very beginning of the audio, nor at its
/// very end. So it is for a whole recording, where `start` is zero, and for one that is continued:
/// its first chunk has a border with those of the run before.
pub proof fn only_inner_borders_are_faded(
    index: int,
    start: int,
    covered: int,
    chunk: int,
    overlap: int,
    total: int,
)
    requires
        0 <= start,
        0 <= overlap < chunk,
        start <= covered <= start + overlap,
        covered <= total,
    ensures
        ({
            let ws = windows(index, start, covered, chunk, overlap, total);
            forall|k: int|
                #![trigger ws[k]]
                0 <= k < ws.len() ==> faded_at(ws[k].1, ws[k].2, total, true) == (
                    start > 0 || k > 0,
                    k + 1 < ws.len(),
                )
        }),
{
    windows_cover_the_audio(index, start, covered, chunk, overlap, total);
    let ws = windows(index, start, covered, chunk, overlap, total);
    let step = chunk - overlap;
    assert forall|k: int| #![trigger ws[k]] 0 <= k < ws.len() implies faded_at(
        ws[k].1,
        ws[k].2,
        total,
        true,
    ) == (start > 0 || k > 0, k + 1 < ws.len()) by {
        assert(k > 0 ==> k * step > 0) by (nonlinear_arith)
            requires
                step > 0,
        ;
        assert(k == 0 ==> k * step == 0) by (nonlinear_arith);
        if k + 1 == ws.len() {
            assert(ws.last() == ws[k]);
        }
    }
}

/// A new decoder that is sent `seconds` into the audio, to chunk `resume_from_chunk`, numbers its
/// next chunk so, whatever audio is there. At the start of the audio there is nothing to continue:
/// the next chunk is the first one. Where the audio reaches further, there is a next chunk.
pub proof fn numbering_continues_behind_a_seek(
    fresh: StreamingDecoder,
    seconds: Binary32,
    position: u64,
    resume_from_chunk: usize,
    after: StreamingDecoder,
    available: u64,
    ended: bool,
)
    requires
        fresh.at(0, 0),
        fresh.sought(seconds, position, resume_from_chunk, after),
    ensures
        after.decision(available, ended) matches NextChunk::Chunk { window } ==> {
            &&& Binary32::zero_number().below(seconds) ==> window.index == resume_from_chunk
                && window.start == position
            &&& !seconds.nan() && !Binary32::zero_number().below(seconds) ==> window.index == 0
                && window.start == 0
        },
        ended && position < available ==> after.decision(available, ended) is Chunk,
        ended && !seconds.nan() && !Binary32::zero_number().below(seconds) && 0 < available
            ==> after.decision(available, ended) is Chunk,
        after.next_index <= usize::MAX,
{
}

/// The chunks of a stream of `total` samples from `start` on, where everything before `covered`
/// is in a chunk already: whole chunks that advance by a chunk less the overlap, and a shorter
/// last one for what is left.
pub open spec fn windows(
    index: int,
    start: int,
    covered: int,
    chunk: int,
    overlap: int,
    total: int,
) -> Seq<(int, int, int)>
    decreases total - start,
{
    if overlap < chunk && 0 <= overlap && start + chunk <= total {
        seq![(index, start, start + chunk)] + windows(
            index + 1,
            start + chunk - overlap,
            start + chunk,
            chunk,
            overlap,
            total,
        )
    } else if covered < total {
        seq![(index, start, total)]
    } else {
        Seq::empty()
    }
}

/// Chunks are numbered one after the other; each begins where the last ended or inside it, by the
/// overlap; together they reach from the start to the end of the audio, with nothing left out.
pub proof fn windows_cover_the_audio(
    index: int,
    start: int,
    covered: int,
    chunk: int,
    overlap: int,
    total: int,
)
    requires
        0 <= overlap < chunk,
        start <= covered <= start + overlap,
        covered <= total,
    ensures
        ({
            let ws = windows(index, start, covered, chunk, overlap, total);
            &&& forall|k: int|
                #![trigger ws[k]]
                0 <= k < ws.len() ==> {
                    &&& ws[k].0 == index + k
                    &&& ws[k].1 == start + k * (chunk - overlap)
                    &&& ws[k].1 < ws[k].2 <= ws[k].1 + chunk
                    &&& k + 1 < ws.len() ==> ws[k].2 == ws[k].1 + chunk && ws[k].2 < total
                }
            &&& ws.len() == 0 <==> covered == total
            &&& ws.len() > 0 ==> ws[0].1 == start && ws.last().2 == total
        }),
    decreases total - start,
{
    let ws = windows(index, start, covered, chunk, overlap, total);
    if start + chunk <= total {
        let next = start + chunk - overlap;
        let rest = windows(index + 1, next, start + chunk, chunk, overlap, total);
        windows_cover_the_audio(index + 1, next, start + chunk, chunk, overlap, total);
        assert(ws == seq![(index, start, start + chunk)] + rest);
        let step = chunk - overlap;
        assert forall|k: int| #![trigger ws[k]] 0 <= k < ws.len() implies {
            &&& ws[k].0 == index + k
            &&& ws[k].1 == start + k * (chunk - overlap)
            &&& ws[k].1 < ws[k].2 <= ws[k].1 + chunk
            &&& k + 1 < ws.len() ==> ws[k].2 == ws[k].1 + chunk && ws[k].2 < total
        } by {
            if k > 0 {
                assert(ws[k] == rest[k - 1]);
                assert(next + (k - 1) * step == start + k * step) by (nonlinear_arith)
                    requires
                        next == start + step,
                ;
            }
        }
        if rest.len() > 0 {
            assert(ws.last() == rest.last());
        } else {
            assert(ws.len() == 1);
        }
    } else if covered < total {
        assert(ws[0].1 == start + 0 * (chunk - overlap));
    }
}

/// A decoder that has all of the audio before it cuts it exactly into these windows: its next
/// chunk is the first of them, and it goes on with the rest.
pub proof fn decoder_follows_windows(before: StreamingDecoder, after: StreamingDecoder, total: u64, made: NextChunk)
    requires
        before.wf(),
        before.next_index <= usize::MAX,
        before.covered <= total,
        made == before.decision(total, true),
        before.leads_to(made, after),
    ensures
        ({
            let planned = windows(
                before.next_index as int,
                before.start as int,
                before.covered as int,
                before.chunk_samples as int,
                before.overlap_samples as int,
                total as int,
            );
            match made {
                NextChunk::Chunk { window } => planned == seq![
                    (window.index as int, window.start as int, window.end as int),
                ] + windows(
                    after.next_index as int,
                    after.start as int,
                    after.covered as int,
                    after.chunk_samples as int,
                    after.overlap_samples as int,
                    total as int,
                ),
                _ => planned.len() == 0,
            }
        }),
{
    let rest = windows(
        after.next_index as int,
        after.start as int,
        after.covered as int,
        after.chunk_samples as int,
        after.overlap_samples as int,
        total as int,
    );
    if let NextChunk::Chunk { window } = made {
        if before.start + before.chunk_samples > total {
            assert(rest.len() == 0);
            assert(seq![(window.index as int, window.start as int, window.end as int)] + rest
                == seq![(window.index as int, window.start as int, window.end as int)]);
        }
    }
}

} // verus!

//! What goes into the speech model and what is kept of what comes out.
use crate::binary32::Binary32;
use crate::config::WhisperConfig;
use crate::text;
use std::collections::HashMap;
use vstd::prelude::*;
use vstd::string::*;

verus! {

broadcast use vstd::std_specs::hash::group_hash_axioms;

/// What the model made of one chunk.
#[derive(Debug)]
pub struct ChunkTranscription {
    pub text: String,
    /// Mean log probability of the tokens; zero without tokens.
    pub avg_logprob: Binary32,
    /// The highest among the segments: one that is no speech is what matters, not the mean.
    pub no_speech_prob: Binary32,
    /// Shannon entropy of the token frequencies; low where the model repeats itself.
    pub entropy: Binary32,
    /// Segments that could be read.
    pub segment_count: usize,
}

/// `ChunkTranscription` with its text by its characters.
#[verifier::ext_equal]
pub struct ChunkTranscriptionView {
    pub text: Seq<char>,
    pub avg_logprob: Binary32,
    pub no_speech_prob: Binary32,
    pub entropy: Binary32,
    pub segment_count: usize,
}

impl View for ChunkTranscription {
    type V = ChunkTranscriptionView;

    open spec fn view(&self) -> ChunkTranscriptionView {
        ChunkTranscriptionView {
            text: self.text@,
            avg_logprob: self.avg_logprob,
            no_speech_prob: self.no_speech_prob,
            entropy: self.entropy,
            segment_count: self.segment_count,
        }
    }
}

/// How the model picks among tokens.
#[derive(Debug, Clone, Copy, PartialEq, Eq, Structural)]
pub enum Sampling {
    Greedy { best_of: i32 },
    BeamSearch { beam_size: i32, patience: Binary32 },
}

/// All parameters of one decoding.
#[derive(Debug)]
pub struct DecodingParams {
    pub sampling: Sampling,
    pub language: String,
    pub translate: bool,
    pub print_progress: bool,
    pub print_special: bool,
    pub no_context: bool,
    pub entropy_thold: Binary32,
    pub suppress_blank: bool,
    pub suppress_nst: bool,
    pub initial_prompt: String,
    pub temperature: Binary32,
    pub temperature_inc: Binary32,
    pub logprob_thold: Binary32,
    pub no_speech_thold: Binary32,
    pub single_segment: bool,
    pub token_timestamps: bool,
    pub split_on_word: bool,
    pub n_threads: i32,
}

/// Beam search over five beams unless greedy decoding was asked for.
pub open spec fn sampling_of(tuning: WhisperConfig, use_greedy: bool) -> Sampling {
    if use_greedy {
        Sampling::Greedy { best_of: tuning.greedy_best_of }
    } else {
        Sampling::BeamSearch { beam_size: 5, patience: Binary32 { bits: 0xbf80_0000 } }
    }
}

/// What the model remembers of its settings between chunks.
#[derive(Debug)]
pub struct WhisperRunner {
    pub tuning: WhisperConfig,
    pub use_greedy: bool,
}

impl WhisperRunner {
    /// A runner with these settings; `--greedy` among the arguments asks for greedy decoding.
    pub fn new(tuning: WhisperConfig, args: &Vec<String>) -> (r: WhisperRunner)
        ensures
            r.tuning == tuning,
            r.use_greedy == text::texts(args@).contains("--greedy"@),
    {
        let use_greedy = text::any_is(args, "--greedy");
        WhisperRunner { tuning, use_greedy }
    }

    /// The parameters of the next decoding. `force_fresh_context` makes the model forget the text
    /// it wrote last.
    pub fn build_params(&self, force_fresh_context: bool) -> (r: DecodingParams)
        ensures
            r.sampling == sampling_of(self.tuning, self.use_greedy),
            r.language@ == "es"@,
            !r.translate,
            !r.print_progress,
            !r.print_special,
            r.no_context == force_fresh_context,
            r.entropy_thold == self.tuning.entropy_thold,
            r.suppress_blank == self.tuning.suppress_blank,
            r.suppress_nst == self.tuning.suppress_nst,
            r.initial_prompt@ == self.tuning.initial_prompt@,
            r.temperature == self.tuning.temperature,
            r.temperature_inc == self.tuning.temperature_inc,
            r.logprob_thold == self.tuning.logprob_thold,
            r.no_speech_thold == self.tuning.no_speech_thold,
            r.single_segment == self.tuning.single_segment,
            r.token_timestamps == self.tuning.token_timestamps,
            r.split_on_word == self.tuning.split_on_word,
            r.n_threads == self.tuning.n_threads,
    {
        let sampling = if self.use_greedy {
            Sampling::Greedy { best_of: self.tuning.greedy_best_of }
        } else {
            Sampling::BeamSearch { beam_size: 5, patience: Binary32 { bits: 0xbf80_0000 } }
        };
        DecodingParams {
            sampling,
            language: "es".to_owned(),
            translate: false,
            print_progress: false,
            print_special: false,
            no_context: force_fresh_context,
            entropy_thold: self.tuning.entropy_thold,
            suppress_blank: self.tuning.suppress_blank,
            suppress_nst: self.tuning.suppress_nst,
            initial_prompt: self.tuning.initial_prompt.clone(),
            temperature: self.tuning.temperature,
            temperature_inc: self.tuning.temperature_inc,
            logprob_thold: self.tuning.logprob_thold,
            no_speech_thold: self.tuning.no_speech_thold,
            single_segment: self.tuning.single_segment,
            token_timestamps: self.tuning.token_timestamps,
            split_on_word: self.tuning.split_on_word,
            n_threads: self.tuning.n_threads,
        }
    }
}

/// One segment of what the model wrote.
#[derive(Debug)]
pub struct Segment {
    /// Its text, or why it could not be read.
    pub text: Result<String, String>,
    pub no_speech_prob: Binary32,
    /// The vocabulary numbers of its tokens; `None` for one that could not be read.
    pub tokens: Vec<Option<i32>>,
}

/// `Segment` with texts by their characters.
#[verifier::ext_equal]
pub struct SegmentView {
    pub text: Result<Seq<char>, Seq<char>>,
    pub no_speech_prob: Binary32,
    pub tokens: Seq<Option<i32>>,
}

impl View for Segment {
    type V = SegmentView;

    open spec fn view(&self) -> SegmentView {
        SegmentView {
            text: match self.text {
                Ok(s) => Ok(s@),
                Err(e) => Err(e@),
            },
            no_speech_prob: self.no_speech_prob,
            tokens: self.tokens@,
        }
    }
}

/// The segments of a chunk, `None` for one that is not there.
pub open spec fn segments_view(s: Seq<Option<Segment>>) -> Seq<Option<SegmentView>> {
    s.map_values(|o: Option<Segment>| segment_view(o))
}

pub open spec fn segment_view(o: Option<Segment>) -> Option<SegmentView> {
    match o {
        Some(seg) => Some(seg@),
        None => None,
    }
}

/// The larger of two numbers; what is not a number never wins.
pub open spec fn larger(a: Binary32, b: Binary32) -> Binary32 {
    if a.below(b) {
        b
    } else {
        a
    }
}

/// What is counted over the segments of a chunk.
#[verifier::ext_equal]
pub struct TallyView {
    pub text: Seq<char>,
    pub no_speech_prob: Binary32,
    pub segment_count: nat,
    /// The tokens that could be read, in order.
    pub tokens: Seq<i32>,
}

/// The tokens that could be read.
pub open spec fn readable(tokens: Seq<Option<i32>>) -> Seq<i32>
    decreases tokens.len(),
{
    if tokens.len() == 0 {
        Seq::empty()
    } else {
        match tokens.last() {
            Some(id) => readable(tokens.drop_last()).push(id),
            None => readable(tokens.drop_last()),
        }
    }
}

/// The tally of these segments. The text of each is taken as it stands, one behind the other.
pub open spec fn tally_of(segments: Seq<Option<SegmentView>>) -> TallyView
    decreases segments.len(),
{
    if segments.len() == 0 {
        TallyView {
            text: Seq::empty(),
            no_speech_prob: Binary32::zero_number(),
            segment_count: 0,
            tokens: Seq::empty(),
        }
    } else {
        let t = tally_of(segments.drop_last());
        match segments.last() {
            Some(s) => TallyView {
                text: t.text + s.text->Ok_0,
                no_speech_prob: larger(t.no_speech_prob, s.no_speech_prob),
                segment_count: t.segment_count + 1,
                tokens: t.tokens + readable(s.tokens),
            },
            None => t,
        }
    }
}

/// The first segment whose text cannot be read, and why.
pub open spec fn unreadable(segments: Seq<Option<SegmentView>>) -> Option<Seq<char>>
    decreases segments.len(),
{
    if segments.len() == 0 {
        None
    } else if unreadable(segments.drop_last()) is Some {
        unreadable(segments.drop_last())
    } else {
        match segments.last() {
            Some(s) => match s.text {
                Ok(_) => None,
                Err(e) => Some(e),
            },
            None => None,
        }
    }
}

/// All tokens of these segments, readable or not.
pub open spec fn token_slots(segments: Seq<Option<SegmentView>>) -> nat
    decreases segments.len(),
{
    if segments.len() == 0 {
        0
    } else {
        token_slots(segments.drop_last()) + (match segments.last() {
            Some(s) => s.tokens.len(),
            None => 0,
        })
    }
}

/// How often `id` occurs.
pub open spec fn occurrences(tokens: Seq<i32>, id: i32) -> nat
    decreases tokens.len(),
{
    if tokens.len() == 0 {
        0
    } else {
        occurrences(tokens.drop_last(), id) + (if tokens.last() == id {
            1nat
        } else {
            0nat
        })
    }
}

/// The frequencies of `tokens`, by vocabulary number.
pub open spec fn counts(m: Map<i32, u32>, tokens: Seq<i32>) -> bool {
    &&& forall|id: i32| m.contains_key(id) <==> #[trigger] occurrences(tokens, id) > 0
    &&& forall|id: i32| m.contains_key(id) ==> #[trigger] m[id] == occurrences(tokens, id)
}

/// What is counted over the segments of a chunk.
#[derive(Debug)]
pub struct Tally {
    pub text: String,
    pub no_speech_prob: Binary32,
    pub segment_count: usize,
    pub token_count: u32,
    pub token_id_counts: HashMap<i32, u32>,
}

impl Tally {
    /// This is the tally `t`.
    pub open spec fn agrees(&self, t: TallyView) -> bool {
        &&& self.text@ == t.text
        &&& self.no_speech_prob == t.no_speech_prob
        &&& self.segment_count == t.segment_count
        &&& self.token_count == t.tokens.len()
        &&& counts(self.token_id_counts@, t.tokens)
    }

    fn new() -> (r: Tally)
        ensures
            r.agrees(tally_of(Seq::empty())),
    {
        Tally {
            text: String::new(),
            no_speech_prob: Binary32::zero(),
            segment_count: 0,
            token_count: 0,
            token_id_counts: HashMap::new(),
        }
    }

    /// Closes the tally with the mean and the entropy computed from it, which are zero where
    /// there are no tokens.
    pub fn finish(self, avg_logprob: Binary32, entropy: Binary32) -> (r: ChunkTranscription)
        ensures
            r@ == (ChunkTranscriptionView {
                text: self.text@,
                avg_logprob: if self.token_count > 0 {
                    avg_logprob
                } else {
                    Binary32::zero_number()
                },
                no_speech_prob: self.no_speech_prob,
                entropy: if self.token_count > 0 {
                    entropy
                } else {
                    Binary32::zero_number()
                },
                segment_count: self.segment_count,
            }),
    {
        let some = self.token_count > 0;
        ChunkTranscription {
            text: self.text,
            avg_logprob: if some {
                avg_logprob
            } else {
                Binary32::zero()
            },
            no_speech_prob: self.no_speech_prob,
            entropy: if some {
                entropy
            } else {
                Binary32::zero()
            },
            segment_count: self.segment_count,
        }
    }
}

proof fn lemma_occurrences_bound(tokens: Seq<i32>, id: i32)
    ensures
        occurrences(tokens, id) <= tokens.len(),
    decreases tokens.len(),
{
    if tokens.len() > 0 {
        lemma_occurrences_bound(tokens.drop_last(), id);
    }
}

proof fn lemma_readable_bound(tokens: Seq<Option<i32>>)
    ensures
        readable(tokens).len() <= tokens.len(),
    decreases tokens.len(),
{
    if tokens.len() > 0 {
        lemma_readable_bound(tokens.drop_last());
    }
}

proof fn lemma_tally_bound(segments: Seq<Option<SegmentView>>)
    ensures
        tally_of(segments).tokens.len() <= token_slots(segments),
        tally_of(segments).segment_count <= segments.len(),
    decreases segments.len(),
{
    if segments.len() > 0 {
        lemma_tally_bound(segments.drop_last());
        match segments.last() {
            Some(s) => lemma_readable_bound(s.tokens),
            None => {},
        }
    }
}

proof fn lemma_slots_grow(segments: Seq<Option<SegmentView>>, i: int)
    requires
        0 <= i <= segments.len(),
    ensures
        token_slots(segments.take(i)) <= token_slots(segments),
    decreases segments.len() - i,
{
    if i == segments.len() {
        assert(segments.take(i) == segments);
    } else {
        lemma_slots_grow(segments, i + 1);
        assert(segments.take(i + 1).drop_last() == segments.take(i));
    }
}

proof fn lemma_unreadable_stays(segments: Seq<Option<SegmentView>>, i: int)
    requires
        0 <= i <= segments.len(),
        unreadable(segments.take(i)) is Some,
    ensures
        unreadable(segments) == unreadable(segments.take(i)),
    decreases segments.len() - i,
{
    if i == segments.len() {
        assert(segments.take(i) == segments);
    } else {
        assert(segments.take(i + 1).drop_last() == segments.take(i));
        lemma_unreadable_stays(segments, i + 1);
    }
}

/// Gathers what the model wrote for one chunk. Fails on the first segment whose text cannot be
/// read.
pub fn transcribe_chunk(segments: &Vec<Option<Segment>>) -> (r: Result<Tally, String>)
    requires
        token_slots(segments_view(segments@)) <= u32::MAX,
    ensures
        match r {
            Ok(t) => {
                &&& unreadable(segments_view(segments@)) is None
                &&& t.agrees(tally_of(segments_view(segments@)))
            },
            Err(e) => unreadable(segments_view(segments@)) == Some(e@),
        },
{
    let n: usize = segments.len();
    let mut tally = Tally::new();
    let ghost all = segments_view(segments@);
    let mut i: usize = 0;
    assert(all.take(0) == Seq::<Option<SegmentView>>::empty());
    while i < n
        invariant
            n == segments@.len(),
            all == segments_view(segments@),
            i <= n,
            token_slots(all) <= u32::MAX,
            unreadable(all.take(i as int)) is None,
            tally.agrees(tally_of(all.take(i as int))),
        decreases n - i,
    {
        let ghost head = all.take(i as int);
        let ghost next = all.take(i + 1);
        assert(next.drop_last() == head);
        assert(next.last() == segment_view(segments@[i as int]));
        proof {
            lemma_tally_bound(head);
            lemma_tally_bound(next);
            lemma_slots_grow(all, i + 1);
        }
        match &segments[i] {
            None => {},
            Some(segment) => {
                match &segment.text {
                    Err(e) => {
                        proof {
                            lemma_unreadable_stays(all, i + 1);
                        }
                        return Err(e.clone());
                    },
                    Ok(s) => {
                        tally.text.push_str(s.as_str());
                    },
                }
                tally.segment_count = tally.segment_count + 1;
                if tally.no_speech_prob.is_below(segment.no_speech_prob) {
                    tally.no_speech_prob = segment.no_speech_prob;
                }
                let ghost t0 = tally_of(head);
                let mut j: usize = 0;
                let m: usize = segment.tokens.len();
                assert(segment.tokens@.take(0) == Seq::<Option<i32>>::empty());
                assert(t0.tokens + readable(segment.tokens@.take(0)) == t0.tokens);
                while j < m
                    invariant
                        m == segment.tokens@.len(),
                        j <= m,
                        tally.text@ == t0.text + segment.text->Ok_0@,
                        tally.no_speech_prob == larger(t0.no_speech_prob, segment.no_speech_prob),
                        tally.segment_count == t0.segment_count + 1,
                        tally.token_count == (t0.tokens + readable(
                            segment.tokens@.take(j as int),
                        )).len(),
                        counts(
                            tally.token_id_counts@,
                            t0.tokens + readable(segment.tokens@.take(j as int)),
                        ),
                        t0.tokens.len() + m <= u32::MAX,
                    decreases m - j,
                {
                    let ghost seen = t0.tokens + readable(segment.tokens@.take(j as int));
                    assert(segment.tokens@.take(j + 1).drop_last() == segment.tokens@.take(
                        j as int,
                    ));
                    proof {
                        lemma_readable_bound(segment.tokens@.take(j as int));
                    }
                    match segment.tokens[j] {
                        None => {},
                        Some(id) => {
                            let before: u32 = match tally.token_id_counts.get(&id) {
                                Some(c) => *c,
                                None => 0,
                            };
                            proof {
                                lemma_occurrences_bound(seen, id);
                                assert(before == occurrences(seen, id));
                                let now = t0.tokens + readable(segment.tokens@.take(j + 1));
                                assert(now == seen.push(id));
                                assert(now.drop_last() == seen);
                                assert(forall|k: i32| #[trigger]
                                    occurrences(now, k) == occurrences(seen, k) + (if k == id {
                                        1nat
                                    } else {
                                        0nat
                                    }));
                            }
                            tally.token_id_counts.insert(id, before + 1);
                            tally.token_count = tally.token_count + 1;
                        },
                    }
                    j = j + 1;
                }
                assert(segment.tokens@.take(j as int) == segment.tokens@);
            },
        }
        i = i + 1;
    }
    assert(all.take(i as int) == all);
    Ok(tally)
}

/// A tally goes segment by segment: the text of two stretches is the text of the first and then of
/// the second, and so are the tokens; the segments add up; and of the probabilities that it is no
/// speech the higher one counts. A segment that is not there counts for nothing.
pub proof fn tallies_add_up(a: Seq<Option<SegmentView>>, b: Seq<Option<SegmentView>>)
    ensures
        tally_of(a + b).text == tally_of(a).text + tally_of(b).text,
        tally_of(a + b).tokens == tally_of(a).tokens + tally_of(b).tokens,
        tally_of(a + b).segment_count == tally_of(a).segment_count + tally_of(b).segment_count,
    decreases b.len(),
{
    if b.len() == 0 {
        assert(a + b == a);
        assert(tally_of(a).text + tally_of(b).text == tally_of(a).text);
        assert(tally_of(a).tokens + tally_of(b).tokens == tally_of(a).tokens);
    } else {
        tallies_add_up(a, b.drop_last());
        assert((a + b).drop_last() == a + b.drop_last());
        assert((a + b).last() == b.last());
        if let Some(s) = b.last() {
            let t = tally_of(b.drop_last());
            assert(tally_of(a).text + (t.text + s.text->Ok_0) == (tally_of(a).text + t.text)
                + s.text->Ok_0);
            assert(tally_of(a).tokens + (t.tokens + readable(s.tokens)) == (tally_of(a).tokens
                + t.tokens) + readable(s.tokens));
        }
    }
}

/// The tally of one segment is that segment: its text as it stands, its tokens that could be read,
/// and its probability that it is no speech where that is above zero.
pub proof fn tally_of_one_segment(s: SegmentView)
    ensures
        ({
            let t = tally_of(seq![Some(s)]);
            &&& s.text matches Ok(words) ==> t.text == words
            &&& t.segment_count == 1
            &&& t.tokens == readable(s.tokens)
            &&& Binary32::zero_number().below(s.no_speech_prob) ==> t.no_speech_prob
                == s.no_speech_prob
            &&& !Binary32::zero_number().below(s.no_speech_prob) ==> t.no_speech_prob
                == Binary32::zero_number()
            &&& tally_of(seq![None]).segment_count == 0
            &&& tally_of(seq![None]).text.len() == 0
            &&& tally_of(seq![None]).tokens.len() == 0
        }),
{
    let one = seq![Some(s)];
    let none = seq![None::<SegmentView>];
    assert(one.drop_last() =~= Seq::<Option<SegmentView>>::empty());
    assert(none.drop_last() =~= Seq::<Option<SegmentView>>::empty());
    let t = tally_of(one.drop_last());
    assert(t.text.len() == 0);
    assert(t.text + s.text->Ok_0 =~= s.text->Ok_0);
    assert(t.tokens + readable(s.tokens) =~= readable(s.tokens));
}

/// The probability that a chunk is no speech is the highest among its segments: none is above it,
/// and it is that of one of them, or zero.
pub proof fn no_speech_is_the_highest(segments: Seq<Option<SegmentView>>)
    ensures
        ({
            let top = tally_of(segments).no_speech_prob;
            &&& !top.nan()
            &&& forall|i: int|
                0 <= i < segments.len() ==> ((#[trigger] segments[i]) matches Some(s) ==> !top.below(
                    s.no_speech_prob,
                ))
            &&& top == Binary32::zero_number() || exists|i: int|
                0 <= i < segments.len() && ((#[trigger] segments[i]) matches Some(s)
                    && s.no_speech_prob == top)
        }),
    decreases segments.len(),
{
    if segments.len() > 0 {
        let head = segments.drop_last();
        no_speech_is_the_highest(head);
        let top = tally_of(segments).no_speech_prob;
        let old_top = tally_of(head).no_speech_prob;
        assert forall|i: int| 0 <= i < segments.len() implies ((#[trigger] segments[i]) matches Some(
            s,
        ) ==> !top.below(s.no_speech_prob)) by {
            if i < head.len() {
                assert(segments[i] == head[i]);
            }
        }
        if top != Binary32::zero_number() {
            if top == old_top {
                let i = choose|i: int|
                    0 <= i < head.len() && ((#[trigger] head[i]) matches Some(s)
                        && s.no_speech_prob == old_top);
                assert(segments[i] == head[i]);
            } else {
                assert(segments[segments.len() - 1] == segments.last());
            }
        }
    }
}

/// A chunk fails exactly if one of its segments could not be read, and with the reason of the
/// first such segment.
pub proof fn first_unreadable_segment_fails(segments: Seq<Option<SegmentView>>)
    ensures
        unreadable(segments) is None <==> forall|i: int|
            0 <= i < segments.len() ==> ((#[trigger] segments[i]) matches Some(s) ==> s.text is Ok),
        unreadable(segments) matches Some(reason) ==> exists|i: int|
            {
                &&& 0 <= i < segments.len()
                &&& (#[trigger] segments[i]) matches Some(s)
                &&& s.text == Err::<Seq<char>, Seq<char>>(reason)
                &&& forall|j: int|
                    0 <= j < i ==> ((#[trigger] segments[j]) matches Some(t) ==> t.text is Ok)
            },
    decreases segments.len(),
{
    if segments.len() > 0 {
        let head = segments.drop_last();
        first_unreadable_segment_fails(head);
        let n = segments.len() - 1;
        assert(segments[n] == segments.last());
        assert forall|i: int| 0 <= i < head.len() implies #[trigger] segments[i] == head[i] by {}
        if unreadable(head) is None {
            assert forall|j: int| 0 <= j < n implies ((#[trigger] segments[j]) matches Some(t)
                ==> t.text is Ok) by {
                assert(segments[j] == head[j]);
            }
        } else {
            let reason = unreadable(head)->0;
            let i = choose|i: int|
                {
                    &&& 0 <= i < head.len()
                    &&& (#[trigger] head[i]) matches Some(s)
                    &&& s.text == Err::<Seq<char>, Seq<char>>(reason)
                    &&& forall|j: int|
                        0 <= j < i ==> ((#[trigger] head[j]) matches Some(t) ==> t.text is Ok)
                };
            assert(segments[i] == head[i]);
            assert forall|j: int| 0 <= j < i implies ((#[trigger] segments[j]) matches Some(t)
                ==> t.text is Ok) by {
                assert(segments[j] == head[j]);
            }
        }
    }
}

/// The model searches beams, five of them, unless greedy decoding was asked for; then it picks
/// among as many as the settings say.
pub proof fn sampling_is_by_beams_unless_greedy(tuning: WhisperConfig)
    ensures
        sampling_of(tuning, true) == (Sampling::Greedy { best_of: tuning.greedy_best_of }),
        sampling_of(tuning, false) matches Sampling::BeamSearch { beam_size, patience }
            && beam_size == 5 && patience.bits == 0xbf80_0000,
{
}

/// The tokens that count are those that could be read, in order, each once.
pub proof fn readable_tokens_are_kept_in_order(
    a: Seq<Option<i32>>,
    b: Seq<Option<i32>>,
    id: i32,
)
    ensures
        readable(a + b) == readable(a) + readable(b),
        readable(seq![Some(id)]) == seq![id],
        readable(seq![None]).len() == 0,
    decreases b.len(),
{
    let one = seq![Some(id)];
    let none = seq![None::<i32>];
    assert(one.drop_last() =~= Seq::<Option<i32>>::empty());
    assert(none.drop_last() =~= Seq::<Option<i32>>::empty());
    assert(readable(one.drop_last()).len() == 0);
    assert(readable(one) =~= seq![id]);
    if b.len() == 0 {
        assert(a + b == a);
        assert(readable(a) + readable(b) == readable(a));
    } else {
        readable_tokens_are_kept_in_order(a, b.drop_last(), id);
        assert((a + b).drop_last() == a + b.drop_last());
        assert((a + b).last() == b.last());
    }
}

/// Tokens are counted one by one, each for its own number.
pub proof fn tokens_are_counted_for_themselves(a: Seq<i32>, b: Seq<i32>, id: i32, other: i32)
    ensures
        occurrences(a + b, id) == occurrences(a, id) + occurrences(b, id),
        occurrences(seq![other], id) == (if other == id {
            1nat
        } else {
            0nat
        }),
    decreases b.len(),
{
    let one = seq![other];
    assert(one.drop_last() =~= Seq::<i32>::empty());
    assert(occurrences(one.drop_last(), id) == 0);
    if b.len() == 0 {
        assert(a + b == a);
    } else {
        tokens_are_counted_for_themselves(a, b.drop_last(), id, other);
        assert((a + b).drop_last() == a + b.drop_last());
        assert((a + b).last() == b.last());
    }
}

} // verus!

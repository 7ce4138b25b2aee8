//! The greedy transducer search.
//!
//! The search walks over the frames of an encoded utterance. At each step a
//! prediction, a token and a duration, is made for the current frame. A token
//! other than the blank is written down and the search stays at the frame; the
//! blank moves it on.

use vstd::prelude::*;

verus! {

/// The number of tokens after which the search leaves a frame.
pub const MAX_TOKENS_PER_STEP: usize = 10;

/// How far a search has come.
#[verifier::ext_equal]
pub struct Progress {
    /// The token that stands for silence.
    pub blank: usize,
    /// The number of frames.
    pub time_steps: usize,
    /// The current frame; the number of frames once the search is over.
    pub frame: usize,
    /// The number of tokens written since the search came to the frame.
    pub emitted: usize,
    /// The token written last, or the blank, as the network is told of it.
    pub last_token: i32,
    /// The tokens written so far.
    pub tokens: Seq<usize>,
    /// For each token the frame at which it was written.
    pub frames: Seq<usize>,
    /// For each token the duration that was predicted with it.
    pub durations: Seq<usize>,
}

/// A search over `time_steps` frames that has not begun.
pub open spec fn beginning(blank: usize, time_steps: usize) -> Progress {
    Progress {
        blank,
        time_steps,
        frame: 0,
        emitted: 0,
        last_token: blank as i32,
        tokens: Seq::empty(),
        frames: Seq::empty(),
        durations: Seq::empty(),
    }
}

/// The frame that lies `by` frames further on, or the end.
pub open spec fn moved(p: Progress, by: int) -> usize {
    if p.frame + by < p.time_steps {
        (p.frame + by) as usize
    } else {
        p.time_steps
    }
}

/// One step of the search.
///
/// A token other than the blank is written down; the search stays at the frame
/// unless this was the last token that a frame may have. The blank moves the search
/// on: by the predicted duration, if there is one and tokens were written at this
/// frame, else by one frame.
pub open spec fn next(p: Progress, token: usize, duration: usize) -> Progress {
    if token != p.blank {
        let full = p.emitted + 1 >= MAX_TOKENS_PER_STEP;
        Progress {
            frame: if full {
                moved(p, 1)
            } else {
                p.frame
            },
            emitted: if full {
                0
            } else {
                (p.emitted + 1) as usize
            },
            last_token: token as i32,
            tokens: p.tokens.push(token),
            frames: p.frames.push(p.frame),
            durations: p.durations.push(duration),
            ..p
        }
    } else {
        Progress {
            frame: moved(
                p,
                if duration > 0 && p.emitted > 0 {
                    duration as int
                } else {
                    1
                },
            ),
            emitted: 0,
            ..p
        }
    }
}

/// The search after a sequence of predictions.
pub open spec fn after(start: Progress, predictions: Seq<(usize, usize)>) -> Progress
    decreases predictions.len(),
{
    if predictions.len() == 0 {
        start
    } else {
        let (token, duration) = predictions.last();
        next(after(start, predictions.drop_last()), token, duration)
    }
}

/// Every one of the predictions was made while frames were left.
pub open spec fn made_in_time(start: Progress, predictions: Seq<(usize, usize)>) -> bool {
    forall|k: int|
        0 <= k < predictions.len() ==> (#[trigger] after(start, predictions.take(k))).frame
            < start.time_steps
}

/// How often `x` occurs in `s`.
pub open spec fn occurrences(s: Seq<usize>, x: usize) -> nat
    decreases s.len(),
{
    if s.len() == 0 {
        0
    } else {
        occurrences(s.drop_last(), x) + if s.last() == x {
            1nat
        } else {
            0nat
        }
    }
}

/// What holds of a search at all times.
pub open spec fn orderly(p: Progress) -> bool {
    // The search is at a frame, or over, and a frame that it stays at is not full.
    &&& p.frame <= p.time_steps
    &&& p.emitted < MAX_TOKENS_PER_STEP
    // Each token has its frame and its duration.
    &&& p.frames.len() == p.tokens.len()
    &&& p.durations.len() == p.tokens.len()
    // The blank is never written down.
    &&& forall|i: int| 0 <= i < p.tokens.len() ==> #[trigger] p.tokens[i] != p.blank
    // The frames are frames of the utterance, the search has come to them, and they
    // do not go back.
    &&& forall|i: int|
        0 <= i < p.frames.len() ==> #[trigger] p.frames[i] < p.time_steps && p.frames[i] <= p.frame
    &&& forall|i: int, j: int| 0 <= i <= j < p.frames.len() ==> p.frames[i] <= p.frames[j]
    // No frame has more tokens than it may have; the current one has those counted.
    &&& forall|f: usize| #[trigger] occurrences(p.frames, f) <= MAX_TOKENS_PER_STEP
    &&& occurrences(p.frames, p.frame) == p.emitted
    // The network is told of the last token.
    &&& p.last_token == if p.tokens.len() == 0 {
        p.blank as i32
    } else {
        p.tokens.last() as i32
    }
}

/// A greedy search.
#[derive(Debug)]
pub struct Search {
    pub blank_id: usize,
    pub time_steps: usize,
    pub frame: usize,
    pub emitted_tokens: usize,
    pub last_emitted_token: i32,
    pub tokens: Vec<usize>,
    pub frame_indices: Vec<usize>,
    pub durations: Vec<usize>,
}

impl View for Search {
    type V = Progress;

    open spec fn view(&self) -> Progress {
        Progress {
            blank: self.blank_id,
            time_steps: self.time_steps,
            frame: self.frame,
            emitted: self.emitted_tokens,
            last_token: self.last_emitted_token,
            tokens: self.tokens@,
            frames: self.frame_indices@,
            durations: self.durations@,
        }
    }
}

impl Search {
    /// A search over `time_steps` frames that has not begun.
    pub fn new(blank_id: usize, time_steps: usize) -> (search: Self)
        ensures
            search@ == beginning(blank_id, time_steps),
            orderly(search@),
    {
        Search {
            blank_id,
            time_steps,
            frame: 0,
            emitted_tokens: 0,
            last_emitted_token: #[verifier::truncate] (blank_id as i32),
            tokens: Vec::new(),
            frame_indices: Vec::new(),
            durations: Vec::new(),
        }
    }

    /// Whether no frame is left.
    pub fn is_over(&self) -> (over: bool)
        ensures
            over == (self@.frame >= self@.time_steps),
    {
        self.frame >= self.time_steps
    }

    /// Moves on by `by` frames, or to the end.
    fn advance(&mut self, by: usize)
        requires
            old(self)@.frame < old(self)@.time_steps,
        ensures
            final(self)@ == (Progress {
                frame: moved(old(self)@, by as int),
                emitted: 0,
                ..old(self)@
            }),
    {
        if by < self.time_steps - self.frame {
            self.frame = self.frame + by;
        } else {
            self.frame = self.time_steps;
        }
        self.emitted_tokens = 0;
    }

    /// Takes the prediction for the current frame. Says whether a token was written.
    pub fn step(&mut self, token_id: usize, duration_step: usize) -> (emitted: bool)
        requires
            orderly(old(self)@),
            old(self)@.frame < old(self)@.time_steps,
        ensures
            emitted == (token_id != old(self)@.blank),
            final(self)@ == next(old(self)@, token_id, duration_step),
            orderly(final(self)@),
    {
        proof {
            law_step_keeps_order(self@, token_id, duration_step);
        }
        if token_id != self.blank_id {
            let frame: usize = self.frame;
            self.tokens.push(token_id);
            self.frame_indices.push(frame);
            self.durations.push(duration_step);
            self.last_emitted_token = #[verifier::truncate] (token_id as i32);
            self.emitted_tokens = self.emitted_tokens + 1;
            if self.emitted_tokens >= MAX_TOKENS_PER_STEP {
                self.advance(1);
            }
            true
        } else {
            if duration_step > 0 && self.emitted_tokens > 0 {
                self.advance(duration_step);
            } else {
                self.advance(1);
            }
            false
        }
    }
}

/// Frames that the search has not come to have no tokens.
proof fn lemma_no_tokens_ahead(s: Seq<usize>, x: usize)
    requires
        forall|i: int| 0 <= i < s.len() ==> #[trigger] s[i] < x,
    ensures
        occurrences(s, x) == 0,
    decreases s.len(),
{
    if s.len() > 0 {
        let rest = s.drop_last();
        assert forall|i: int| 0 <= i < rest.len() implies #[trigger] rest[i] < x by {
            assert(rest[i] == s[i]);
        }
        lemma_no_tokens_ahead(rest, x);
    }
}

/// A step keeps what holds of a search, and brings it forward: the frame does not go
/// back, and either a token is written or the frame is left.
pub proof fn law_step_keeps_order(p: Progress, token: usize, duration: usize)
    requires
        orderly(p),
        p.frame < p.time_steps,
    ensures
        orderly(next(p, token, duration)),
        next(p, token, duration).blank == p.blank,
        next(p, token, duration).time_steps == p.time_steps,
        p.frame <= next(p, token, duration).frame,
        p.frame < next(p, token, duration).frame || next(p, token, duration).emitted == p.emitted
            + 1,
{
    let q = next(p, token, duration);
    if token != p.blank {
        assert(q.frames.drop_last() =~= p.frames);
        assert forall|f: usize| #[trigger] occurrences(q.frames, f) <= MAX_TOKENS_PER_STEP by {
            assert(occurrences(p.frames, f) <= MAX_TOKENS_PER_STEP);
        }
    }
    if q.frame > p.frame {
        lemma_no_tokens_ahead(q.frames, q.frame);
    }
}

/// Whatever is predicted, the search is orderly, and it is over after at most
/// [`MAX_TOKENS_PER_STEP`] predictions for each frame.
pub proof fn law_search_is_orderly_and_bounded(
    blank: usize,
    time_steps: usize,
    predictions: Seq<(usize, usize)>,
)
    requires
        made_in_time(beginning(blank, time_steps), predictions),
    ensures
        orderly(after(beginning(blank, time_steps), predictions)),
        after(beginning(blank, time_steps), predictions).blank == blank,
        after(beginning(blank, time_steps), predictions).time_steps == time_steps,
        predictions.len() <= MAX_TOKENS_PER_STEP * after(
            beginning(blank, time_steps),
            predictions,
        ).frame + after(beginning(blank, time_steps), predictions).emitted,
        predictions.len() <= MAX_TOKENS_PER_STEP * time_steps,
    decreases predictions.len(),
{
    let start = beginning(blank, time_steps);
    if predictions.len() > 0 {
        let rest = predictions.drop_last();
        assert forall|k: int| 0 <= k < rest.len() implies (#[trigger] after(
            start,
            rest.take(k),
        )).frame < start.time_steps by {
            assert(rest.take(k) =~= predictions.take(k));
        }
        law_search_is_orderly_and_bounded(blank, time_steps, rest);
        assert(predictions.take(rest.len() as int) =~= rest);
        assert(after(start, predictions.take(rest.len() as int)).frame < time_steps);
        law_step_keeps_order(after(start, rest), predictions.last().0, predictions.last().1);
    }
    let end = after(start, predictions);
    if end.frame == time_steps {
        if end.emitted > 0 {
            lemma_no_tokens_ahead(end.frames, end.frame);
        }
    }
}

/// The search writes down exactly the predicted tokens other than the blank, in
/// order, each with the duration predicted with it.
pub proof fn law_search_writes_what_is_predicted(
    blank: usize,
    time_steps: usize,
    predictions: Seq<(usize, usize)>,
)
    ensures
        after(beginning(blank, time_steps), predictions).blank == blank,
        after(beginning(blank, time_steps), predictions).tokens == predictions.filter(
            |p: (usize, usize)| p.0 != blank,
        ).map_values(|p: (usize, usize)| p.0),
        after(beginning(blank, time_steps), predictions).durations == predictions.filter(
            |p: (usize, usize)| p.0 != blank,
        ).map_values(|p: (usize, usize)| p.1),
    decreases predictions.len(),
{
    reveal(Seq::filter);
    let said = |p: (usize, usize)| p.0 != blank;
    if predictions.len() > 0 {
        let rest = predictions.drop_last();
        law_search_writes_what_is_predicted(blank, time_steps, rest);
        if said(predictions.last()) {
            assert(predictions.filter(said) =~= rest.filter(said).push(predictions.last()));
        } else {
            assert(predictions.filter(said) =~= rest.filter(said));
        }
    }
}

/// A predicted duration counts only on the blank that ends a frame at which tokens
/// were written: elsewhere the blank moves the search by one frame, whatever the
/// duration.
pub proof fn law_duration_counts_after_tokens(p: Progress, duration: usize)
    requires
        p.frame < p.time_steps,
    ensures
        p.emitted == 0 ==> next(p, p.blank, duration).frame == p.frame + 1,
        duration == 0 ==> next(p, p.blank, duration).frame == p.frame + 1,
        p.emitted > 0 && duration > 0 && p.frame + duration <= p.time_steps ==> next(
            p,
            p.blank,
            duration,
        ).frame == p.frame + duration,
        p.emitted > 0 && duration > 0 && p.frame + duration > p.time_steps ==> next(
            p,
            p.blank,
            duration,
        ).frame == p.time_steps,
{
}

/// A search begins at the first frame, with nothing written and the blank for the last
/// token.
pub proof fn law_search_begins_at_the_first_frame(blank: usize, time_steps: usize)
    ensures
        ({
            let p = beginning(blank, time_steps);
            &&& p.blank == blank
            &&& p.time_steps == time_steps
            &&& p.frame == 0
            &&& p.emitted == 0
            &&& p.last_token == blank as i32
            &&& p.tokens.len() == 0
            &&& p.frames.len() == 0
            &&& p.durations.len() == 0
        }),
{
}

/// A token other than the blank is written down last, with the current frame and its
/// duration, and the network is told of it. The search stays at the frame until the
/// tenth token there; with that one it goes on to the next frame.
pub proof fn law_token_is_written_at_its_frame(p: Progress, token: usize, duration: usize)
    requires
        token != p.blank,
        p.frame < p.time_steps,
        p.emitted < 10,
    ensures
        ({
            let q = next(p, token, duration);
            &&& q.tokens == p.tokens.push(token)
            &&& q.frames == p.frames.push(p.frame)
            &&& q.durations == p.durations.push(duration)
            &&& q.last_token == token as i32
            &&& q.blank == p.blank
            &&& q.time_steps == p.time_steps
            &&& p.emitted < 9 ==> q.frame == p.frame && q.emitted == p.emitted + 1
            &&& p.emitted == 9 ==> q.frame == p.frame + 1 && q.emitted == 0
        }),
{
}

/// The blank writes nothing: it leaves the tokens with their frames and durations and
/// the last token as they are, and the next frame has no tokens yet.
pub proof fn law_blank_writes_nothing(p: Progress, duration: usize)
    ensures
        ({
            let q = next(p, p.blank, duration);
            &&& q.tokens == p.tokens
            &&& q.frames == p.frames
            &&& q.durations == p.durations
            &&& q.last_token == p.last_token
            &&& q.blank == p.blank
            &&& q.time_steps == p.time_steps
            &&& q.emitted == 0
        }),
{
}

/// Predictions are taken one by one: a search goes on from where it has come.
pub proof fn law_search_goes_on_from_where_it_is(
    start: Progress,
    first: Seq<(usize, usize)>,
    second: Seq<(usize, usize)>,
)
    ensures
        after(start, Seq::empty()) == start,
        after(start, first + second) == after(after(start, first), second),
    decreases second.len(),
{
    if second.len() == 0 {
        assert(first + second =~= first);
    } else {
        law_search_goes_on_from_where_it_is(start, first, second.drop_last());
        assert((first + second).drop_last() =~= first + second.drop_last());
        assert((first + second).last() == second.last());
    }
}

/// What is said of a search is said of its fields, each for what it is named after.
pub proof fn law_search_is_seen_by_its_fields(search: Search)
    ensures
        search@.blank == search.blank_id,
        search@.time_steps == search.time_steps,
        search@.frame == search.frame,
        search@.emitted == search.emitted_tokens,
        search@.last_token == search.last_emitted_token,
        search@.tokens == search.tokens@,
        search@.frames == search.frame_indices@,
        search@.durations == search.durations@,
{
}

} // verus!

//! The streaming model with end-of-utterance detection.

use vstd::prelude::*;

use crate::array::{
    is_grid, lemma_one_axis, lemma_unit_axis_in_front, shape_fault, size, span, Array1, Array2,
    Array3, Array4, Grid,
};
use crate::error::{seen, Error, Fault};
use crate::runtime::{
    all_contents, answered, array_of, ask, build_array, contents, float_array, float_array_of,
    float_grid, float_parts, float_value, int_grid, int_parts, int_single, int_value,
    law_each_node_gets_its_value, node_lookup, outcome, ran, single, texts, Contents,
};
use crate::text::join;

verus! {

/// Encoder cache state for streaming inference. The cache maintains temporal
/// context across chunks.
#[derive(Debug)]
pub struct EncoderCache {
    /// Channel cache: layers, batch, frames of lookback, features.
    pub cache_last_channel: Array4,
    /// Time cache: layers, batch, features, time steps.
    pub cache_last_time: Array4,
    /// Cache length: one cell, zero at first.
    pub cache_last_channel_len: Array1,
}

/// What an encoder cache holds.
pub struct Cache {
    pub channel: Grid,
    pub time: Grid,
    pub len: Grid,
}

impl View for EncoderCache {
    type V = Cache;

    open spec fn view(&self) -> Cache {
        Cache {
            channel: self.cache_last_channel@,
            time: self.cache_last_time@,
            len: self.cache_last_channel_len@,
        }
    }
}

/// An array of zeros.
pub open spec fn zero_grid(dims: Seq<usize>) -> Grid {
    Grid { dims, cells: Seq::new(size(dims), |i: int| 0i32) }
}

/// The size of four axes.
proof fn lemma_four_axes(dims: Seq<usize>)
    requires
        dims.len() == 4,
    ensures
        size(dims) == dims[0] * dims[1] * dims[2] * dims[3],
        dims[0] > 0 && dims[1] > 0 && dims[2] > 0 && dims[3] > 0 ==> span(dims) == size(dims),
        dims[0] == 0 && dims[1] == 0 && dims[2] == 0 && dims[3] == 0 ==> span(dims) == 1,
{
    reveal_with_fuel(size, 5);
    reveal_with_fuel(span, 5);
    assert(dims.drop_last().drop_last().drop_last().drop_last() =~= Seq::<usize>::empty());
    assert(1 * dims[0] == dims[0]);
}

impl Default for EncoderCache {
    /// A cache with nothing in it.
    fn default() -> (cache: Self)
        ensures
            cache@.channel == zero_grid(seq![0, 0, 0, 0]),
            cache@.time == zero_grid(seq![0, 0, 0, 0]),
            cache@.len == zero_grid(seq![0]),
    {
        let four: [usize; 4] = [0, 0, 0, 0];
        let one: [usize; 1] = [0];
        proof {
            lemma_four_axes(four@);
            lemma_one_axis(one@);
            assert(four@ =~= seq![0usize, 0usize, 0usize, 0usize]);
            assert(one@ =~= seq![0usize]);
        }
        EncoderCache {
            cache_last_channel: Array4::zeros(four),
            cache_last_time: Array4::zeros(four),
            cache_last_channel_len: Array1::zeros(one),
        }
    }
}

impl EncoderCache {
    /// The cache before the first chunk: 17 layers, a batch of one, 70 frames of
    /// lookback, 512 features, 8 time steps.
    pub fn new() -> (cache: Self)
        ensures
            cache@.channel == zero_grid(seq![17, 1, 70, 512]),
            cache@.time == zero_grid(seq![17, 1, 512, 8]),
            cache@.len == zero_grid(seq![1]),
    {
        let channel: [usize; 4] = [17, 1, 70, 512];
        let time: [usize; 4] = [17, 1, 512, 8];
        let len: [usize; 1] = [1];
        proof {
            lemma_four_axes(channel@);
            lemma_four_axes(time@);
            lemma_one_axis(len@);
            assert(channel@ =~= seq![17usize, 1usize, 70usize, 512usize]);
            assert(time@ =~= seq![17usize, 1usize, 512usize, 8usize]);
            assert(len@ =~= seq![1usize]);
            assert(17 * 1 * 70 * 512 == 609280 && 17 * 1 * 512 * 8 == 69632);
        }
        EncoderCache {
            cache_last_channel: Array4::zeros(channel),
            cache_last_time: Array4::zeros(time),
            cache_last_channel_len: Array1::zeros(len),
        }
    }
}

/// The encoder's inputs, by name.
pub open spec fn encoder_inputs() -> Seq<Seq<char>> {
    seq![
        "audio_signal"@,
        "length"@,
        "cache_last_channel"@,
        "cache_last_time"@,
        "cache_last_channel_len"@,
    ]
}

/// The encoder's outputs, by name.
pub open spec fn encoder_outputs() -> Seq<Seq<char>> {
    seq![
        "outputs"@,
        "new_cache_last_channel"@,
        "new_cache_last_time"@,
        "new_cache_last_channel_len"@,
    ]
}

/// The decoder's inputs, by name.
pub open spec fn decoder_inputs() -> Seq<Seq<char>> {
    seq![
        "encoder_outputs"@,
        "targets"@,
        "target_length"@,
        "input_states_1"@,
        "input_states_2"@,
    ]
}

/// The decoder's outputs, by name.
pub open spec fn decoder_outputs() -> Seq<Seq<char>> {
    seq!["outputs"@, "output_states_1"@, "output_states_2"@]
}

/// What the encoder is given, in the order of its inputs.
pub open spec fn encoder_request(features: Grid, length: i64, cache: Cache) -> Seq<Contents> {
    seq![
        Contents::Float(features),
        single(length as i32),
        Contents::Float(cache.channel),
        Contents::Float(cache.time),
        Contents::Int(cache.len),
    ]
}

/// What the encoder's outputs say: the encoded frames and the new cache. The first
/// thing that is not as it should be decides the error.
pub open spec fn encoder_reading(values: Seq<rten::Value>) -> Result<(Grid, Cache), Fault> {
    match float_array_of(contents(values[0]), 3, "Failed to reshape encoder output: "@) {
        Err(fault) => Err(fault),
        Ok(encoded) => match float_grid(contents(values[1]), 4) {
            Err(fault) => Err(fault),
            Ok(channel) => match float_grid(contents(values[2]), 4) {
                Err(fault) => Err(fault),
                Ok(time) => match int_grid(contents(values[3]), 1) {
                    Err(fault) => Err(fault),
                    Ok(len) => match cache_of(channel, time, len) {
                        Err(fault) => Err(fault),
                        Ok(cache) => Ok((encoded, cache)),
                    },
                },
            },
        },
    }
}

/// The cache made of three tensors.
pub open spec fn cache_of(channel: Grid, time: Grid, len: Grid) -> Result<Cache, Fault> {
    match array_of(channel, "Failed to reshape cache_last_channel: "@) {
        Err(fault) => Err(fault),
        Ok(channel) => match array_of(time, "Failed to reshape cache_last_time: "@) {
            Err(fault) => Err(fault),
            Ok(time) => match array_of(len, "Failed to reshape cache_len: "@) {
                Err(fault) => Err(fault),
                Ok(len) => Ok(Cache { channel, time, len }),
            },
        },
    }
}

/// The encoder's answer, or the error of a failed run.
pub open spec fn encoder_result(answer: Result<Seq<rten::Value>, rten::RunError>) -> Result<
    (Grid, Cache),
    Fault,
> {
    match answer {
        Err(error) => Err(Fault::Run(error)),
        Ok(values) => encoder_reading(values),
    }
}

/// What the decoder is given, in the order of its inputs.
pub open spec fn decoder_request(
    encoder_frame: Grid,
    last_token: Grid,
    state_h: Grid,
    state_c: Grid,
) -> Seq<Contents> {
    seq![
        Contents::Float(encoder_frame),
        Contents::Int(last_token),
        single(1),
        Contents::Float(state_h),
        Contents::Float(state_c),
    ]
}

/// What the decoder's outputs say: the scores, under three axes the last of which is
/// the vocabulary, and the two states of 640 cells.
pub open spec fn decoder_reading(values: Seq<rten::Value>) -> Result<(Grid, Grid, Grid), Fault> {
    match float_grid(contents(values[0]), 4) {
        Err(fault) => Err(fault),
        Ok(scores) => match float_grid(contents(values[1]), 3) {
            Err(fault) => Err(fault),
            Ok(state_h) => match float_grid(contents(values[2]), 3) {
                Err(fault) => Err(fault),
                Ok(state_c) => decoder_arrays(
                    scores.dims[3],
                    scores.cells,
                    state_h.cells,
                    state_c.cells,
                ),
            },
        },
    }
}

/// The scores and the states, each under the axes it is handed on with.
pub open spec fn decoder_arrays(
    vocab_size: usize,
    scores: Seq<i32>,
    state_h: Seq<i32>,
    state_c: Seq<i32>,
) -> Result<(Grid, Grid, Grid), Fault> {
    match array_of(
        Grid { dims: seq![1, 1, vocab_size], cells: scores },
        "Reshape logits failed: "@,
    ) {
        Err(fault) => Err(fault),
        Ok(scores) => match array_of(
            Grid { dims: seq![1, 1, 640], cells: state_h },
            "Reshape state h failed: "@,
        ) {
            Err(fault) => Err(fault),
            Ok(state_h) => match array_of(
                Grid { dims: seq![1, 1, 640], cells: state_c },
                "Reshape state c failed: "@,
            ) {
                Err(fault) => Err(fault),
                Ok(state_c) => Ok((scores, state_h, state_c)),
            },
        },
    }
}

/// The decoder's answer, or the error of a failed run.
pub open spec fn decoder_result(answer: Result<Seq<rten::Value>, rten::RunError>) -> Result<
    (Grid, Grid, Grid),
    Fault,
> {
    match answer {
        Err(error) => Err(Fault::Run(error)),
        Ok(values) => decoder_reading(values),
    }
}

/// The model: a stateful encoder, and a decoder with its joint network.
pub struct ParakeetEOUModel {
    encoder: rten::Model,
    decoder_joint: rten::Model,
}

impl ParakeetEOUModel {
    /// The encoder network.
    pub closed spec fn encoder(&self) -> rten::Model {
        self.encoder
    }

    /// The decoder network.
    pub closed spec fn decoder_joint(&self) -> rten::Model {
        self.decoder_joint
    }

    /// The model made of two loaded networks.
    pub fn new(encoder: rten::Model, decoder_joint: rten::Model) -> (model: Self)
        ensures
            model.encoder() == encoder,
            model.decoder_joint() == decoder_joint,
    {
        ParakeetEOUModel { encoder, decoder_joint }
    }

    /// Checks that the two files which the model is loaded from are there.
    pub fn check_files(model_dir: &str, has_encoder: bool, has_decoder: bool) -> (result: Result<
        (),
        Error,
    >)
        ensures
            result is Ok <==> has_encoder && has_decoder,
            result matches Err(error) ==> error@ == Fault::Config(
                "Missing ONNX files in "@ + model_dir@
                    + ". Expected encoder.onnx and decoder_joint.onnx"@,
            ),
    {
        if !has_encoder || !has_decoder {
            return Err(
                Error::Config(
                    join("Missing ONNX files in ", model_dir).concat(
                        ". Expected encoder.onnx and decoder_joint.onnx",
                    ),
                ),
            );
        }
        Ok(())
    }

    /// Reads the encoder's outputs.
    pub fn read_encoder(values: Vec<rten::Value>) -> (result: Result<(Array3, EncoderCache), Error>)
        requires
            values@.len() == 4,
        ensures
            seen(result) == encoder_reading(values@),
    {
        let mut values = values;
        let outputs = values.remove(0);
        let new_channel = values.remove(0);
        let new_time = values.remove(0);
        let new_len = values.remove(0);
        let encoded = match float_array::<3>(outputs, "Failed to reshape encoder output: ") {
            Ok(encoded) => encoded,
            Err(error) => return Err(error),
        };
        let (channel_dims, channel) = match float_parts::<4>(new_channel) {
            Ok(parts) => parts,
            Err(error) => return Err(error),
        };
        let (time_dims, time) = match float_parts::<4>(new_time) {
            Ok(parts) => parts,
            Err(error) => return Err(error),
        };
        let (len_dims, len) = match int_parts::<1>(new_len) {
            Ok(parts) => parts,
            Err(error) => return Err(error),
        };
        let cache_last_channel = match build_array(
            channel_dims,
            channel,
            "Failed to reshape cache_last_channel: ",
        ) {
            Ok(array) => array,
            Err(error) => return Err(error),
        };
        let cache_last_time = match build_array(
            time_dims,
            time,
            "Failed to reshape cache_last_time: ",
        ) {
            Ok(array) => array,
            Err(error) => return Err(error),
        };
        let cache_last_channel_len = match build_array(
            len_dims,
            len,
            "Failed to reshape cache_len: ",
        ) {
            Ok(array) => array,
            Err(error) => return Err(error),
        };
        Ok((encoded, EncoderCache { cache_last_channel, cache_last_time, cache_last_channel_len }))
    }

    /// Runs the stateful encoder with its cache. Takes the features, with the axes
    /// batch, feature and time, and gives the encoded frames with the cache for the
    /// next chunk. Neither the model nor the given cache changes.
    pub fn run_encoder(&mut self, features: &Array3, length: i64, cache: &EncoderCache) -> (result:
        Result<(Array3, EncoderCache), Error>)
        ensures
            *final(self) == *old(self),
            exists|answer: Result<Seq<rten::Value>, rten::RunError>|
                {
                    &&& #[trigger] answered(
                        old(self).encoder(),
                        encoder_inputs(),
                        encoder_request(features@, length, cache@),
                        encoder_outputs(),
                        answer,
                    )
                    &&& seen(result) == encoder_result(answer)
                },
    {
        let length_cell: i32 = #[verifier::truncate] (length as i32);
        let values: Vec<rten::Value> = vec![
            float_value(features),
            int_single(length_cell),
            float_value(&cache.cache_last_channel),
            float_value(&cache.cache_last_time),
            int_value(&cache.cache_last_channel_len),
        ];
        let input_names: [&str; 5] = [
            "audio_signal",
            "length",
            "cache_last_channel",
            "cache_last_time",
            "cache_last_channel_len",
        ];
        let output_names: [&str; 4] = [
            "outputs",
            "new_cache_last_channel",
            "new_cache_last_time",
            "new_cache_last_channel_len",
        ];
        proof {
            assert(all_contents(values@) =~= encoder_request(features@, length, cache@));
            assert(texts(input_names@) =~= encoder_inputs());
            assert(texts(output_names@) =~= encoder_outputs());
        }
        let answer = ask(&self.encoder, input_names, values, output_names);
        let ghost answer_view = outcome(answer);
        let result = match answer {
            Ok(values) => Self::read_encoder(values),
            Err(error) => Err(Error::Run(error)),
        };
        assert(answered(
            old(self).encoder(),
            encoder_inputs(),
            encoder_request(features@, length, cache@),
            encoder_outputs(),
            answer_view,
        ));
        result
    }

    /// Reads the decoder's outputs.
    pub fn read_decoder(values: Vec<rten::Value>) -> (result: Result<
        (Array3, Array3, Array3),
        Error,
    >)
        requires
            values@.len() == 3,
        ensures
            seen(result) == decoder_reading(values@),
    {
        let mut values = values;
        let logits_out = values.remove(0);
        let new_state_h = values.remove(0);
        let new_state_c = values.remove(0);
        let (dims, scores) = match float_parts::<4>(logits_out) {
            Ok(parts) => parts,
            Err(error) => return Err(error),
        };
        let (_, state_h) = match float_parts::<3>(new_state_h) {
            Ok(parts) => parts,
            Err(error) => return Err(error),
        };
        let (_, state_c) = match float_parts::<3>(new_state_c) {
            Ok(parts) => parts,
            Err(error) => return Err(error),
        };
        let vocab_size: usize = dims[3];
        let logits_dims: [usize; 3] = [1, 1, vocab_size];
        let state_dims: [usize; 3] = [1, 1, 640];
        proof {
            assert(logits_dims@ =~= seq![1usize, 1usize, vocab_size]);
            assert(state_dims@ =~= seq![1usize, 1usize, 640usize]);
        }
        let logits = match build_array(logits_dims, scores, "Reshape logits failed: ") {
            Ok(array) => array,
            Err(error) => return Err(error),
        };
        let new_h = match build_array(state_dims, state_h, "Reshape state h failed: ") {
            Ok(array) => array,
            Err(error) => return Err(error),
        };
        let new_c = match build_array(state_dims, state_c, "Reshape state c failed: ") {
            Ok(array) => array,
            Err(error) => return Err(error),
        };
        Ok((logits, new_h, new_c))
    }

    /// Runs the stateful decoder on one encoded frame, the last token and the two
    /// states. Gives the scores of the vocabulary and the new states. The model does
    /// not change.
    pub fn run_decoder(
        &mut self,
        encoder_frame: &Array3,
        last_token: &Array2,
        state_h: &Array3,
        state_c: &Array3,
    ) -> (result: Result<(Array3, Array3, Array3), Error>)
        ensures
            *final(self) == *old(self),
            exists|answer: Result<Seq<rten::Value>, rten::RunError>|
                {
                    &&& #[trigger] answered(
                        old(self).decoder_joint(),
                        decoder_inputs(),
                        decoder_request(encoder_frame@, last_token@, state_h@, state_c@),
                        decoder_outputs(),
                        answer,
                    )
                    &&& seen(result) == decoder_result(answer)
                },
    {
        let values: Vec<rten::Value> = vec![
            float_value(encoder_frame),
            int_value(last_token),
            int_single(1),
            float_value(state_h),
            float_value(state_c),
        ];
        let input_names: [&str; 5] = [
            "encoder_outputs",
            "targets",
            "target_length",
            "input_states_1",
            "input_states_2",
        ];
        let output_names: [&str; 3] = ["outputs", "output_states_1", "output_states_2"];
        let ghost request = decoder_request(encoder_frame@, last_token@, state_h@, state_c@);
        proof {
            assert(all_contents(values@) =~= request);
            assert(texts(input_names@) =~= decoder_inputs());
            assert(texts(output_names@) =~= decoder_outputs());
        }
        let answer = ask(&self.decoder_joint, input_names, values, output_names);
        let ghost answer_view = outcome(answer);
        let result = match answer {
            Ok(values) => Self::read_decoder(values),
            Err(error) => Err(Error::Run(error)),
        };
        assert(answered(
            old(self).decoder_joint(),
            decoder_inputs(),
            request,
            decoder_outputs(),
            answer_view,
        ));
        result
    }
}

/// A chunk's cache is the next chunk's context: where the encoder's outputs are tensors
/// of the right type and rank, they are read, and what the next chunk hands to the
/// encoder for its cache is what the encoder gave out.
pub proof fn law_cache_carries_over(
    values: Seq<rten::Value>,
    encoded: Grid,
    channel: Grid,
    time: Grid,
    len: Grid,
    features: Grid,
    length: i64,
)
    requires
        values.len() == 4,
        contents(values[0]) == Contents::Float(encoded),
        contents(values[1]) == Contents::Float(channel),
        contents(values[2]) == Contents::Float(time),
        contents(values[3]) == Contents::Int(len),
        is_grid(encoded, 3),
        is_grid(channel, 4),
        is_grid(time, 4),
        is_grid(len, 1),
    ensures
        encoder_reading(values) matches Ok((frames, cache)) && {
            &&& frames == encoded
            &&& cache.channel == channel
            &&& cache.time == time
            &&& cache.len == len
            &&& encoder_request(features, length, cache)[2] == contents(values[1])
            &&& encoder_request(features, length, cache)[3] == contents(values[2])
            &&& encoder_request(features, length, cache)[4] == contents(values[3])
        },
{
}

/// The decoder's outputs are read whenever they have the sizes that it is built for:
/// one list of scores, and states of 640 cells. The next step hands the states' cells
/// back to the decoder unchanged.
pub proof fn law_decoder_states_carry_over(
    values: Seq<rten::Value>,
    vocab_size: usize,
    scores: Grid,
    state_h: Grid,
    state_c: Grid,
    encoder_frame: Grid,
    last_token: Grid,
)
    requires
        values.len() == 3,
        contents(values[0]) == Contents::Float(scores),
        contents(values[1]) == Contents::Float(state_h),
        contents(values[2]) == Contents::Float(state_c),
        scores.dims == seq![1, 1, 1, vocab_size],
        is_grid(scores, 4),
        state_h.dims.len() == 3 && state_h.cells.len() == 640,
        state_c.dims.len() == 3 && state_c.cells.len() == 640,
    ensures
        decoder_reading(values) matches Ok((logits, new_h, new_c)) && {
            &&& logits == (Grid { dims: seq![1, 1, vocab_size], cells: scores.cells })
            &&& new_h == (Grid { dims: seq![1, 1, 640], cells: state_h.cells })
            &&& new_c == (Grid { dims: seq![1, 1, 640], cells: state_c.cells })
            &&& decoder_request(encoder_frame, last_token, new_h, new_c)[3] == Contents::Float(
                Grid { dims: seq![1, 1, 640], cells: state_h.cells },
            )
            &&& decoder_request(encoder_frame, last_token, new_h, new_c)[4] == Contents::Float(
                Grid { dims: seq![1, 1, 640], cells: state_c.cells },
            )
        },
{
    let one = seq![vocab_size];
    let two = seq![1usize] + one;
    let three = seq![1usize] + two;
    lemma_unit_axis_in_front(one);
    lemma_unit_axis_in_front(two);
    lemma_unit_axis_in_front(three);
    assert(scores.dims =~= seq![1usize] + three);
    assert(three =~= seq![1usize, 1usize, vocab_size]);
    let cells = seq![640usize];
    let row = seq![1usize] + cells;
    lemma_one_axis(cells);
    lemma_unit_axis_in_front(cells);
    lemma_unit_axis_in_front(row);
    assert(seq![1usize] + row =~= seq![1usize, 1usize, 640usize]);
}

/// An array of zeros has the axes asked for, as many cells as they ask for, and a zero
/// in every cell.
pub proof fn law_zeros_are_zero(dims: Seq<usize>)
    ensures
        zero_grid(dims).dims == dims,
        zero_grid(dims).cells.len() == size(dims),
        forall|i: int|
            0 <= i < zero_grid(dims).cells.len() ==> #[trigger] zero_grid(dims).cells[i] == 0,
{
}

/// Each value goes to the node of its own name: an encoder that has the nodes is run on
/// the chunk under `audio_signal`, its length under `length`, and the three parts of the
/// cache under the names that they have in the cache, and is asked for the encoded
/// frames and the parts of the next cache.
pub proof fn law_encoder_is_run_on_chunk_and_cache(
    model: rten::Model,
    features: Grid,
    length: i64,
    cache: Cache,
    answer: Result<Seq<rten::Value>, rten::RunError>,
)
    requires
        answered(
            model,
            encoder_inputs(),
            encoder_request(features, length, cache),
            encoder_outputs(),
            answer,
        ),
        node_lookup(model, "audio_signal"@) is Ok,
        node_lookup(model, "length"@) is Ok,
        node_lookup(model, "cache_last_channel"@) is Ok,
        node_lookup(model, "cache_last_time"@) is Ok,
        node_lookup(model, "cache_last_channel_len"@) is Ok,
        node_lookup(model, "outputs"@) is Ok,
        node_lookup(model, "new_cache_last_channel"@) is Ok,
        node_lookup(model, "new_cache_last_time"@) is Ok,
        node_lookup(model, "new_cache_last_channel_len"@) is Ok,
    ensures
        ran(
            model,
            seq![
                (
                    node_lookup(model, "audio_signal"@)->Ok_0,
                    Contents::Float(features),
                ),
                (
                    node_lookup(model, "length"@)->Ok_0,
                    Contents::Int(Grid { dims: seq![1], cells: seq![length as i32] }),
                ),
                (
                    node_lookup(model, "cache_last_channel"@)->Ok_0,
                    Contents::Float(cache.channel),
                ),
                (
                    node_lookup(model, "cache_last_time"@)->Ok_0,
                    Contents::Float(cache.time),
                ),
                (
                    node_lookup(model, "cache_last_channel_len"@)->Ok_0,
                    Contents::Int(cache.len),
                ),
            ],
            seq![
                node_lookup(model, "outputs"@)->Ok_0,
                node_lookup(model, "new_cache_last_channel"@)->Ok_0,
                node_lookup(model, "new_cache_last_time"@)->Ok_0,
                node_lookup(model, "new_cache_last_channel_len"@)->Ok_0,
            ],
            answer,
        ),
{
    let given = encoder_request(features, length, cache);
    let run = seq![
        (node_lookup(model, "audio_signal"@)->Ok_0, given[0]),
        (node_lookup(model, "length"@)->Ok_0, given[1]),
        (node_lookup(model, "cache_last_channel"@)->Ok_0, given[2]),
        (node_lookup(model, "cache_last_time"@)->Ok_0, given[3]),
        (node_lookup(model, "cache_last_channel_len"@)->Ok_0, given[4]),
    ];
    let outputs = seq![
        node_lookup(model, "outputs"@)->Ok_0,
        node_lookup(model, "new_cache_last_channel"@)->Ok_0,
        node_lookup(model, "new_cache_last_time"@)->Ok_0,
        node_lookup(model, "new_cache_last_channel_len"@)->Ok_0,
    ];
    law_each_node_gets_its_value(
        model,
        encoder_inputs(),
        given,
        encoder_outputs(),
        answer,
        run,
        outputs,
    );
}

/// Each value goes to the node of its own name: a decoder that has the nodes is run on
/// the frame under `encoder_outputs`, the last token as it was given under `targets`,
/// a length of one under `target_length`, whatever the token, and the two states, and is
/// asked for the scores and the new states.
pub proof fn law_decoder_is_run_on_frame_token_and_states(
    model: rten::Model,
    encoder_frame: Grid,
    last_token: Grid,
    state_h: Grid,
    state_c: Grid,
    answer: Result<Seq<rten::Value>, rten::RunError>,
)
    requires
        answered(
            model,
            decoder_inputs(),
            decoder_request(encoder_frame, last_token, state_h, state_c),
            decoder_outputs(),
            answer,
        ),
        node_lookup(model, "encoder_outputs"@) is Ok,
        node_lookup(model, "targets"@) is Ok,
        node_lookup(model, "target_length"@) is Ok,
        node_lookup(model, "input_states_1"@) is Ok,
        node_lookup(model, "input_states_2"@) is Ok,
        node_lookup(model, "outputs"@) is Ok,
        node_lookup(model, "output_states_1"@) is Ok,
        node_lookup(model, "output_states_2"@) is Ok,
    ensures
        ran(
            model,
            seq![
                (
                    node_lookup(model, "encoder_outputs"@)->Ok_0,
                    Contents::Float(encoder_frame),
                ),
                (
                    node_lookup(model, "targets"@)->Ok_0,
                    Contents::Int(last_token),
                ),
                (
                    node_lookup(model, "target_length"@)->Ok_0,
                    Contents::Int(Grid { dims: seq![1], cells: seq![1] }),
                ),
                (
                    node_lookup(model, "input_states_1"@)->Ok_0,
                    Contents::Float(state_h),
                ),
                (
                    node_lookup(model, "input_states_2"@)->Ok_0,
                    Contents::Float(state_c),
                ),
            ],
            seq![
                node_lookup(model, "outputs"@)->Ok_0,
                node_lookup(model, "output_states_1"@)->Ok_0,
                node_lookup(model, "output_states_2"@)->Ok_0,
            ],
            answer,
        ),
{
    let given = decoder_request(encoder_frame, last_token, state_h, state_c);
    let run = seq![
        (node_lookup(model, "encoder_outputs"@)->Ok_0, given[0]),
        (node_lookup(model, "targets"@)->Ok_0, given[1]),
        (node_lookup(model, "target_length"@)->Ok_0, given[2]),
        (node_lookup(model, "input_states_1"@)->Ok_0, given[3]),
        (node_lookup(model, "input_states_2"@)->Ok_0, given[4]),
    ];
    let outputs = seq![
        node_lookup(model, "outputs"@)->Ok_0,
        node_lookup(model, "output_states_1"@)->Ok_0,
        node_lookup(model, "output_states_2"@)->Ok_0,
    ];
    law_each_node_gets_its_value(
        model,
        decoder_inputs(),
        given,
        decoder_outputs(),
        answer,
        run,
        outputs,
    );
}

/// What the encoder and the decoder are given is what was handed in, each thing whole
/// and in its place.
pub proof fn law_requests_hold_what_was_handed_in(
    features: Grid,
    length: i64,
    cache: Cache,
    encoder_frame: Grid,
    last_token: Grid,
    state_h: Grid,
    state_c: Grid,
)
    ensures
        encoder_request(features, length, cache) == seq![
            Contents::Float(features),
            Contents::Int(Grid { dims: seq![1], cells: seq![length as i32] }),
            Contents::Float(cache.channel),
            Contents::Float(cache.time),
            Contents::Int(cache.len),
        ],
        decoder_request(encoder_frame, last_token, state_h, state_c) == seq![
            Contents::Float(encoder_frame),
            Contents::Int(last_token),
            Contents::Int(Grid { dims: seq![1], cells: seq![1] }),
            Contents::Float(state_h),
            Contents::Float(state_c),
        ],
{
}

/// A failed run is the result; so is the first thing that is wrong with the encoder's
/// outputs. The types and ranks of all parts of the cache are looked at before an array
/// is made of any of them.
pub proof fn law_first_wrong_encoder_output_is_reported(
    values: Seq<rten::Value>,
    error: rten::RunError,
)
    ensures
        encoder_result(Err(error)) == Err::<(Grid, Cache), _>(Fault::Run(error)),
        ({
            let encoded = float_grid(contents(values[0]), 3);
            let channel = float_grid(contents(values[1]), 4);
            let time = float_grid(contents(values[2]), 4);
            let len = int_grid(contents(values[3]), 1);
            let result = encoder_result(Ok(values));
            match encoded {
                Err(fault) => result == Err::<(Grid, Cache), _>(fault),
                Ok(e) => match shape_fault(e.dims, e.cells.len()) {
                    Some(reason) => result == Err::<(Grid, Cache), _>(
                        Fault::Model("Failed to reshape encoder output: "@ + reason),
                    ),
                    None => {
                        &&& channel matches Err(fault) ==> result == Err::<(Grid, Cache), _>(fault)
                        &&& channel is Ok ==> (time matches Err(fault) ==> result == Err::<
                            (Grid, Cache),
                            _,
                        >(fault))
                        &&& channel is Ok && time is Ok ==> (len matches Err(fault) ==> result
                            == Err::<(Grid, Cache), _>(fault))
                        &&& channel is Ok && time is Ok && len is Ok ==> {
                            let (c, t, l) = (channel->Ok_0, time->Ok_0, len->Ok_0);
                            if let Some(reason) = shape_fault(c.dims, c.cells.len()) {
                                result == Err::<(Grid, Cache), _>(
                                    Fault::Model("Failed to reshape cache_last_channel: "@ + reason),
                                )
                            } else if let Some(reason) = shape_fault(t.dims, t.cells.len()) {
                                result == Err::<(Grid, Cache), _>(
                                    Fault::Model("Failed to reshape cache_last_time: "@ + reason),
                                )
                            } else if let Some(reason) = shape_fault(l.dims, l.cells.len()) {
                                result == Err::<(Grid, Cache), _>(
                                    Fault::Model("Failed to reshape cache_len: "@ + reason),
                                )
                            } else {
                                result == Ok::<_, Fault>(
                                    (e, Cache { channel: c, time: t, len: l }),
                                )
                            }
                        }
                    },
                },
            }
        }),
{
}

/// A failed run is the result; so is the first thing that is wrong with the decoder's
/// outputs. Their types and ranks are looked at before their sizes: there must be as
/// many scores as the last axis is long, and 640 cells in each state.
pub proof fn law_first_wrong_decoder_output_is_reported(
    values: Seq<rten::Value>,
    error: rten::RunError,
)
    ensures
        decoder_result(Err(error)) == Err::<(Grid, Grid, Grid), _>(Fault::Run(error)),
        ({
            let scores = float_grid(contents(values[0]), 4);
            let state_h = float_grid(contents(values[1]), 3);
            let state_c = float_grid(contents(values[2]), 3);
            let result = decoder_result(Ok(values));
            &&& scores matches Err(fault) ==> result == Err::<(Grid, Grid, Grid), _>(fault)
            &&& scores is Ok ==> (state_h matches Err(fault) ==> result == Err::<
                (Grid, Grid, Grid),
                _,
            >(fault))
            &&& scores is Ok && state_h is Ok ==> (state_c matches Err(fault) ==> result == Err::<
                (Grid, Grid, Grid),
                _,
            >(fault))
            &&& scores is Ok && state_h is Ok && state_c is Ok ==> {
                let (s, h, c) = (scores->Ok_0, state_h->Ok_0, state_c->Ok_0);
                let dims = seq![1, 1, s.dims[3]];
                let state_dims = seq![1, 1, 640];
                if let Some(reason) = shape_fault(dims, s.cells.len()) {
                    result == Err::<(Grid, Grid, Grid), _>(
                        Fault::Model("Reshape logits failed: "@ + reason),
                    )
                } else if let Some(reason) = shape_fault(state_dims, h.cells.len()) {
                    result == Err::<(Grid, Grid, Grid), _>(
                        Fault::Model("Reshape state h failed: "@ + reason),
                    )
                } else if let Some(reason) = shape_fault(state_dims, c.cells.len()) {
                    result == Err::<(Grid, Grid, Grid), _>(
                        Fault::Model("Reshape state c failed: "@ + reason),
                    )
                } else {
                    result == Ok::<_, Fault>(
                        (
                            Grid { dims, cells: s.cells },
                            Grid { dims: state_dims, cells: h.cells },
                            Grid { dims: state_dims, cells: c.cells },
                        ),
                    )
                }
            }
        }),
{
}

/// What is said of a cache is said of its fields, each under its own name.
pub proof fn law_cache_is_seen_by_its_fields(cache: EncoderCache)
    ensures
        cache@.channel == cache.cache_last_channel@,
        cache@.time == cache.cache_last_time@,
        cache@.len == cache.cache_last_channel_len@,
{
}

} // verus!

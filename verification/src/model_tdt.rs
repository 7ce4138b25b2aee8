//! The token-and-duration transducer.

use vstd::prelude::*;

use crate::array::{
    is_grid, law_middle_line_keeps_the_other_indices, law_transposed_swaps_indices,
    lemma_one_axis, lemma_two_axes, lemma_unit_axis_at_end, lemma_unit_axis_in_front,
    middle_line, shape_fault, size, span, transposed, Array2, Array3, Grid,
};
use crate::error::{seen, Error, Fault};
use crate::logits::{favoured_duration, favoured_token, law_predictions_are_scored, predict};
use crate::model_eou::zero_grid;
use crate::runtime::{
    all_contents, answered, array_of, ask, build_array, contents, find_nodes, float_array,
    float_array_of, float_grid, float_parts, float_value, int_grid, int_parts, int_single,
    int_tensor, law_each_node_gets_its_value, law_every_name_has_its_node,
    law_first_missing_name_decides, node_lookup, nodes, outcome, paired, ran, run_on, single,
    texts, Contents,
};
use crate::search::{
    after, beginning, law_search_is_orderly_and_bounded, law_step_keeps_order,
    law_token_is_written_at_its_frame, next, occurrences, orderly, Progress, Search,
    MAX_TOKENS_PER_STEP,
};
use crate::text::join;

verus! {

/// TDT model configs.
#[derive(Debug, Clone, Copy, PartialEq, Eq, Structural)]
pub struct TDTModelConfig {
    /// Number of tokens, the blank included. The blank is the last one.
    pub vocab_size: usize,
}

impl TDTModelConfig {
    /// Create config with specified vocab size.
    pub fn new(vocab_size: usize) -> (config: Self)
        ensures
            config.vocab_size == vocab_size,
    {
        TDTModelConfig { vocab_size }
    }
}

/// The encoder's inputs, by name.
pub open spec fn encoder_inputs() -> Seq<Seq<char>> {
    seq!["audio_signal"@, "length"@]
}

/// The encoder's outputs, by name.
pub open spec fn encoder_outputs() -> Seq<Seq<char>> {
    seq!["outputs"@, "encoded_lengths"@]
}

/// The inputs of the decoder and joint network, by name.
pub open spec fn joint_inputs() -> Seq<Seq<char>> {
    seq![
        "encoder_outputs"@,
        "targets"@,
        "target_length"@,
        "input_states_1"@,
        "input_states_2"@,
    ]
}

/// The outputs of the decoder and joint network, by name.
pub open spec fn joint_outputs() -> Seq<Seq<char>> {
    seq!["outputs"@, "output_states_1"@, "output_states_2"@]
}

/// What the encoder is given for features with the axes time and feature: the
/// features with the axes swapped, as a batch of one, and the number of time steps.
pub open spec fn encoder_request(features: Grid) -> Seq<Contents> {
    let (time_steps, feature_size) = (features.dims[0], features.dims[1]);
    seq![
        Contents::Float(
            Grid {
                dims: seq![1, feature_size, time_steps],
                cells: transposed(features.cells, time_steps, feature_size),
            },
        ),
        single(time_steps as i32),
    ]
}

/// What the encoder's outputs say: the encoded frames, with the axes batch, feature
/// and time, and the encoded length of the first utterance of the batch.
pub open spec fn encoder_reading(values: Seq<rten::Value>) -> Result<(Grid, i64), Fault> {
    match float_grid(contents(values[0]), 3) {
        Err(fault) => Err(fault),
        Ok(encoded) => match int_grid(contents(values[1]), 1) {
            Err(fault) => Err(fault),
            Ok(lens) => match array_of(encoded, "Failed to create encoder array: "@) {
                Err(fault) => Err(fault),
                Ok(encoded) => if lens.cells.len() == 0 {
                    Err(Fault::Model("Encoder returned no lengths"@))
                } else {
                    Ok((encoded, lens.cells[0] as i64))
                },
            },
        },
    }
}

/// The encoder's answer, or the error of a failed run.
pub open spec fn encoder_result(answer: Result<Seq<rten::Value>, rten::RunError>) -> Result<
    (Grid, i64),
    Fault,
> {
    match answer {
        Err(error) => Err(Fault::Run(error)),
        Ok(values) => encoder_reading(values),
    }
}

/// The size of the vocabulary, the search, and the two states of the decoder network.
#[verifier::ext_equal]
pub struct Decoding {
    pub vocab_size: usize,
    pub progress: Progress,
    pub state_h: Grid,
    pub state_c: Grid,
}

/// A decoding that has not begun: both states are zero, with two layers, a batch of
/// one and 640 cells.
pub open spec fn decoding_start(vocab_size: usize, time_steps: usize) -> Decoding {
    Decoding {
        vocab_size,
        progress: beginning((vocab_size - 1) as usize, time_steps),
        state_h: zero_grid(seq![2, 1, 640]),
        state_c: zero_grid(seq![2, 1, 640]),
    }
}

/// What the decoder is given: the current frame of the encoded utterance, the last
/// token, and the states.
pub open spec fn joint_request(encoded: Grid, d: Decoding) -> Seq<Contents> {
    seq![
        Contents::Float(
            Grid {
                dims: seq![1, encoded.dims[1], 1],
                cells: middle_line(
                    encoded.cells,
                    encoded.dims[1],
                    encoded.dims[2],
                    0,
                    d.progress.frame as int,
                ),
            },
        ),
        Contents::Int(Grid { dims: seq![1, 1], cells: seq![d.progress.last_token] }),
        single(1),
        Contents::Float(d.state_h),
        Contents::Float(d.state_c),
    ]
}

/// The prediction that scores stand for.
pub open spec fn prediction(scores: Seq<i32>, vocab_size: usize) -> (usize, usize) {
    (
        favoured_token(scores, vocab_size as nat) as usize,
        favoured_duration(scores, vocab_size as nat) as usize,
    )
}

/// One step of the decoding, on the decoder's outputs: the scores decide the step of
/// the search, and a written token takes the new states with it.
pub open spec fn joint_reading(d: Decoding, values: Seq<rten::Value>) -> Result<Decoding, Fault> {
    match float_grid(contents(values[0]), 4) {
        Err(fault) => Err(fault),
        Ok(scores) => {
            let (token, duration) = prediction(scores.cells, d.vocab_size);
            let progress = next(d.progress, token, duration);
            if token == d.progress.blank {
                Ok(Decoding { progress, ..d })
            } else {
                match float_array_of(contents(values[1]), 3, "Failed to update state_h: "@) {
                    Err(fault) => Err(fault),
                    Ok(state_h) => match float_array_of(
                        contents(values[2]),
                        3,
                        "Failed to update state_c: "@,
                    ) {
                        Err(fault) => Err(fault),
                        Ok(state_c) => Ok(Decoding { progress, state_h, state_c, ..d }),
                    },
                }
            }
        },
    }
}

/// One step of the decoding, on the outcome of a run.
pub open spec fn joint_step(
    d: Decoding,
    outcome: Result<Seq<rten::Value>, rten::RunError>,
) -> Result<Decoding, Fault> {
    match outcome {
        Err(error) => Err(Fault::Run(error)),
        Ok(values) => joint_reading(d, values),
    }
}

/// The decoding after a sequence of runs, or the first error.
pub open spec fn decoded(
    vocab_size: usize,
    time_steps: usize,
    outcomes: Seq<Result<Seq<rten::Value>, rten::RunError>>,
) -> Result<Decoding, Fault>
    decreases outcomes.len(),
{
    if outcomes.len() == 0 {
        Ok(decoding_start(vocab_size, time_steps))
    } else {
        match decoded(vocab_size, time_steps, outcomes.drop_last()) {
            Err(fault) => Err(fault),
            Ok(d) => joint_step(d, outcomes.last()),
        }
    }
}

/// Run `k` was made while frames were left, on what the decoding before it asks for.
pub open spec fn asked(
    model: rten::Model,
    inputs: Seq<rten::NodeId>,
    outputs: Seq<rten::NodeId>,
    vocab_size: usize,
    encoded: Grid,
    outcomes: Seq<Result<Seq<rten::Value>, rten::RunError>>,
    k: int,
) -> bool {
    match decoded(vocab_size, encoded.dims[2], outcomes.take(k)) {
        Ok(d) => {
            &&& d.progress.frame < encoded.dims[2]
            &&& ran(model, paired(inputs, joint_request(encoded, d)), outputs, outcomes[k])
        },
        Err(_) => false,
    }
}

/// These are runs of the decoder on an encoded utterance, each on what the decoding
/// before it asks for.
pub open spec fn traced(
    model: rten::Model,
    inputs: Seq<rten::NodeId>,
    outputs: Seq<rten::NodeId>,
    vocab_size: usize,
    encoded: Grid,
    outcomes: Seq<Result<Seq<rten::Value>, rten::RunError>>,
) -> bool {
    forall|k: int|
        0 <= k < outcomes.len() ==> #[trigger] asked(
            model,
            inputs,
            outputs,
            vocab_size,
            encoded,
            outcomes,
            k,
        )
}

/// The runs end the decoding with this result: the first error, or, with no frame
/// left, the tokens with their frames and durations.
pub open spec fn ends_in(
    vocab_size: usize,
    time_steps: usize,
    outcomes: Seq<Result<Seq<rten::Value>, rten::RunError>>,
    result: Result<(Seq<usize>, Seq<usize>, Seq<usize>), Fault>,
) -> bool {
    match decoded(vocab_size, time_steps, outcomes) {
        Err(fault) => result == Err::<(Seq<usize>, Seq<usize>, Seq<usize>), _>(fault),
        Ok(d) => {
            &&& d.progress.frame == time_steps
            &&& result == Ok::<_, Fault>((d.progress.tokens, d.progress.frames, d.progress.durations))
        },
    }
}

/// Decoding an encoded utterance has this result: the error of the first name that
/// the network does not have, inputs before outputs, else an error where there are
/// frames but no batch to take them from, else what some sequence of the network's
/// runs ends in.
pub open spec fn decodes_to(
    model: rten::Model,
    vocab_size: usize,
    encoded: Grid,
    result: Result<(Seq<usize>, Seq<usize>, Seq<usize>), Fault>,
) -> bool {
    match nodes(model, joint_inputs()) {
        Err(error) => result == Err::<(Seq<usize>, Seq<usize>, Seq<usize>), _>(Fault::Run(error)),
        Ok(inputs) => match nodes(model, joint_outputs()) {
            Err(error) => result == Err::<(Seq<usize>, Seq<usize>, Seq<usize>), _>(
                Fault::Run(error),
            ),
            Ok(outputs) => if encoded.dims[0] == 0 && encoded.dims[2] > 0 {
                result == Err::<(Seq<usize>, Seq<usize>, Seq<usize>), _>(
                    Fault::Model("Encoder returned an empty batch"@),
                )
            } else {
                exists|outcomes: Seq<Result<Seq<rten::Value>, rten::RunError>>|
                    {
                        &&& #[trigger] traced(model, inputs, outputs, vocab_size, encoded, outcomes)
                        &&& ends_in(vocab_size, encoded.dims[2], outcomes, result)
                    }
            },
        },
    }
}

/// Transcribing has this result, where this is the encoder's answer: the error that
/// the answer stands for, else what decoding the encoded utterance has for its
/// result.
pub open spec fn transcribes_to(
    decoder_joint: rten::Model,
    vocab_size: usize,
    answer: Result<Seq<rten::Value>, rten::RunError>,
    result: Result<(Seq<usize>, Seq<usize>, Seq<usize>), Fault>,
) -> bool {
    match encoder_result(answer) {
        Err(fault) => result == Err::<(Seq<usize>, Seq<usize>, Seq<usize>), _>(fault),
        Ok((encoded, _)) => decodes_to(decoder_joint, vocab_size, encoded, result),
    }
}

/// The decoding of one utterance.
#[derive(Debug)]
pub struct Decoder {
    pub vocab_size: usize,
    pub search: Search,
    pub state_h: Array3,
    pub state_c: Array3,
}

impl View for Decoder {
    type V = Decoding;

    open spec fn view(&self) -> Decoding {
        Decoding {
            vocab_size: self.vocab_size,
            progress: self.search@,
            state_h: self.state_h@,
            state_c: self.state_c@,
        }
    }
}

impl Decoder {
    /// The blank is the last token, and the search is orderly.
    pub open spec fn wf(&self) -> bool {
        &&& self@.vocab_size > 0
        &&& self@.progress.blank == self@.vocab_size - 1
        &&& orderly(self@.progress)
    }

    /// A decoding that has not begun.
    pub fn new(vocab_size: usize, time_steps: usize) -> (decoder: Self)
        requires
            vocab_size > 0,
        ensures
            decoder.wf(),
            decoder@ == decoding_start(vocab_size, time_steps),
    {
        let dims: [usize; 3] = [2, 1, 640];
        proof {
            assert(dims@ =~= seq![2usize, 1usize, 640usize]);
            reveal_with_fuel(size, 4);
            reveal_with_fuel(span, 4);
            assert(dims@.drop_last().drop_last().drop_last() =~= Seq::<usize>::empty());
            assert(1 * 2 * 1 * 640 == 1280);
        }
        Decoder {
            vocab_size,
            search: Search::new(vocab_size - 1, time_steps),
            state_h: Array3::zeros(dims),
            state_c: Array3::zeros(dims),
        }
    }

    /// Takes a step on the decoder network's outputs. On an error nothing changes.
    pub fn take(&mut self, values: Vec<rten::Value>) -> (result: Result<(), Error>)
        requires
            old(self).wf(),
            old(self)@.progress.frame < old(self)@.progress.time_steps,
            values@.len() == 3,
        ensures
            final(self).wf(),
            match joint_reading(old(self)@, values@) {
                Ok(d) => result is Ok && final(self)@ == d,
                Err(fault) => seen(result) == Err::<(), _>(fault) && *final(self) == *old(self),
            },
    {
        let mut values = values;
        let logits_out = values.remove(0);
        let new_state_h = values.remove(0);
        let new_state_c = values.remove(0);
        let (_, scores) = match float_parts::<4>(logits_out) {
            Ok(parts) => parts,
            Err(error) => return Err(error),
        };
        let (token_id, duration_step) = predict(&scores, self.vocab_size);
        if token_id != self.search.blank_id {
            let state_h = match float_array::<3>(new_state_h, "Failed to update state_h: ") {
                Ok(array) => array,
                Err(error) => return Err(error),
            };
            let state_c = match float_array::<3>(new_state_c, "Failed to update state_c: ") {
                Ok(array) => array,
                Err(error) => return Err(error),
            };
            self.state_h = state_h;
            self.state_c = state_c;
        }
        self.search.step(token_id, duration_step);
        Ok(())
    }

    /// What the decoder network is to be given next, in the order of its inputs.
    pub fn request(&self, encoder_out: &Array3) -> (values: Vec<rten::Value>)
        requires
            encoder_out@.dims[0] > 0,
            self@.progress.frame < encoder_out@.dims[2],
        ensures
            values@.len() == 5,
            all_contents(values@) == joint_request(encoder_out@, self@),
    {
        let encoder_dim: usize = encoder_out.shape()[1];
        let line = encoder_out.slice(0, self.search.frame);
        let frame_dims: [usize; 3] = [1, encoder_dim, 1];
        let token_dims: [usize; 2] = [1, 1];
        let token: Vec<i32> = vec![self.search.last_emitted_token];
        proof {
            let one = seq![encoder_dim];
            assert(frame_dims@ =~= (seq![1usize] + one).push(1));
            lemma_unit_axis_in_front(one);
            lemma_unit_axis_at_end(seq![1usize] + one);
            lemma_two_axes(token_dims@);
            assert(frame_dims@ =~= seq![1usize, encoder_dim, 1usize]);
            assert(token_dims@ =~= seq![1usize, 1usize]);
            assert(token@ =~= seq![self.search.last_emitted_token]);
        }
        let frame = line.to_shape(frame_dims);
        assert(frame is Ok);
        let values: Vec<rten::Value> = vec![
            float_value(&frame.unwrap()),
            int_tensor(token_dims, token),
            int_single(1),
            float_value(&self.state_h),
            float_value(&self.state_c),
        ];
        assert(all_contents(values@) =~= joint_request(encoder_out@, self@));
        values
    }
}

/// The model: an encoder, and a decoder with its joint network.
pub struct ParakeetTDTModel {
    encoder: rten::Model,
    decoder_joint: rten::Model,
    config: TDTModelConfig,
}

impl ParakeetTDTModel {
    /// The encoder network.
    pub closed spec fn encoder(&self) -> rten::Model {
        self.encoder
    }

    /// The decoder network.
    pub closed spec fn decoder_joint(&self) -> rten::Model {
        self.decoder_joint
    }

    /// The number of tokens.
    pub closed spec fn vocab_size(&self) -> usize {
        self.config.vocab_size
    }

    /// The model made of two loaded networks.
    pub fn new(encoder: rten::Model, decoder_joint: rten::Model, config: TDTModelConfig) -> (model:
        Self)
        ensures
            model.encoder() == encoder,
            model.decoder_joint() == decoder_joint,
            model.vocab_size() == config.vocab_size,
    {
        ParakeetTDTModel { encoder, decoder_joint, config }
    }

    /// Runs the encoder and greedy decoding on features with the axes time and
    /// feature. Gives the tokens, the frame of each and the duration of each. The
    /// model does not change.
    pub fn forward(&mut self, features: Array2) -> (result: Result<
        (Vec<usize>, Vec<usize>, Vec<usize>),
        Error,
    >)
        requires
            old(self).vocab_size() > 0,
        ensures
            *final(self) == *old(self),
            exists|answer: Result<Seq<rten::Value>, rten::RunError>|
                {
                    &&& #[trigger] answered(
                        old(self).encoder(),
                        encoder_inputs(),
                        encoder_request(features@),
                        encoder_outputs(),
                        answer,
                    )
                    &&& transcribes_to(
                        old(self).decoder_joint(),
                        old(self).vocab_size(),
                        answer,
                        seen(result),
                    )
                },
    {
        let (encoder_out, encoder_len) = match self.run_encoder(&features) {
            Ok(encoded) => encoded,
            Err(error) => return Err(error),
        };
        self.greedy_decode(&encoder_out, encoder_len)
    }

    /// Reads the encoder's outputs.
    pub fn read_encoder(values: Vec<rten::Value>) -> (result: Result<(Array3, i64), Error>)
        requires
            values@.len() == 2,
        ensures
            seen(result) == encoder_reading(values@),
    {
        let mut values = values;
        let encoder_out = values.remove(0);
        let encoder_lens = values.remove(0);
        let (dims, cells) = match float_parts::<3>(encoder_out) {
            Ok(parts) => parts,
            Err(error) => return Err(error),
        };
        let (_, lens) = match int_parts::<1>(encoder_lens) {
            Ok(parts) => parts,
            Err(error) => return Err(error),
        };
        let encoded = match build_array(dims, cells, "Failed to create encoder array: ") {
            Ok(array) => array,
            Err(error) => return Err(error),
        };
        if lens.len() == 0 {
            return Err(Error::Model(String::from_str("Encoder returned no lengths")));
        }
        Ok((encoded, lens[0] as i64))
    }

    /// Runs the encoder on features with the axes time and feature. Gives the
    /// encoded frames, with the axes batch, feature and time, and their number.
    pub fn run_encoder(&mut self, features: &Array2) -> (result: Result<(Array3, i64), Error>)
        ensures
            *final(self) == *old(self),
            exists|answer: Result<Seq<rten::Value>, rten::RunError>|
                {
                    &&& #[trigger] answered(
                        old(self).encoder(),
                        encoder_inputs(),
                        encoder_request(features@),
                        encoder_outputs(),
                        answer,
                    )
                    &&& seen(result) == encoder_result(answer)
                },
    {
        let time_steps: usize = features.shape()[0];
        let feature_size: usize = features.shape()[1];
        // The encoder expects the feature axis before the time axis.
        let turned = features.t();
        let dims: [usize; 3] = [1, feature_size, time_steps];
        proof {
            assert(dims@ =~= seq![1usize] + turned@.dims);
            lemma_unit_axis_in_front(turned@.dims);
            assert(dims@ =~= seq![1usize, feature_size, time_steps]);
        }
        let input = match turned.to_shape(dims) {
            Ok(input) => input,
            Err(reason) => {
                return Err(
                    Error::Model(join("Failed to reshape encoder input: ", reason.as_str())),
                );
            },
        };
        let length: i32 = #[verifier::truncate] (time_steps as i32);
        let values: Vec<rten::Value> = vec![float_value(&input), int_single(length)];
        let input_names: [&str; 2] = ["audio_signal", "length"];
        let output_names: [&str; 2] = ["outputs", "encoded_lengths"];
        proof {
            assert(all_contents(values@) =~= encoder_request(features@));
            assert(texts(input_names@) =~= encoder_inputs());
            assert(texts(output_names@) =~= encoder_outputs());
        }
        let answer = ask(&self.encoder, input_names, values, output_names);
        let ghost answer_view = outcome(answer);
        let result = match answer {
            Ok(values) => Self::read_encoder(values),
            Err(error) => Err(Error::Run(error)),
        };
        assert(answered(
            old(self).encoder(),
            encoder_inputs(),
            encoder_request(features@),
            encoder_outputs(),
            answer_view,
        ));
        result
    }

    /// Greedy decoding of an encoded utterance. Gives the tokens, the frame of each
    /// and the duration of each.
    pub fn greedy_decode(&mut self, encoder_out: &Array3, _encoder_len: i64) -> (result: Result<
        (Vec<usize>, Vec<usize>, Vec<usize>),
        Error,
    >)
        requires
            old(self).vocab_size() > 0,
        ensures
            *final(self) == *old(self),
            decodes_to(
                old(self).decoder_joint(),
                old(self).vocab_size(),
                encoder_out@,
                seen(result),
            ),
    {
        let model = &self.decoder_joint;
        let vocab_size: usize = self.config.vocab_size;
        let time_steps: usize = encoder_out.shape()[2];
        let ghost encoded = encoder_out@;
        let mut decoder = Decoder::new(vocab_size, time_steps);
        let input_names: [&str; 5] = [
            "encoder_outputs",
            "targets",
            "target_length",
            "input_states_1",
            "input_states_2",
        ];
        let output_names: [&str; 3] = ["outputs", "output_states_1", "output_states_2"];
        proof {
            assert(texts(input_names@) =~= joint_inputs());
            assert(texts(output_names@) =~= joint_outputs());
        }
        let inputs = match find_nodes(model, input_names) {
            Ok(ids) => ids,
            Err(error) => return Err(Error::Run(error)),
        };
        let outputs = match find_nodes(model, output_names) {
            Ok(ids) => ids,
            Err(error) => return Err(Error::Run(error)),
        };
        if encoder_out.shape()[0] == 0 && time_steps > 0 {
            return Err(Error::Model(String::from_str("Encoder returned an empty batch")));
        }
        let ghost mut outcomes: Seq<Result<Seq<rten::Value>, rten::RunError>> = Seq::empty();
        while !decoder.search.is_over()
            invariant
                *self == *old(self),
                decoder.wf(),
                decoder.vocab_size == vocab_size,
                vocab_size == old(self).vocab_size(),
                *model == old(self).decoder_joint(),
                encoded == encoder_out@,
                encoded.dims[2] == time_steps,
                encoded.dims[2] > 0 ==> encoded.dims[0] > 0,
                decoder@.progress.time_steps == time_steps,
                inputs@.len() == 5,
                outputs@.len() == 3,
                nodes(*model, joint_inputs()) == Ok::<_, rten::RunError>(inputs@),
                nodes(*model, joint_outputs()) == Ok::<_, rten::RunError>(outputs@),
                traced(*model, inputs@, outputs@, vocab_size, encoded, outcomes),
                decoded(vocab_size, time_steps, outcomes) == Ok::<_, Fault>(decoder@),
            decreases
                time_steps - decoder@.progress.frame,
                MAX_TOKENS_PER_STEP - decoder@.progress.emitted,
        {
            let ghost before = outcomes;
            let values = decoder.request(encoder_out);
            let answer = run_on::<3>(model, &inputs, values, &outputs);
            proof {
                outcomes = before.push(outcome(answer));
                lemma_traced_one_more(
                    *model,
                    inputs@,
                    outputs@,
                    vocab_size,
                    encoded,
                    before,
                    outcome(answer),
                );
            }
            let values = match answer {
                Ok(values) => values,
                Err(error) => {
                    let result = Err(Error::Run(error));
                    proof {
                        lemma_decodes_to(
                            *model,
                            inputs@,
                            outputs@,
                            vocab_size,
                            encoded,
                            outcomes,
                            seen(result),
                        );
                    }
                    return result;
                },
            };
            proof {
                if let Ok(d) = joint_reading(decoder@, values@) {
                    lemma_joint_reading_moves(decoder@, values@);
                }
            }
            if let Err(error) = decoder.take(values) {
                let result = Err(error);
                proof {
                    lemma_decodes_to(
                        *model,
                        inputs@,
                        outputs@,
                        vocab_size,
                        encoded,
                        outcomes,
                        seen(result),
                    );
                }
                return result;
            }
        }
        let result = Ok((
            decoder.search.tokens,
            decoder.search.frame_indices,
            decoder.search.durations,
        ));
        proof {
            lemma_decodes_to(
                *model,
                inputs@,
                outputs@,
                vocab_size,
                encoded,
                outcomes,
                seen(result),
            );
        }
        result
    }
}

/// Runs that end the decoding show what it has for its result.
proof fn lemma_decodes_to(
    model: rten::Model,
    inputs: Seq<rten::NodeId>,
    outputs: Seq<rten::NodeId>,
    vocab_size: usize,
    encoded: Grid,
    outcomes: Seq<Result<Seq<rten::Value>, rten::RunError>>,
    result: Result<(Seq<usize>, Seq<usize>, Seq<usize>), Fault>,
)
    requires
        nodes(model, joint_inputs()) == Ok::<_, rten::RunError>(inputs),
        nodes(model, joint_outputs()) == Ok::<_, rten::RunError>(outputs),
        traced(model, inputs, outputs, vocab_size, encoded, outcomes),
        ends_in(vocab_size, encoded.dims[2], outcomes, result),
        encoded.dims[2] > 0 ==> encoded.dims[0] > 0,
    ensures
        decodes_to(model, vocab_size, encoded, result),
{
    let (found, wanted) = (nodes(model, joint_inputs())->Ok_0, nodes(model, joint_outputs())->Ok_0);
    assert(traced(model, found, wanted, vocab_size, encoded, outcomes));
}

/// A run on what the decoding asks for extends the runs before it.
proof fn lemma_traced_one_more(
    model: rten::Model,
    inputs: Seq<rten::NodeId>,
    outputs: Seq<rten::NodeId>,
    vocab_size: usize,
    encoded: Grid,
    before: Seq<Result<Seq<rten::Value>, rten::RunError>>,
    last: Result<Seq<rten::Value>, rten::RunError>,
)
    requires
        traced(model, inputs, outputs, vocab_size, encoded, before),
        decoded(vocab_size, encoded.dims[2], before) is Ok,
        decoded(vocab_size, encoded.dims[2], before)->Ok_0.progress.frame < encoded.dims[2],
        ran(
            model,
            paired(
                inputs,
                joint_request(encoded, decoded(vocab_size, encoded.dims[2], before)->Ok_0),
            ),
            outputs,
            last,
        ),
    ensures
        traced(model, inputs, outputs, vocab_size, encoded, before.push(last)),
        decoded(vocab_size, encoded.dims[2], before.push(last)) == joint_step(
            decoded(vocab_size, encoded.dims[2], before)->Ok_0,
            last,
        ),
{
    let all = before.push(last);
    assert(all.drop_last() =~= before);
    assert forall|k: int| 0 <= k < all.len() implies #[trigger] asked(
        model,
        inputs,
        outputs,
        vocab_size,
        encoded,
        all,
        k,
    ) by {
        if k < before.len() {
            assert(all.take(k) =~= before.take(k));
            assert(asked(model, inputs, outputs, vocab_size, encoded, before, k));
        } else {
            assert(all.take(k) =~= before);
        }
    }
}

/// A step on the decoder's outputs keeps the search orderly and moves it: it goes to
/// a later frame, or writes a token.
proof fn lemma_joint_reading_moves(d: Decoding, values: Seq<rten::Value>)
    requires
        orderly(d.progress),
        d.progress.frame < d.progress.time_steps,
        joint_reading(d, values) is Ok,
    ensures
        ({
            let e = joint_reading(d, values)->Ok_0;
            &&& orderly(e.progress)
            &&& e.progress.blank == d.progress.blank
            &&& e.progress.time_steps == d.progress.time_steps
            &&& d.progress.frame <= e.progress.frame
            &&& d.progress.frame < e.progress.frame || e.progress.emitted == d.progress.emitted + 1
        }),
{
    let scores = float_grid(contents(values[0]), 4)->Ok_0;
    let (token, duration) = prediction(scores.cells, d.vocab_size);
    law_step_keeps_order(d.progress, token, duration);
}

/// The prediction that the outcome of a run stands for.
pub open spec fn predicted(
    outcome: Result<Seq<rten::Value>, rten::RunError>,
    vocab_size: usize,
) -> (usize, usize) {
    prediction(float_grid(contents(outcome->Ok_0[0]), 4)->Ok_0.cells, vocab_size)
}

/// The predictions that the outcomes of runs stand for.
pub open spec fn all_predicted(
    outcomes: Seq<Result<Seq<rten::Value>, rten::RunError>>,
    vocab_size: usize,
) -> Seq<(usize, usize)> {
    outcomes.map_values(|o: Result<Seq<rten::Value>, rten::RunError>| predicted(o, vocab_size))
}

/// A favoured token is one of the vocabulary.
proof fn lemma_prediction_in_range(scores: Seq<i32>, vocab_size: usize)
    requires
        vocab_size > 0,
    ensures
        prediction(scores, vocab_size).0 < vocab_size,
{
    law_predictions_are_scored(scores, vocab_size as nat);
}

/// The search inside a decoding is the search on the predictions of the runs, and it
/// has written at most one token, one of the vocabulary, for each of them.
proof fn lemma_decoded_is_search(
    vocab_size: usize,
    time_steps: usize,
    outcomes: Seq<Result<Seq<rten::Value>, rten::RunError>>,
)
    requires
        vocab_size > 0,
        decoded(vocab_size, time_steps, outcomes) is Ok,
    ensures
        ({
            let d = decoded(vocab_size, time_steps, outcomes)->Ok_0;
            let p = d.progress;
            &&& d.vocab_size == vocab_size
            &&& p == after(
                beginning((vocab_size - 1) as usize, time_steps),
                all_predicted(outcomes, vocab_size),
            )
            &&& p.blank == vocab_size - 1
            &&& p.time_steps == time_steps
            &&& p.tokens.len() <= outcomes.len()
            &&& forall|i: int| 0 <= i < p.tokens.len() ==> #[trigger] p.tokens[i] < vocab_size
        }),
    decreases outcomes.len(),
{
    let predictions = all_predicted(outcomes, vocab_size);
    if outcomes.len() > 0 {
        let rest = outcomes.drop_last();
        lemma_decoded_is_search(vocab_size, time_steps, rest);
        assert(predictions.drop_last() =~= all_predicted(rest, vocab_size));
        let scores = float_grid(contents(outcomes.last()->Ok_0[0]), 4)->Ok_0.cells;
        lemma_prediction_in_range(scores, vocab_size);
    }
}

/// Transcribing is the encoder and then greedy decoding, errors alike: an error of the
/// encoder is the result; else the result is that of decoding what the encoder gave.
pub proof fn law_transcribing_is_encoding_then_decoding(
    decoder_joint: rten::Model,
    vocab_size: usize,
    answer: Result<Seq<rten::Value>, rten::RunError>,
    result: Result<(Seq<usize>, Seq<usize>, Seq<usize>), Fault>,
)
    ensures
        encoder_result(answer) matches Err(fault) ==> (transcribes_to(
            decoder_joint,
            vocab_size,
            answer,
            result,
        ) <==> result == Err::<(Seq<usize>, Seq<usize>, Seq<usize>), _>(fault)),
        encoder_result(answer) matches Ok((encoded, _)) ==> (transcribes_to(
            decoder_joint,
            vocab_size,
            answer,
            result,
        ) <==> decodes_to(decoder_joint, vocab_size, encoded, result)),
{
}

/// A name that the decoder network does not have is what decoding reports, whatever the
/// encoder gave: inputs before outputs, and before anything is asked of the frames.
pub proof fn law_missing_name_is_reported_first(
    model: rten::Model,
    vocab_size: usize,
    encoded: Grid,
    result: Result<(Seq<usize>, Seq<usize>, Seq<usize>), Fault>,
)
    requires
        decodes_to(model, vocab_size, encoded, result),
    ensures
        nodes(model, joint_inputs()) matches Err(error) ==> result == Err::<
            (Seq<usize>, Seq<usize>, Seq<usize>),
            _,
        >(Fault::Run(error)),
        nodes(model, joint_inputs()) is Ok ==> (nodes(model, joint_outputs()) matches Err(error)
            ==> result == Err::<(Seq<usize>, Seq<usize>, Seq<usize>), _>(Fault::Run(error))),
{
}

/// However its runs turn out, decoding needs at most [`MAX_TOKENS_PER_STEP`] of them
/// for each frame.
pub proof fn law_decoding_needs_few_runs(
    model: rten::Model,
    inputs: Seq<rten::NodeId>,
    outputs: Seq<rten::NodeId>,
    vocab_size: usize,
    encoded: Grid,
    outcomes: Seq<Result<Seq<rten::Value>, rten::RunError>>,
)
    requires
        vocab_size > 0,
        traced(model, inputs, outputs, vocab_size, encoded, outcomes),
    ensures
        outcomes.len() <= MAX_TOKENS_PER_STEP * encoded.dims[2],
        decoded(vocab_size, encoded.dims[2], outcomes) matches Ok(d) ==> orderly(d.progress),
{
    let time_steps = encoded.dims[2];
    let blank = (vocab_size - 1) as usize;
    let start = beginning(blank, time_steps);
    let predictions = all_predicted(outcomes, vocab_size);
    assert forall|k: int| 0 <= k < predictions.len() implies (#[trigger] after(
        start,
        predictions.take(k),
    )).frame < start.time_steps by {
        assert(asked(model, inputs, outputs, vocab_size, encoded, outcomes, k));
        lemma_decoded_is_search(vocab_size, time_steps, outcomes.take(k));
        assert(predictions.take(k) =~= all_predicted(outcomes.take(k), vocab_size));
    }
    law_search_is_orderly_and_bounded(blank, time_steps, predictions);
    if decoded(vocab_size, time_steps, outcomes) is Ok {
        lemma_decoded_is_search(vocab_size, time_steps, outcomes);
    }
}

/// Whatever the networks answer, a transcript is in order: each token has one frame
/// and one duration; the tokens belong to the vocabulary and none is the blank; the
/// frames belong to the utterance and do not go back; no frame has more than
/// [`MAX_TOKENS_PER_STEP`] tokens, so that the whole has at most that many for each
/// frame.
pub proof fn law_transcript_is_in_order(
    model: rten::Model,
    vocab_size: usize,
    encoded: Grid,
    tokens: Seq<usize>,
    frames: Seq<usize>,
    durations: Seq<usize>,
)
    requires
        vocab_size > 0,
        decodes_to(model, vocab_size, encoded, Ok((tokens, frames, durations))),
    ensures
        frames.len() == tokens.len(),
        durations.len() == tokens.len(),
        forall|i: int| 0 <= i < tokens.len() ==> #[trigger] tokens[i] < vocab_size - 1,
        forall|i: int| 0 <= i < frames.len() ==> #[trigger] frames[i] < encoded.dims[2],
        forall|i: int, j: int| 0 <= i <= j < frames.len() ==> frames[i] <= frames[j],
        forall|frame: usize| #[trigger] occurrences(frames, frame) <= MAX_TOKENS_PER_STEP,
        tokens.len() <= MAX_TOKENS_PER_STEP * encoded.dims[2],
{
    let result = Ok::<_, Fault>((tokens, frames, durations));
    let inputs = nodes(model, joint_inputs())->Ok_0;
    let outputs = nodes(model, joint_outputs())->Ok_0;
    let outcomes = choose|outcomes: Seq<Result<Seq<rten::Value>, rten::RunError>>|
        {
            &&& #[trigger] traced(model, inputs, outputs, vocab_size, encoded, outcomes)
            &&& ends_in(vocab_size, encoded.dims[2], outcomes, result)
        };
    law_decoding_needs_few_runs(model, inputs, outputs, vocab_size, encoded, outcomes);
    lemma_decoded_is_search(vocab_size, encoded.dims[2], outcomes);
    let p = decoded(vocab_size, encoded.dims[2], outcomes)->Ok_0.progress;
    assert forall|i: int| 0 <= i < tokens.len() implies #[trigger] tokens[i] < vocab_size - 1 by {
        assert(p.tokens[i] < vocab_size && p.tokens[i] != p.blank);
    }
}

/// An utterance without frames has an empty transcript, and no run is made for it.
pub proof fn law_no_frames_no_tokens(
    model: rten::Model,
    vocab_size: usize,
    encoded: Grid,
    result: Result<(Seq<usize>, Seq<usize>, Seq<usize>), Fault>,
)
    requires
        vocab_size > 0,
        encoded.dims[2] == 0,
        nodes(model, joint_inputs()) is Ok,
        nodes(model, joint_outputs()) is Ok,
        decodes_to(model, vocab_size, encoded, result),
    ensures
        result == Ok::<_, Fault>((Seq::<usize>::empty(), Seq::<usize>::empty(), Seq::<usize>::empty())),
{
    let inputs = nodes(model, joint_inputs())->Ok_0;
    let outputs = nodes(model, joint_outputs())->Ok_0;
    let outcomes = choose|outcomes: Seq<Result<Seq<rten::Value>, rten::RunError>>|
        {
            &&& #[trigger] traced(model, inputs, outputs, vocab_size, encoded, outcomes)
            &&& ends_in(vocab_size, encoded.dims[2], outcomes, result)
        };
    law_decoding_needs_few_runs(model, inputs, outputs, vocab_size, encoded, outcomes);
}

/// The states of the decoder change only with a written token: on the blank they stay
/// as they are.
pub proof fn law_blank_keeps_states(d: Decoding, values: Seq<rten::Value>)
    requires
        joint_reading(d, values) is Ok,
        joint_reading(d, values)->Ok_0.progress.tokens == d.progress.tokens,
    ensures
        joint_reading(d, values)->Ok_0.state_h == d.state_h,
        joint_reading(d, values)->Ok_0.state_c == d.state_c,
{
    let scores = float_grid(contents(values[0]), 4)->Ok_0.cells;
    let (token, duration) = prediction(scores, d.vocab_size);
    if token != d.progress.blank {
        assert(d.progress.tokens.push(token).len() != d.progress.tokens.len());
    }
}

/// A written token takes the new states with it: the next run is given the states that
/// came with the token, and told of the token.
pub proof fn law_token_takes_states(d: Decoding, values: Seq<rten::Value>, encoded: Grid)
    requires
        joint_reading(d, values) is Ok,
        joint_reading(d, values)->Ok_0.progress.tokens != d.progress.tokens,
    ensures
        ({
            let e = joint_reading(d, values)->Ok_0;
            &&& joint_request(encoded, e)[1] == Contents::Int(
                Grid { dims: seq![1, 1], cells: seq![e.progress.tokens.last() as i32] },
            )
            &&& joint_request(encoded, e)[3] == contents(values[1])
            &&& joint_request(encoded, e)[4] == contents(values[2])
        }),
{
}

/// The encoder sees the features with their axes swapped: what stands at a time step
/// and a feature of the features stands at that feature and time step of its input.
pub proof fn law_encoder_input_is_transposed(features: Grid, time: int, feature: int)
    requires
        is_grid(features, 2),
        0 <= time < features.dims[0],
        0 <= feature < features.dims[1],
    ensures
        encoder_request(features)[0] matches Contents::Float(input) && {
            &&& input.dims == seq![1, features.dims[1], features.dims[0]]
            &&& is_grid(input, 3)
            &&& input.cells[feature * features.dims[0] + time] == features.cells[time
                * features.dims[1] + feature]
        },
{
    let (rows, columns) = (features.dims[0] as int, features.dims[1] as int);
    law_transposed_swaps_indices(
        features.cells,
        features.dims[0],
        features.dims[1],
        time,
        feature,
    );
    let turned = seq![features.dims[1], features.dims[0]];
    let dims = seq![1, features.dims[1], features.dims[0]];
    assert(dims =~= seq![1usize] + turned);
    lemma_unit_axis_in_front(turned);
    lemma_two_axes(turned);
    lemma_two_axes(features.dims);
    assert(rows * columns == columns * rows) by (nonlinear_arith);
    let (a, b) = (
        if rows == 0 {
            1
        } else {
            rows
        },
        if columns == 0 {
            1
        } else {
            columns
        },
    );
    assert(a * b == b * a) by (nonlinear_arith);
}

/// Each value goes to the node of its own name: an encoder that has the nodes is run on
/// the features, feature before time, as a batch of one under `audio_signal`, and on the
/// number of time steps under `length`, and is asked for the encoded frames and their
/// number.
pub proof fn law_encoder_is_run_on_features_and_length(
    model: rten::Model,
    features: Grid,
    answer: Result<Seq<rten::Value>, rten::RunError>,
)
    requires
        answered(model, encoder_inputs(), encoder_request(features), encoder_outputs(), answer),
        node_lookup(model, "audio_signal"@) is Ok,
        node_lookup(model, "length"@) is Ok,
        node_lookup(model, "outputs"@) is Ok,
        node_lookup(model, "encoded_lengths"@) is Ok,
    ensures
        ran(
            model,
            seq![
                (
                    node_lookup(model, "audio_signal"@)->Ok_0,
                    Contents::Float(
                        Grid {
                            dims: seq![1, features.dims[1], features.dims[0]],
                            cells: transposed(
                                features.cells,
                                features.dims[0],
                                features.dims[1],
                            ),
                        },
                    ),
                ),
                (
                    node_lookup(model, "length"@)->Ok_0,
                    Contents::Int(Grid { dims: seq![1], cells: seq![features.dims[0] as i32] }),
                ),
            ],
            seq![
                node_lookup(model, "outputs"@)->Ok_0,
                node_lookup(model, "encoded_lengths"@)->Ok_0,
            ],
            answer,
        ),
{
    let given = encoder_request(features);
    let run = seq![
        (node_lookup(model, "audio_signal"@)->Ok_0, given[0]),
        (node_lookup(model, "length"@)->Ok_0, given[1]),
    ];
    let outputs = seq![
        node_lookup(model, "outputs"@)->Ok_0,
        node_lookup(model, "encoded_lengths"@)->Ok_0,
    ];
    law_each_node_gets_its_value(
        model,
        encoder_inputs(),
        given,
        encoder_outputs(),
        answer,
        run,
        outputs,
    );
}

/// The encoded frames are the encoder's own, and their number is the first one that it
/// gives.
pub proof fn law_encoded_frames_are_handed_on(
    values: Seq<rten::Value>,
    encoded: Grid,
    lens: Grid,
)
    requires
        contents(values[0]) == Contents::Float(encoded),
        contents(values[1]) == Contents::Int(lens),
        is_grid(encoded, 3),
        is_grid(lens, 1),
        lens.dims[0] > 0,
    ensures
        encoder_result(Ok(values)) == Ok::<_, Fault>((encoded, lens.cells[0] as i64)),
{
    lemma_one_axis(lens.dims);
}

/// A failed run is the result; so is the first thing that is wrong with the encoder's
/// outputs. Their types and ranks are looked at before an array is made of the frames.
pub proof fn law_first_wrong_encoder_output_is_reported(
    values: Seq<rten::Value>,
    error: rten::RunError,
)
    ensures
        encoder_result(Err(error)) == Err::<(Grid, i64), _>(Fault::Run(error)),
        ({
            let encoded = float_grid(contents(values[0]), 3);
            let lens = int_grid(contents(values[1]), 1);
            let result = encoder_result(Ok(values));
            &&& encoded matches Err(fault) ==> result == Err::<(Grid, i64), _>(fault)
            &&& encoded is Ok ==> (lens matches Err(fault) ==> result == Err::<(Grid, i64), _>(fault))
            &&& encoded is Ok && lens is Ok ==> {
                let (e, l) = (encoded->Ok_0, lens->Ok_0);
                if let Some(reason) = shape_fault(e.dims, e.cells.len()) {
                    result == Err::<(Grid, i64), _>(
                        Fault::Model("Failed to create encoder array: "@ + reason),
                    )
                } else if l.cells.len() == 0 {
                    result == Err::<(Grid, i64), _>(Fault::Model("Encoder returned no lengths"@))
                } else {
                    result == Ok::<_, Fault>((e, l.cells[0] as i64))
                }
            }
        }),
{
}

/// Decoding begins at the first frame with nothing written, the last token of the
/// vocabulary for the blank, and both states zero: two layers, a batch of one and 640
/// cells.
pub proof fn law_decoding_begins_with_nothing(vocab_size: usize, time_steps: usize)
    requires
        vocab_size > 0,
    ensures
        ({
            let d = decoding_start(vocab_size, time_steps);
            &&& d.vocab_size == vocab_size
            &&& d.progress.blank == vocab_size - 1
            &&& d.progress.time_steps == time_steps
            &&& d.progress.frame == 0
            &&& d.progress.emitted == 0
            &&& d.progress.tokens.len() == 0
            &&& orderly(d.progress)
            &&& d.state_h.dims == seq![2usize, 1usize, 640usize]
            &&& d.state_c.dims == seq![2usize, 1usize, 640usize]
            &&& d.state_h.cells.len() == 1280
            &&& d.state_c.cells.len() == 1280
            &&& forall|i: int| 0 <= i < 1280 ==> #[trigger] d.state_h.cells[i] == 0
            &&& forall|i: int| 0 <= i < 1280 ==> #[trigger] d.state_c.cells[i] == 0
        }),
{
    let dims = seq![2usize, 1usize, 640usize];
    reveal_with_fuel(size, 4);
    assert(dims.drop_last().drop_last().drop_last() =~= Seq::<usize>::empty());
    assert(1 * 2 * 1 * 640 == 1280);
}

/// The decoder network is told of the token written last, and of the blank while none
/// has been written.
pub proof fn law_decoder_is_told_of_the_last_token(d: Decoding, encoded: Grid)
    requires
        orderly(d.progress),
    ensures
        joint_request(encoded, d)[1] == Contents::Int(
            Grid {
                dims: seq![1, 1],
                cells: seq![
                    if d.progress.tokens.len() == 0 {
                        d.progress.blank as i32
                    } else {
                        d.progress.tokens.last() as i32
                    },
                ],
            },
        ),
{
}

/// The decoder network sees the current frame of the first utterance, feature by
/// feature, one token, and the states as they are.
pub proof fn law_decoder_sees_the_current_frame(d: Decoding, encoded: Grid)
    ensures
        joint_request(encoded, d).len() == 5,
        joint_request(encoded, d)[0] matches Contents::Float(frame) && {
            &&& frame.dims == seq![1, encoded.dims[1], 1]
            &&& frame.cells.len() == encoded.dims[1]
            &&& forall|i: int|
                0 <= i < encoded.dims[1] ==> #[trigger] frame.cells[i] == encoded.cells[i
                    * encoded.dims[2] + d.progress.frame]
        },
        joint_request(encoded, d)[2] == Contents::Int(Grid { dims: seq![1], cells: seq![1] }),
        joint_request(encoded, d)[3] == Contents::Float(d.state_h),
        joint_request(encoded, d)[4] == Contents::Float(d.state_c),
{
    law_middle_line_keeps_the_other_indices(
        encoded.cells,
        encoded.dims[1],
        encoded.dims[2],
        0,
        d.progress.frame as int,
    );
}

/// Scores that favour the blank write nothing and take no states, whatever the states
/// that came with them; the search goes on by the favoured duration if tokens were
/// written at this frame, else by one frame, and not past the end.
pub proof fn law_favoured_blank_goes_on(d: Decoding, values: Seq<rten::Value>, scores: Grid)
    requires
        contents(values[0]) == Contents::Float(scores),
        scores.dims.len() == 4,
        d.vocab_size > 0,
        d.progress.blank == d.vocab_size - 1,
        d.progress.frame < d.progress.time_steps,
        favoured_token(scores.cells, d.vocab_size as nat) == d.vocab_size - 1,
    ensures
        joint_reading(d, values) matches Ok(e) && {
            let duration = favoured_duration(scores.cells, d.vocab_size as nat) as usize;
            let by = if duration > 0 && d.progress.emitted > 0 {
                duration
            } else {
                1
            };
            &&& e.vocab_size == d.vocab_size
            &&& e.state_h == d.state_h
            &&& e.state_c == d.state_c
            &&& e.progress.tokens == d.progress.tokens
            &&& e.progress.frames == d.progress.frames
            &&& e.progress.durations == d.progress.durations
            &&& e.progress.emitted == 0
            &&& d.progress.frame + by <= d.progress.time_steps ==> e.progress.frame
                == d.progress.frame + by
            &&& d.progress.frame + by > d.progress.time_steps ==> e.progress.frame
                == d.progress.time_steps
        },
{
}

/// Scores that favour another token write it down, with the current frame and the
/// favoured duration, and take the states that came with them. The tenth token of a
/// frame ends it; any other one leaves the search there.
pub proof fn law_favoured_token_is_written(
    d: Decoding,
    values: Seq<rten::Value>,
    scores: Grid,
    state_h: Grid,
    state_c: Grid,
)
    requires
        contents(values[0]) == Contents::Float(scores),
        contents(values[1]) == Contents::Float(state_h),
        contents(values[2]) == Contents::Float(state_c),
        scores.dims.len() == 4,
        is_grid(state_h, 3),
        is_grid(state_c, 3),
        d.vocab_size > 0,
        d.progress.blank == d.vocab_size - 1,
        d.progress.frame < d.progress.time_steps,
        d.progress.emitted < 10,
        favoured_token(scores.cells, d.vocab_size as nat) != d.vocab_size - 1,
    ensures
        joint_reading(d, values) matches Ok(e) && {
            let token = favoured_token(scores.cells, d.vocab_size as nat) as usize;
            let duration = favoured_duration(scores.cells, d.vocab_size as nat) as usize;
            &&& e.vocab_size == d.vocab_size
            &&& e.state_h == state_h
            &&& e.state_c == state_c
            &&& e.progress.tokens == d.progress.tokens.push(token)
            &&& e.progress.frames == d.progress.frames.push(d.progress.frame)
            &&& e.progress.durations == d.progress.durations.push(duration)
            &&& d.progress.emitted < 9 ==> e.progress.frame == d.progress.frame
                && e.progress.emitted == d.progress.emitted + 1
            &&& d.progress.emitted == 9 ==> e.progress.frame == d.progress.frame + 1
                && e.progress.emitted == 0
        },
{
    law_predictions_are_scored(scores.cells, d.vocab_size as nat);
    law_token_is_written_at_its_frame(
        d.progress,
        favoured_token(scores.cells, d.vocab_size as nat) as usize,
        favoured_duration(scores.cells, d.vocab_size as nat) as usize,
    );
}

/// A step fails exactly where the run did, where the scores are not a float tensor with
/// four axes, or where a token other than the blank is favoured and one of the states
/// that came with it cannot be read; the first of these is reported.
pub proof fn law_first_wrong_decoder_output_is_reported(
    d: Decoding,
    values: Seq<rten::Value>,
    error: rten::RunError,
)
    requires
        d.vocab_size > 0,
        d.progress.blank == d.vocab_size - 1,
    ensures
        joint_step(d, Err(error)) == Err::<Decoding, _>(Fault::Run(error)),
        ({
            let scores = float_grid(contents(values[0]), 4);
            let state_h = float_array_of(contents(values[1]), 3, "Failed to update state_h: "@);
            let state_c = float_array_of(contents(values[2]), 3, "Failed to update state_c: "@);
            let result = joint_step(d, Ok(values));
            match scores {
                Err(fault) => result == Err::<Decoding, _>(fault),
                Ok(s) => if favoured_token(s.cells, d.vocab_size as nat) == d.vocab_size - 1 {
                    result is Ok
                } else {
                    &&& state_h matches Err(fault) ==> result == Err::<Decoding, _>(fault)
                    &&& state_h is Ok ==> (state_c matches Err(fault) ==> result == Err::<
                        Decoding,
                        _,
                    >(fault))
                    &&& state_h is Ok && state_c is Ok ==> result is Ok
                },
            }
        }),
{
    if let Ok(s) = float_grid(contents(values[0]), 4) {
        law_predictions_are_scored(s.cells, d.vocab_size as nat);
    }
}

/// Frames that come without a batch are refused, once the network's nodes are found.
pub proof fn law_frames_without_a_batch_are_refused(
    model: rten::Model,
    vocab_size: usize,
    encoded: Grid,
    result: Result<(Seq<usize>, Seq<usize>, Seq<usize>), Fault>,
)
    requires
        decodes_to(model, vocab_size, encoded, result),
        encoded.dims[0] == 0,
        encoded.dims[2] > 0,
        node_lookup(model, "encoder_outputs"@) is Ok,
        node_lookup(model, "targets"@) is Ok,
        node_lookup(model, "target_length"@) is Ok,
        node_lookup(model, "input_states_1"@) is Ok,
        node_lookup(model, "input_states_2"@) is Ok,
        node_lookup(model, "outputs"@) is Ok,
        node_lookup(model, "output_states_1"@) is Ok,
        node_lookup(model, "output_states_2"@) is Ok,
    ensures
        result == Err::<(Seq<usize>, Seq<usize>, Seq<usize>), _>(
            Fault::Model("Encoder returned an empty batch"@),
        ),
{
    lemma_joint_nodes(model);
}

/// A decoder network that lacks a node is not run: the first name that it lacks is what
/// decoding reports.
pub proof fn law_lacking_node_is_reported(
    model: rten::Model,
    vocab_size: usize,
    encoded: Grid,
    result: Result<(Seq<usize>, Seq<usize>, Seq<usize>), Fault>,
    at: int,
    error: rten::RunError,
)
    requires
        decodes_to(model, vocab_size, encoded, result),
        0 <= at < 8,
        ({
            let names = seq![
                "encoder_outputs"@,
                "targets"@,
                "target_length"@,
                "input_states_1"@,
                "input_states_2"@,
                "outputs"@,
                "output_states_1"@,
                "output_states_2"@,
            ];
            &&& forall|i: int| 0 <= i < at ==> (#[trigger] node_lookup(model, names[i])) is Ok
            &&& node_lookup(model, names[at]) == Err::<rten::NodeId, _>(error)
        }),
    ensures
        result == Err::<(Seq<usize>, Seq<usize>, Seq<usize>), _>(Fault::Run(error)),
{
    let names = seq![
        "encoder_outputs"@,
        "targets"@,
        "target_length"@,
        "input_states_1"@,
        "input_states_2"@,
        "outputs"@,
        "output_states_1"@,
        "output_states_2"@,
    ];
    assert(joint_inputs() =~= names.take(5));
    assert(joint_outputs() =~= names.skip(5));
    assert forall|i: int| 0 <= i < 5 && i < at implies (#[trigger] node_lookup(
        model,
        joint_inputs()[i],
    )) is Ok by {
        assert(node_lookup(model, names[i]) is Ok);
    }
    if at < 5 {
        law_first_missing_name_decides(model, joint_inputs(), at, error);
    } else {
        let ids = Seq::new(5, |i: int| node_lookup(model, joint_inputs()[i])->Ok_0);
        law_every_name_has_its_node(model, joint_inputs(), ids);
        assert forall|i: int| 0 <= i < at - 5 implies (#[trigger] node_lookup(
            model,
            joint_outputs()[i],
        )) is Ok by {
            assert(node_lookup(model, names[i + 5]) is Ok);
        }
        law_first_missing_name_decides(model, joint_outputs(), at - 5, error);
    }
}

/// The nodes of a decoder network that has them all.
proof fn lemma_joint_nodes(model: rten::Model)
    requires
        node_lookup(model, "encoder_outputs"@) is Ok,
        node_lookup(model, "targets"@) is Ok,
        node_lookup(model, "target_length"@) is Ok,
        node_lookup(model, "input_states_1"@) is Ok,
        node_lookup(model, "input_states_2"@) is Ok,
        node_lookup(model, "outputs"@) is Ok,
        node_lookup(model, "output_states_1"@) is Ok,
        node_lookup(model, "output_states_2"@) is Ok,
    ensures
        nodes(model, joint_inputs()) == Ok::<_, rten::RunError>(
            seq![
                node_lookup(model, "encoder_outputs"@)->Ok_0,
                node_lookup(model, "targets"@)->Ok_0,
                node_lookup(model, "target_length"@)->Ok_0,
                node_lookup(model, "input_states_1"@)->Ok_0,
                node_lookup(model, "input_states_2"@)->Ok_0,
            ],
        ),
        nodes(model, joint_outputs()) == Ok::<_, rten::RunError>(
            seq![
                node_lookup(model, "outputs"@)->Ok_0,
                node_lookup(model, "output_states_1"@)->Ok_0,
                node_lookup(model, "output_states_2"@)->Ok_0,
            ],
        ),
{
    law_every_name_has_its_node(
        model,
        joint_inputs(),
        seq![
            node_lookup(model, "encoder_outputs"@)->Ok_0,
            node_lookup(model, "targets"@)->Ok_0,
            node_lookup(model, "target_length"@)->Ok_0,
            node_lookup(model, "input_states_1"@)->Ok_0,
            node_lookup(model, "input_states_2"@)->Ok_0,
        ],
    );
    law_every_name_has_its_node(
        model,
        joint_outputs(),
        seq![
            node_lookup(model, "outputs"@)->Ok_0,
            node_lookup(model, "output_states_1"@)->Ok_0,
            node_lookup(model, "output_states_2"@)->Ok_0,
        ],
    );
}

/// Before each run, the decoding is in order; where the runs do not end in an error, or
/// the run is not the last one, its step leads to the decoding after it.
proof fn lemma_runs_lead_on(
    model: rten::Model,
    inputs: Seq<rten::NodeId>,
    outputs: Seq<rten::NodeId>,
    vocab_size: usize,
    encoded: Grid,
    outcomes: Seq<Result<Seq<rten::Value>, rten::RunError>>,
    k: int,
)
    requires
        vocab_size > 0,
        traced(model, inputs, outputs, vocab_size, encoded, outcomes),
        0 <= k < outcomes.len(),
    ensures
        decoded(vocab_size, encoded.dims[2], outcomes.take(k)) is Ok,
        ({
            let d = decoded(vocab_size, encoded.dims[2], outcomes.take(k))->Ok_0;
            &&& d.vocab_size == vocab_size
            &&& d.progress.blank == vocab_size - 1
            &&& d.progress.time_steps == encoded.dims[2]
            &&& d.progress.frame < encoded.dims[2]
            &&& orderly(d.progress)
            &&& ran(model, paired(inputs, joint_request(encoded, d)), outputs, outcomes[k])
            &&& decoded(vocab_size, encoded.dims[2], outcomes.take(k + 1)) == joint_step(
                d,
                outcomes[k],
            )
        }),
{
    let before = outcomes.take(k);
    assert(asked(model, inputs, outputs, vocab_size, encoded, outcomes, k));
    assert forall|j: int| 0 <= j < before.len() implies #[trigger] asked(
        model,
        inputs,
        outputs,
        vocab_size,
        encoded,
        before,
        j,
    ) by {
        assert(asked(model, inputs, outputs, vocab_size, encoded, outcomes, j));
        assert(before.take(j) =~= outcomes.take(j));
    }
    law_decoding_needs_few_runs(model, inputs, outputs, vocab_size, encoded, before);
    lemma_decoded_is_search(vocab_size, encoded.dims[2], before);
    assert(outcomes.take(k + 1).drop_last() =~= before);
    assert(outcomes.take(k + 1).last() == outcomes[k]);
}

/// Run `k` was made while frames were left, on what the decoding before it asks for,
/// each value under its own name; it succeeded, and its step leads to the decoding after
/// it.
pub open spec fn run_leads_on(
    model: rten::Model,
    vocab_size: usize,
    encoded: Grid,
    outcomes: Seq<Result<Seq<rten::Value>, rten::RunError>>,
    states: Seq<Decoding>,
    k: int,
) -> bool {
    let d = states[k];
    let request = joint_request(encoded, d);
    &&& d.vocab_size == vocab_size
    &&& d.progress.blank == vocab_size - 1
    &&& d.progress.time_steps == encoded.dims[2]
    &&& d.progress.frame < encoded.dims[2]
    &&& orderly(d.progress)
    &&& outcomes[k] is Ok
    &&& joint_reading(d, outcomes[k]->Ok_0) == Ok::<_, Fault>(states[k + 1])
    &&& ran(
        model,
        seq![
            (node_lookup(model, "encoder_outputs"@)->Ok_0, request[0]),
            (node_lookup(model, "targets"@)->Ok_0, request[1]),
            (node_lookup(model, "target_length"@)->Ok_0, request[2]),
            (node_lookup(model, "input_states_1"@)->Ok_0, request[3]),
            (node_lookup(model, "input_states_2"@)->Ok_0, request[4]),
        ],
        seq![
            node_lookup(model, "outputs"@)->Ok_0,
            node_lookup(model, "output_states_1"@)->Ok_0,
            node_lookup(model, "output_states_2"@)->Ok_0,
        ],
        outcomes[k],
    )
}

/// These runs, with the decodings before and after each of them, lead from a decoding
/// that has not begun to this one, which has no frame left.
pub open spec fn runs_lead_to(
    model: rten::Model,
    vocab_size: usize,
    encoded: Grid,
    outcomes: Seq<Result<Seq<rten::Value>, rten::RunError>>,
    states: Seq<Decoding>,
    end: Decoding,
) -> bool {
    &&& states.len() == outcomes.len() + 1
    &&& states[0] == decoding_start(vocab_size, encoded.dims[2])
    &&& states.last() == end
    &&& end.progress.frame == encoded.dims[2]
    &&& forall|k: int|
        0 <= k < outcomes.len() ==> #[trigger] run_leads_on(
            model,
            vocab_size,
            encoded,
            outcomes,
            states,
            k,
        )
}

/// What a transcript is: runs of the decoder network, each made on what the decoding
/// before it asks for, lead from a decoding that has not begun to one that has no frame
/// left, and the transcript is what that one has written.
pub proof fn law_transcript_is_what_the_runs_favour(
    model: rten::Model,
    vocab_size: usize,
    encoded: Grid,
    tokens: Seq<usize>,
    frames: Seq<usize>,
    durations: Seq<usize>,
)
    requires
        vocab_size > 0,
        decodes_to(model, vocab_size, encoded, Ok((tokens, frames, durations))),
        node_lookup(model, "encoder_outputs"@) is Ok,
        node_lookup(model, "targets"@) is Ok,
        node_lookup(model, "target_length"@) is Ok,
        node_lookup(model, "input_states_1"@) is Ok,
        node_lookup(model, "input_states_2"@) is Ok,
        node_lookup(model, "outputs"@) is Ok,
        node_lookup(model, "output_states_1"@) is Ok,
        node_lookup(model, "output_states_2"@) is Ok,
    ensures
        exists|outcomes: Seq<Result<Seq<rten::Value>, rten::RunError>>, states: Seq<Decoding>, end: Decoding|
            {
                &&& #[trigger] runs_lead_to(model, vocab_size, encoded, outcomes, states, end)
                &&& tokens == end.progress.tokens
                &&& frames == end.progress.frames
                &&& durations == end.progress.durations
            },
{
    lemma_joint_nodes(model);
    let result = Ok::<_, Fault>((tokens, frames, durations));
    let inputs = nodes(model, joint_inputs())->Ok_0;
    let outputs = nodes(model, joint_outputs())->Ok_0;
    let time_steps = encoded.dims[2];
    let outcomes = choose|outcomes: Seq<Result<Seq<rten::Value>, rten::RunError>>|
        {
            &&& #[trigger] traced(model, inputs, outputs, vocab_size, encoded, outcomes)
            &&& ends_in(vocab_size, time_steps, outcomes, result)
        };
    let states = Seq::new(
        outcomes.len() + 1,
        |k: int| decoded(vocab_size, time_steps, outcomes.take(k))->Ok_0,
    );
    assert(outcomes.take(outcomes.len() as int) =~= outcomes);
    assert(outcomes.take(0) =~= Seq::empty());
    assert forall|k: int| 0 <= k < outcomes.len() implies #[trigger] run_leads_on(
        model,
        vocab_size,
        encoded,
        outcomes,
        states,
        k,
    ) by {
        lemma_runs_lead_on(model, inputs, outputs, vocab_size, encoded, outcomes, k);
        if k + 1 < outcomes.len() {
            lemma_runs_lead_on(model, inputs, outputs, vocab_size, encoded, outcomes, k + 1);
        }
        lemma_joint_pairs(model, joint_request(encoded, states[k]));
    }
    assert(runs_lead_to(model, vocab_size, encoded, outcomes, states, states.last()));
}

/// The nodes of a decoder network that has them all, each with what it is given.
proof fn lemma_joint_pairs(model: rten::Model, request: Seq<Contents>)
    requires
        node_lookup(model, "encoder_outputs"@) is Ok,
        node_lookup(model, "targets"@) is Ok,
        node_lookup(model, "target_length"@) is Ok,
        node_lookup(model, "input_states_1"@) is Ok,
        node_lookup(model, "input_states_2"@) is Ok,
        node_lookup(model, "outputs"@) is Ok,
        node_lookup(model, "output_states_1"@) is Ok,
        node_lookup(model, "output_states_2"@) is Ok,
    ensures
        paired(nodes(model, joint_inputs())->Ok_0, request) == seq![
            (node_lookup(model, "encoder_outputs"@)->Ok_0, request[0]),
            (node_lookup(model, "targets"@)->Ok_0, request[1]),
            (node_lookup(model, "target_length"@)->Ok_0, request[2]),
            (node_lookup(model, "input_states_1"@)->Ok_0, request[3]),
            (node_lookup(model, "input_states_2"@)->Ok_0, request[4]),
        ],
{
    lemma_joint_nodes(model);
}

/// Whatever decoding ends in, where there are frames a first run was made: on the first
/// frame of the first utterance, feature by feature, the blank for the last token, a
/// length of one, and states of zeros, each under its own name.
pub proof fn law_first_run_begins_with_nothing(
    model: rten::Model,
    vocab_size: usize,
    encoded: Grid,
    result: Result<(Seq<usize>, Seq<usize>, Seq<usize>), Fault>,
    frame: Seq<i32>,
    zeros: Seq<i32>,
)
    requires
        vocab_size > 0,
        encoded.dims[0] > 0,
        encoded.dims[2] > 0,
        decodes_to(model, vocab_size, encoded, result),
        node_lookup(model, "encoder_outputs"@) is Ok,
        node_lookup(model, "targets"@) is Ok,
        node_lookup(model, "target_length"@) is Ok,
        node_lookup(model, "input_states_1"@) is Ok,
        node_lookup(model, "input_states_2"@) is Ok,
        node_lookup(model, "outputs"@) is Ok,
        node_lookup(model, "output_states_1"@) is Ok,
        node_lookup(model, "output_states_2"@) is Ok,
        frame.len() == encoded.dims[1],
        forall|i: int|
            0 <= i < frame.len() ==> #[trigger] frame[i] == encoded.cells[i * encoded.dims[2]],
        zeros.len() == 1280,
        forall|i: int| 0 <= i < zeros.len() ==> #[trigger] zeros[i] == 0,
    ensures
        exists|run: Seq<(rten::NodeId, Contents)>, outputs: Seq<rten::NodeId>, outcome: Result<Seq<rten::Value>, rten::RunError>|
            {
                let blank = (vocab_size - 1) as i32;
                &&& run == seq![
                    (
                        node_lookup(model, "encoder_outputs"@)->Ok_0,
                        Contents::Float(Grid { dims: seq![1, encoded.dims[1], 1], cells: frame }),
                    ),
                    (
                        node_lookup(model, "targets"@)->Ok_0,
                        Contents::Int(Grid { dims: seq![1, 1], cells: seq![blank] }),
                    ),
                    (
                        node_lookup(model, "target_length"@)->Ok_0,
                        Contents::Int(Grid { dims: seq![1], cells: seq![1] }),
                    ),
                    (
                        node_lookup(model, "input_states_1"@)->Ok_0,
                        Contents::Float(Grid { dims: seq![2, 1, 640], cells: zeros }),
                    ),
                    (
                        node_lookup(model, "input_states_2"@)->Ok_0,
                        Contents::Float(Grid { dims: seq![2, 1, 640], cells: zeros }),
                    ),
                ]
                &&& outputs == seq![
                    node_lookup(model, "outputs"@)->Ok_0,
                    node_lookup(model, "output_states_1"@)->Ok_0,
                    node_lookup(model, "output_states_2"@)->Ok_0,
                ]
                &&& #[trigger] ran(model, run, outputs, outcome)
            },
{
    lemma_joint_nodes(model);
    let inputs = nodes(model, joint_inputs())->Ok_0;
    let outputs = nodes(model, joint_outputs())->Ok_0;
    let time_steps = encoded.dims[2];
    let outcomes = choose|outcomes: Seq<Result<Seq<rten::Value>, rten::RunError>>|
        {
            &&& #[trigger] traced(model, inputs, outputs, vocab_size, encoded, outcomes)
            &&& ends_in(vocab_size, time_steps, outcomes, result)
        };
    assert(outcomes.len() > 0);
    lemma_runs_lead_on(model, inputs, outputs, vocab_size, encoded, outcomes, 0);
    assert(outcomes.take(0) =~= Seq::empty());
    let d = decoding_start(vocab_size, time_steps);
    let request = joint_request(encoded, d);
    law_decoding_begins_with_nothing(vocab_size, time_steps);
    law_decoder_sees_the_current_frame(d, encoded);
    law_decoder_is_told_of_the_last_token(d, encoded);
    lemma_joint_pairs(model, request);
    assert(request[0]->Float_0.cells =~= frame);
    assert(d.state_h.cells =~= zeros);
    assert(d.state_c.cells =~= zeros);
    assert(ran(model, paired(inputs, request), outputs, outcomes[0]));
}

/// A step writes at most one token, the favoured one, with its frame and duration.
proof fn lemma_step_writes_one(d: Decoding, values: Seq<rten::Value>)
    requires
        d.vocab_size > 0,
        d.progress.blank == d.vocab_size - 1,
        joint_reading(d, values) is Ok,
    ensures
        ({
            let e = joint_reading(d, values)->Ok_0;
            ||| {
                &&& e.progress.tokens == d.progress.tokens
                &&& e.progress.frames == d.progress.frames
                &&& e.progress.durations == d.progress.durations
            }
            ||| {
                let scores = contents(values[0])->Float_0;
                let token = favoured_token(scores.cells, d.vocab_size as nat);
                let duration = favoured_duration(scores.cells, d.vocab_size as nat) as usize;
                &&& contents(values[0]) is Float
                &&& contents(values[1]) is Float
                &&& contents(values[2]) is Float
                &&& scores.dims.len() == 4
                &&& 0 <= token < d.vocab_size
                &&& e.progress.tokens == d.progress.tokens.push(token as usize)
                &&& e.progress.frames == d.progress.frames.push(d.progress.frame)
                &&& e.progress.durations == d.progress.durations.push(duration)
            }
        }),
{
    law_predictions_are_scored(contents(values[0])->Float_0.cells, d.vocab_size as nat);
}

/// What was written at some point is the beginning of what is written in the end.
proof fn lemma_written_stays(
    model: rten::Model,
    vocab_size: usize,
    encoded: Grid,
    outcomes: Seq<Result<Seq<rten::Value>, rten::RunError>>,
    states: Seq<Decoding>,
    end: Decoding,
    k: int,
)
    requires
        vocab_size > 0,
        runs_lead_to(model, vocab_size, encoded, outcomes, states, end),
        0 <= k < states.len(),
    ensures
        ({
            let p = states[k].progress;
            &&& p.tokens.is_prefix_of(end.progress.tokens)
            &&& p.frames.is_prefix_of(end.progress.frames)
            &&& p.durations.is_prefix_of(end.progress.durations)
        }),
    decreases states.len() - k,
{
    if k < outcomes.len() {
        assert(run_leads_on(model, vocab_size, encoded, outcomes, states, k));
        lemma_step_writes_one(states[k], outcomes[k]->Ok_0);
        lemma_written_stays(model, vocab_size, encoded, outcomes, states, end, k + 1);
    }
}

/// The run that wrote a token.
proof fn lemma_some_run_wrote(
    model: rten::Model,
    vocab_size: usize,
    encoded: Grid,
    outcomes: Seq<Result<Seq<rten::Value>, rten::RunError>>,
    states: Seq<Decoding>,
    end: Decoding,
    i: int,
    from: int,
) -> (k: int)
    requires
        vocab_size > 0,
        runs_lead_to(model, vocab_size, encoded, outcomes, states, end),
        0 <= from < states.len(),
        states[from].progress.tokens.len() <= i < end.progress.tokens.len(),
    ensures
        from <= k < outcomes.len(),
        states[k].progress.tokens.len() == i,
        states[k + 1].progress.tokens.len() == i + 1,
    decreases states.len() - from,
{
    assert(run_leads_on(model, vocab_size, encoded, outcomes, states, from));
    lemma_step_writes_one(states[from], outcomes[from]->Ok_0);
    if states[from + 1].progress.tokens.len() <= i {
        lemma_some_run_wrote(model, vocab_size, encoded, outcomes, states, end, i, from + 1)
    } else {
        from
    }
}

/// Each token of a transcript was favoured by a run of the decoder network on the frame
/// that the transcript gives for it, told of the token before it, or of the blank for
/// the first one; the duration is the one that the same scores favour.
pub proof fn law_each_token_was_favoured(
    model: rten::Model,
    vocab_size: usize,
    encoded: Grid,
    tokens: Seq<usize>,
    frames: Seq<usize>,
    durations: Seq<usize>,
    i: int,
)
    requires
        vocab_size > 0,
        decodes_to(model, vocab_size, encoded, Ok((tokens, frames, durations))),
        0 <= i < tokens.len(),
        node_lookup(model, "encoder_outputs"@) is Ok,
        node_lookup(model, "targets"@) is Ok,
        node_lookup(model, "target_length"@) is Ok,
        node_lookup(model, "input_states_1"@) is Ok,
        node_lookup(model, "input_states_2"@) is Ok,
        node_lookup(model, "outputs"@) is Ok,
        node_lookup(model, "output_states_1"@) is Ok,
        node_lookup(model, "output_states_2"@) is Ok,
    ensures
        exists|
            run: Seq<(rten::NodeId, Contents)>,
            outputs: Seq<rten::NodeId>,
            values: Seq<rten::Value>,
        |
            {
                let frame = run[0].1->Float_0;
                let told = if i == 0 {
                    (vocab_size - 1) as i32
                } else {
                    tokens[i - 1] as i32
                };
                let scores = contents(values[0])->Float_0;
                &&& #[trigger] ran(model, run, outputs, Ok(values))
                &&& run.len() == 5
                &&& run[0].0 == node_lookup(model, "encoder_outputs"@)->Ok_0
                &&& run[0].1 is Float
                &&& frame.dims == seq![1, encoded.dims[1], 1]
                &&& frame.cells.len() == encoded.dims[1]
                &&& forall|j: int|
                    0 <= j < encoded.dims[1] ==> #[trigger] frame.cells[j] == encoded.cells[j
                        * encoded.dims[2] + frames[i]]
                &&& run[1] == (
                    node_lookup(model, "targets"@)->Ok_0,
                    Contents::Int(Grid { dims: seq![1, 1], cells: seq![told] }),
                )
                &&& run[2] == (
                    node_lookup(model, "target_length"@)->Ok_0,
                    Contents::Int(Grid { dims: seq![1], cells: seq![1] }),
                )
                &&& run[3].0 == node_lookup(model, "input_states_1"@)->Ok_0
                &&& run[4].0 == node_lookup(model, "input_states_2"@)->Ok_0
                &&& outputs == seq![
                    node_lookup(model, "outputs"@)->Ok_0,
                    node_lookup(model, "output_states_1"@)->Ok_0,
                    node_lookup(model, "output_states_2"@)->Ok_0,
                ]
                &&& contents(values[0]) is Float
                &&& scores.dims.len() == 4
                &&& tokens[i] == favoured_token(scores.cells, vocab_size as nat)
                &&& tokens[i] != vocab_size - 1
                &&& durations[i] == favoured_duration(scores.cells, vocab_size as nat) as usize
            },
{
    law_transcript_is_what_the_runs_favour(model, vocab_size, encoded, tokens, frames, durations);
    law_transcript_is_in_order(model, vocab_size, encoded, tokens, frames, durations);
    let (outcomes, states, end) = choose|
        outcomes: Seq<Result<Seq<rten::Value>, rten::RunError>>,
        states: Seq<Decoding>,
        end: Decoding,
    |
        {
            &&& #[trigger] runs_lead_to(model, vocab_size, encoded, outcomes, states, end)
            &&& tokens == end.progress.tokens
            &&& frames == end.progress.frames
            &&& durations == end.progress.durations
        };
    law_decoding_begins_with_nothing(vocab_size, encoded.dims[2]);
    let k = lemma_some_run_wrote(model, vocab_size, encoded, outcomes, states, end, i, 0);
    let values = outcomes[k]->Ok_0;
    let (d, e) = (states[k], states[k + 1]);
    assert(run_leads_on(model, vocab_size, encoded, outcomes, states, k));
    lemma_step_writes_one(d, values);
    lemma_written_stays(model, vocab_size, encoded, outcomes, states, end, k);
    lemma_written_stays(model, vocab_size, encoded, outcomes, states, end, k + 1);
    law_decoder_sees_the_current_frame(d, encoded);
    law_decoder_is_told_of_the_last_token(d, encoded);
    assert(e.progress.tokens[i] == tokens[i]);
    assert(e.progress.frames[i] == frames[i]);
    assert(e.progress.durations[i] == durations[i]);
    assert(i > 0 ==> d.progress.tokens.last() == tokens[i - 1]);
    let request = joint_request(encoded, d);
    let run = seq![
        (node_lookup(model, "encoder_outputs"@)->Ok_0, request[0]),
        (node_lookup(model, "targets"@)->Ok_0, request[1]),
        (node_lookup(model, "target_length"@)->Ok_0, request[2]),
        (node_lookup(model, "input_states_1"@)->Ok_0, request[3]),
        (node_lookup(model, "input_states_2"@)->Ok_0, request[4]),
    ];
    let outputs = seq![
        node_lookup(model, "outputs"@)->Ok_0,
        node_lookup(model, "output_states_1"@)->Ok_0,
        node_lookup(model, "output_states_2"@)->Ok_0,
    ];
    assert(ran(model, run, outputs, Ok(values)));
}

/// Decoding fails only where a run made for it fails it: the network gives an error, or
/// scores that cannot be read, or, with a token other than the blank, a state that
/// cannot be read.
pub proof fn law_failure_comes_from_a_run(
    model: rten::Model,
    vocab_size: usize,
    encoded: Grid,
    fault: Fault,
)
    requires
        vocab_size > 0,
        encoded.dims[2] > 0 ==> encoded.dims[0] > 0,
        decodes_to(model, vocab_size, encoded, Err(fault)),
        node_lookup(model, "encoder_outputs"@) is Ok,
        node_lookup(model, "targets"@) is Ok,
        node_lookup(model, "target_length"@) is Ok,
        node_lookup(model, "input_states_1"@) is Ok,
        node_lookup(model, "input_states_2"@) is Ok,
        node_lookup(model, "outputs"@) is Ok,
        node_lookup(model, "output_states_1"@) is Ok,
        node_lookup(model, "output_states_2"@) is Ok,
    ensures
        exists|
            d: Decoding,
            inputs: Seq<rten::NodeId>,
            outputs: Seq<rten::NodeId>,
            outcome: Result<Seq<rten::Value>, rten::RunError>,
        |
            {
                &&& d.progress.frame < encoded.dims[2]
                &&& inputs == seq![
                    node_lookup(model, "encoder_outputs"@)->Ok_0,
                    node_lookup(model, "targets"@)->Ok_0,
                    node_lookup(model, "target_length"@)->Ok_0,
                    node_lookup(model, "input_states_1"@)->Ok_0,
                    node_lookup(model, "input_states_2"@)->Ok_0,
                ]
                &&& outputs == seq![
                    node_lookup(model, "outputs"@)->Ok_0,
                    node_lookup(model, "output_states_1"@)->Ok_0,
                    node_lookup(model, "output_states_2"@)->Ok_0,
                ]
                &&& #[trigger] ran(
                    model,
                    paired(inputs, joint_request(encoded, d)),
                    outputs,
                    outcome,
                )
                &&& match outcome {
                    Err(error) => fault == Fault::Run(error),
                    Ok(values) => match float_grid(contents(values[0]), 4) {
                        Err(reason) => fault == reason,
                        Ok(scores) => {
                            let state_h = float_array_of(
                                contents(values[1]),
                                3,
                                "Failed to update state_h: "@,
                            );
                            let state_c = float_array_of(
                                contents(values[2]),
                                3,
                                "Failed to update state_c: "@,
                            );
                            &&& favoured_token(scores.cells, vocab_size as nat) != vocab_size - 1
                            &&& match state_h {
                                Err(reason) => fault == reason,
                                Ok(_) => state_c == Err::<Grid, _>(fault),
                            }
                        },
                    },
                }
            },
{
    lemma_joint_nodes(model);
    let result = Err::<(Seq<usize>, Seq<usize>, Seq<usize>), _>(fault);
    let inputs = nodes(model, joint_inputs())->Ok_0;
    let outputs = nodes(model, joint_outputs())->Ok_0;
    let time_steps = encoded.dims[2];
    let outcomes = choose|outcomes: Seq<Result<Seq<rten::Value>, rten::RunError>>|
        {
            &&& #[trigger] traced(model, inputs, outputs, vocab_size, encoded, outcomes)
            &&& ends_in(vocab_size, time_steps, outcomes, result)
        };
    assert(outcomes.len() > 0);
    let k = outcomes.len() - 1;
    lemma_runs_lead_on(model, inputs, outputs, vocab_size, encoded, outcomes, k);
    assert(outcomes.take(k + 1) =~= outcomes);
    let d = decoded(vocab_size, time_steps, outcomes.take(k))->Ok_0;
    if let Ok(values) = outcomes[k] {
        if let Ok(scores) = float_grid(contents(values[0]), 4) {
            law_predictions_are_scored(scores.cells, vocab_size as nat);
        }
    }
    assert(ran(model, paired(inputs, joint_request(encoded, d)), outputs, outcomes[k]));
}

/// What is said of a decoder is said of its fields, each under its own name.
pub proof fn law_decoder_is_seen_by_its_fields(decoder: Decoder)
    ensures
        decoder@.vocab_size == decoder.vocab_size,
        decoder@.progress == decoder.search@,
        decoder@.state_h == decoder.state_h@,
        decoder@.state_c == decoder.state_c@,
{
}

} // verus!

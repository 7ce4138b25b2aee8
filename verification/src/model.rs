//! The CTC model.

use vstd::prelude::*;

use crate::array::{
    is_grid, lemma_axis_bound, lemma_one_axis, lemma_unit_axis_in_front, shape_fault, size,
    Array2, Grid,
};
use crate::config::ModelConfig;
use crate::error::{seen, Error, Fault};
use crate::runtime::{
    all_contents, answered, array_of, ask, build_array, contents, float_grid, float_parts,
    float_value, int_tensor, law_each_node_gets_its_value, node_lookup, outcome, ran, texts,
    Contents,
};
use crate::text::{decimal, join, number_text};

verus! {

/// The network's inputs, by name.
pub open spec fn inputs() -> Seq<Seq<char>> {
    seq!["input_features"@, "attention_mask"@]
}

/// The network's outputs, by name.
pub open spec fn outputs() -> Seq<Seq<char>> {
    seq!["logits"@]
}

/// What the network is given for features with the axes time and feature: the
/// features as a batch of one, and a mask that admits every time step.
pub open spec fn request(features: Grid) -> Seq<Contents> {
    let time_steps = features.dims[0];
    seq![
        Contents::Float(Grid { dims: seq![1usize] + features.dims, cells: features.cells }),
        Contents::Int(
            Grid {
                dims: seq![1, time_steps],
                cells: Seq::new(time_steps as nat, |i: int| 1i32),
            },
        ),
    ]
}

/// What the network's output says: for each time step the scores of the vocabulary.
/// The batch must be of one.
pub open spec fn reading(values: Seq<rten::Value>) -> Result<Grid, Fault> {
    match float_grid(contents(values[0]), 3) {
        Err(fault) => Err(fault),
        Ok(logits) => if logits.dims[0] != 1 {
            Err(
                Fault::Model(
                    "Expected batch size 1, got "@ + decimal(logits.dims[0] as nat),
                ),
            )
        } else {
            array_of(
                Grid { dims: seq![logits.dims[1], logits.dims[2]], cells: logits.cells },
                "Failed to create array: "@,
            )
        },
    }
}

/// The network's answer, or the error of a failed run.
pub open spec fn result_of(answer: Result<Seq<rten::Value>, rten::RunError>) -> Result<
    Grid,
    Fault,
> {
    match answer {
        Err(error) => Err(Fault::Run(error)),
        Ok(values) => reading(values),
    }
}

/// The model: one network, and what its vocabulary looks like.
pub struct ParakeetModel {
    model: rten::Model,
    config: ModelConfig,
}

impl ParakeetModel {
    /// The network.
    pub closed spec fn network(&self) -> rten::Model {
        self.model
    }

    /// The vocabulary's settings.
    pub closed spec fn settings(&self) -> ModelConfig {
        self.config
    }

    /// The model made of a loaded network.
    pub fn new(model: rten::Model, config: ModelConfig) -> (made: Self)
        ensures
            made.network() == model,
            made.settings() == config,
    {
        ParakeetModel { model, config }
    }

    /// Reads the network's output.
    pub fn read(values: Vec<rten::Value>) -> (result: Result<Array2, Error>)
        requires
            values@.len() == 1,
        ensures
            seen(result) == reading(values@),
    {
        let mut values = values;
        let logits = values.remove(0);
        let (dims, cells) = match float_parts::<3>(logits) {
            Ok(parts) => parts,
            Err(error) => return Err(error),
        };
        let batch_size: usize = dims[0];
        if batch_size != 1 {
            let number = number_text(batch_size);
            return Err(Error::Model(join("Expected batch size 1, got ", number.as_str())));
        }
        let flat: [usize; 2] = [dims[1], dims[2]];
        assert(flat@ =~= seq![dims@[1], dims@[2]]);
        build_array(flat, cells, "Failed to create array: ")
    }

    /// Runs the network on features with the axes time and feature; gives the
    /// scores with the axes time and vocabulary. The model does not change.
    pub fn forward(&mut self, features: Array2) -> (result: Result<Array2, Error>)
        ensures
            *final(self) == *old(self),
            exists|answer: Result<Seq<rten::Value>, rten::RunError>|
                {
                    &&& #[trigger] answered(
                        old(self).network(),
                        inputs(),
                        request(features@),
                        outputs(),
                        answer,
                    )
                    &&& seen(result) == result_of(answer)
                },
    {
        let time_steps: usize = features.shape()[0];
        let feature_size: usize = features.shape()[1];
        let input_dims: [usize; 3] = [1, time_steps, feature_size];
        let mask_dims: [usize; 2] = [1, time_steps];
        proof {
            assert(input_dims@ =~= seq![1usize] + features@.dims);
            lemma_unit_axis_in_front(features@.dims);
            assert(mask_dims@ =~= seq![1usize] + seq![time_steps]);
            lemma_unit_axis_in_front(seq![time_steps]);
            lemma_one_axis(seq![time_steps]);
            lemma_axis_bound(features@.dims, 0);
        }
        let input = match features.to_shape(input_dims) {
            Ok(input) => input,
            Err(reason) => {
                return Err(Error::Model(join("Failed to reshape input: ", reason.as_str())));
            },
        };
        let mask: Vec<i32> = vec![1; time_steps];
        assert(mask@ =~= Seq::new(time_steps as nat, |i: int| 1i32));
        let values: Vec<rten::Value> = vec![float_value(&input), int_tensor(mask_dims, mask)];
        let input_names: [&str; 2] = ["input_features", "attention_mask"];
        let output_names: [&str; 1] = ["logits"];
        proof {
            assert(mask_dims@ =~= seq![1usize, time_steps]);
            assert(all_contents(values@) =~= request(features@));
            assert(texts(input_names@) =~= inputs());
            assert(texts(output_names@) =~= outputs());
        }
        let answer = ask(&self.model, input_names, values, output_names);
        let ghost answer_view = outcome(answer);
        let result = match answer {
            Ok(values) => Self::read(values),
            Err(error) => Err(Error::Run(error)),
        };
        assert(answered(
            old(self).network(),
            inputs(),
            request(features@),
            outputs(),
            answer_view,
        ));
        result
    }

    /// The vocabulary's settings.
    pub fn config(&self) -> (config: &ModelConfig)
        ensures
            *config == self.settings(),
    {
        &self.config
    }

    /// The number of tokens.
    pub fn vocab_size(&self) -> (vocab_size: usize)
        ensures
            vocab_size == self.settings().vocab_size,
    {
        self.config.vocab_size
    }

    /// The padding token.
    pub fn pad_token_id(&self) -> (pad_token_id: usize)
        ensures
            pad_token_id == self.settings().pad_token_id,
    {
        self.config.pad_token_id
    }
}

/// Every time step is attended to: whatever the features, the mask has one row with a
/// one for each time step, and the network sees the features as they are, as a batch
/// of one.
pub proof fn law_every_time_step_is_attended_to(features: Grid)
    requires
        is_grid(features, 2),
    ensures
        request(features).len() == 2,
        request(features)[0] matches Contents::Float(input) && {
            &&& input.dims == seq![1, features.dims[0], features.dims[1]]
            &&& input.cells == features.cells
            &&& is_grid(input, 3)
        },
        request(features)[1] matches Contents::Int(mask) && {
            &&& mask.dims == seq![1, features.dims[0]]
            &&& mask.cells.len() == features.dims[0]
            &&& forall|i: int| 0 <= i < mask.cells.len() ==> #[trigger] mask.cells[i] == 1
            &&& is_grid(mask, 2)
        },
{
    assert(seq![1usize] + features.dims =~= seq![1, features.dims[0], features.dims[1]]);
    lemma_unit_axis_in_front(features.dims);
    let steps = seq![features.dims[0]];
    assert(seq![1usize] + steps =~= seq![1, features.dims[0]]);
    lemma_unit_axis_in_front(steps);
    lemma_one_axis(steps);
    lemma_axis_bound(features.dims, 0);
}

/// A network that has the nodes is run on the features under `input_features` and on a
/// mask of ones under `attention_mask`, and asked for `logits`.
pub proof fn law_network_is_run_on_features_and_mask(
    model: rten::Model,
    features: Grid,
    answer: Result<Seq<rten::Value>, rten::RunError>,
    ones: Seq<i32>,
)
    requires
        is_grid(features, 2),
        answered(model, inputs(), request(features), outputs(), answer),
        node_lookup(model, "input_features"@) is Ok,
        node_lookup(model, "attention_mask"@) is Ok,
        node_lookup(model, "logits"@) is Ok,
        ones.len() == features.dims[0],
        forall|i: int| 0 <= i < ones.len() ==> #[trigger] ones[i] == 1,
    ensures
        ran(
            model,
            seq![
                (
                    node_lookup(model, "input_features"@)->Ok_0,
                    Contents::Float(
                        Grid {
                            dims: seq![1, features.dims[0], features.dims[1]],
                            cells: features.cells,
                        },
                    ),
                ),
                (
                    node_lookup(model, "attention_mask"@)->Ok_0,
                    Contents::Int(Grid { dims: seq![1, features.dims[0]], cells: ones }),
                ),
            ],
            seq![node_lookup(model, "logits"@)->Ok_0],
            answer,
        ),
{
    law_every_time_step_is_attended_to(features);
    let given = request(features);
    assert(given[1]->Int_0.cells =~= ones);
    let run = seq![
        (node_lookup(model, "input_features"@)->Ok_0, given[0]),
        (node_lookup(model, "attention_mask"@)->Ok_0, given[1]),
    ];
    law_each_node_gets_its_value(
        model,
        inputs(),
        given,
        outputs(),
        answer,
        run,
        seq![node_lookup(model, "logits"@)->Ok_0],
    );
}

/// The scores are the network's own: an output with the axes batch, time and vocabulary
/// whose batch is one is handed on with the last two axes and every score in its place.
pub proof fn law_scores_are_handed_on(values: Seq<rten::Value>, logits: Grid)
    requires
        contents(values[0]) == Contents::Float(logits),
        is_grid(logits, 3),
    ensures
        logits.dims[0] == 1 ==> result_of(Ok(values)) == Ok::<_, Fault>(
            Grid { dims: seq![logits.dims[1], logits.dims[2]], cells: logits.cells },
        ),
        logits.dims[0] != 1 ==> result_of(Ok(values)) == Err::<Grid, _>(
            Fault::Model("Expected batch size 1, got "@ + decimal(logits.dims[0] as nat)),
        ),
{
    let flat = seq![logits.dims[1], logits.dims[2]];
    if logits.dims[0] == 1 {
        assert(logits.dims =~= seq![1usize] + flat);
        lemma_unit_axis_in_front(flat);
    }
}

/// An answer that gives no scores is an error: a failed run is handed on, an output of
/// another type or rank is refused for that, and nothing else is read.
pub proof fn law_unreadable_scores_are_refused(
    values: Seq<rten::Value>,
    error: rten::RunError,
    fault: Fault,
)
    ensures
        result_of(Err(error)) == Err::<Grid, _>(Fault::Run(error)),
        float_grid(contents(values[0]), 3) == Err::<Grid, _>(fault) ==> result_of(Ok(values))
            == Err::<Grid, _>(fault),
        float_grid(contents(values[0]), 3) matches Ok(logits) ==> (shape_fault(
            seq![logits.dims[1], logits.dims[2]],
            logits.cells.len(),
        ) matches Some(reason) ==> (logits.dims[0] == 1 ==> result_of(Ok(values)) == Err::<Grid, _>(
            Fault::Model("Failed to create array: "@ + reason),
        ))),
        result_of(Ok(values)) is Ok ==> (contents(values[0]) matches Contents::Float(logits) && {
            &&& logits.dims.len() == 3
            &&& logits.dims[0] == 1
            &&& logits.cells.len() == size(seq![logits.dims[1], logits.dims[2]])
        }),
{
}

} // verus!

//! Running networks with `rten`.
//!
//! A network takes and gives values by name. What a value holds is seen as
//! [`Contents`]; a float tensor is a grid of 32-bit patterns.

use vstd::prelude::*;

use rten::{DataType, ValueType};

use crate::array::{fits, is_grid, lemma_one_axis, shape_fault, size, Array, Grid};
use crate::error::{seen, Error, Fault, ValueError, ValueKind};
use crate::text::join;

verus! {

/// A loaded network.
#[verifier::external_type_specification]
#[verifier::external_body]
pub struct ExModel(rten::Model);

/// A value inside a network.
#[verifier::external_type_specification]
#[verifier::external_body]
pub struct ExNodeId(rten::NodeId);

/// An input or output of a network.
#[verifier::external_type_specification]
#[verifier::external_body]
pub struct ExValue(rten::Value);

/// What a value holds.
pub enum Contents {
    /// A tensor of 32-bit floats, as the floats' bit patterns.
    Float(Grid),
    /// A tensor of 32-bit integers.
    Int(Grid),
    /// A tensor of another type, or no tensor.
    Other(ValueKind),
}

/// The kind of a value that holds this.
pub open spec fn kind_of(held: Contents) -> ValueKind {
    match held {
        Contents::Float(_) => ValueKind::FloatTensor,
        Contents::Int(_) => ValueKind::Int32Tensor,
        Contents::Other(kind) => kind,
    }
}

/// What a value holds.
pub uninterp spec fn contents(value: rten::Value) -> Contents;

/// The node with a given name in a network's graph, or the error that says that
/// there is none.
pub uninterp spec fn node_lookup(model: rten::Model, name: Seq<char>) -> Result<
    rten::NodeId,
    rten::RunError,
>;

/// `rten::Model::node_id`: finds a node by its name. The result depends on the
/// network and the name alone.
pub assume_specification[ rten::Model::node_id ](model: &rten::Model, id: &str) -> (result: Result<
    rten::NodeId,
    rten::RunError,
>)
    ensures
        result == node_lookup(*model, id@),
;

/// A run of a network on these inputs, asked for these outputs, ended in this
/// outcome. Which outcome it is depends on more than is written here (kernels, and
/// with them the last bits of a float, differ between machines), so nothing says
/// that two runs on the same inputs end alike.
pub uninterp spec fn ran(
    model: rten::Model,
    inputs: Seq<(rten::NodeId, Contents)>,
    outputs: Seq<rten::NodeId>,
    outcome: Result<Seq<rten::Value>, rten::RunError>,
) -> bool;

/// Inputs, with what each value holds in its place.
pub open spec fn input_contents(inputs: Seq<(rten::NodeId, rten::Value)>) -> Seq<
    (rten::NodeId, Contents),
> {
    inputs.map_values(|input: (rten::NodeId, rten::Value)| (input.0, contents(input.1)))
}

/// The outcome of a run, with the outputs as a sequence.
pub open spec fn outcome(result: Result<Vec<rten::Value>, rten::RunError>) -> Result<
    Seq<rten::Value>,
    rten::RunError,
> {
    match result {
        Ok(values) => Ok(values@),
        Err(error) => Err(error),
    }
}

/// `rten::Model::run_n`: evaluates the network on the inputs and returns the `N`
/// outputs asked for, in the order asked for, or the error that stopped it. Nothing
/// is said about the outputs' contents.
#[verifier::external_body]
pub(crate) fn run_n<const N: usize>(
    model: &rten::Model,
    inputs: Vec<(rten::NodeId, rten::Value)>,
    outputs: &[rten::NodeId],
) -> (result: Result<Vec<rten::Value>, rten::RunError>)
    requires
        outputs@.len() == N,
    ensures
        ran(*model, input_contents(inputs@), outputs@, outcome(result)),
        result is Ok ==> result->Ok_0@.len() == N,
{
    let inputs = inputs.into_iter().map(|(id, value)| (id, value.into())).collect();
    let outputs: [rten::NodeId; N] = outputs.try_into().unwrap();
    model.run_n(inputs, outputs, None).map(|values| values.into())
}

/// `rten::Value::from_shape`: a tensor of 32-bit integers with the given axes. It
/// fails where the number of elements is not the product of the axes.
#[verifier::external_body]
fn value_from_shape(dims: &[usize], cells: Vec<i32>) -> (value: rten::Value)
    requires
        fits(dims@),
        size(dims@) == cells@.len(),
    ensures
        contents(value) == Contents::Int(Grid { dims: dims@, cells: cells@ }),
{
    rten::Value::from_shape(dims, cells).unwrap()
}

/// `bit_cast` of `rten`'s tensors, from integers to floats: the same bits under the
/// same axes. A value that is no integer tensor is handed back.
#[verifier::external_body]
fn floats_from_bits(value: rten::Value) -> (floats: rten::Value)
    requires
        contents(value) is Int,
    ensures
        contents(floats) == Contents::Float(contents(value)->Int_0),
{
    match value {
        rten::Value::Int32Tensor(tensor) => rten::Value::FloatTensor(tensor.bit_cast()),
        other => other,
    }
}

/// `bit_cast` of `rten`'s tensors, from floats to integers: the same bits under the
/// same axes. A value that is no float tensor comes back as the error.
#[verifier::external_body]
fn bits_from_floats(value: rten::Value) -> (result: Result<rten::Value, rten::Value>)
    ensures
        match result {
            Ok(bits) => {
                &&& contents(value) is Float
                &&& contents(bits) == Contents::Int(contents(value)->Float_0)
            },
            Err(other) => contents(value) !is Float && other == value,
        },
{
    match value {
        rten::Value::FloatTensor(tensor) => Ok(rten::Value::Int32Tensor(tensor.bit_cast())),
        other => Err(other),
    }
}

/// `rten::Value::dtype`: the kind of a value.
#[verifier::external_body]
fn value_dtype(value: &rten::Value) -> (kind: ValueKind)
    ensures
        kind == kind_of(contents(*value)),
{
    match value.dtype() {
        ValueType::Tensor(DataType::Float) => ValueKind::FloatTensor,
        ValueType::Tensor(DataType::Int32) => ValueKind::Int32Tensor,
        ValueType::Tensor(DataType::Int8) => ValueKind::Int8Tensor,
        ValueType::Tensor(DataType::UInt8) => ValueKind::UInt8Tensor,
        ValueType::Sequence(DataType::Float) => ValueKind::FloatSequence,
        ValueType::Sequence(DataType::Int32) => ValueKind::Int32Sequence,
        ValueType::Sequence(DataType::Int8) => ValueKind::Int8Sequence,
        ValueType::Sequence(DataType::UInt8) => ValueKind::UInt8Sequence,
        _ => ValueKind::Unknown,
    }
}

/// `rten::Value::into_shape_vec` for 32-bit integers: the lengths of the `N` axes
/// and the elements in row-major order. It fails where the value is no integer
/// tensor, and where the tensor has another number of axes; the numbers of axes, found
/// and expected, come with the latter.
#[verifier::external_body]
fn value_into_shape_vec<const N: usize>(value: rten::Value) -> (result: Result<
    ([usize; N], Vec<i32>),
    Option<(usize, usize)>,
>)
    ensures
        match result {
            Ok((dims, cells)) => contents(value) == Contents::Int(
                Grid { dims: dims@, cells: cells@ },
            ),
            Err(None) => contents(value) !is Int,
            Err(Some((actual, expected))) => {
                &&& contents(value) is Int
                &&& contents(value)->Int_0.dims.len() == actual
                &&& actual != N
                &&& expected == N
            },
        },
{
    value.into_shape_vec::<i32, N>().map_err(
        |error|
            match error {
                rten::TryFromValueError::WrongRank { actual, expected } => Some((actual, expected)),
                _ => None,
            },
    )
}

/// The nodes with the given names, in order, or the error of the first name that
/// the network does not have.
pub open spec fn nodes(model: rten::Model, names: Seq<Seq<char>>) -> Result<
    Seq<rten::NodeId>,
    rten::RunError,
>
    decreases names.len(),
{
    if names.len() == 0 {
        Ok(Seq::empty())
    } else {
        match nodes(model, names.drop_last()) {
            Err(error) => Err(error),
            Ok(ids) => match node_lookup(model, names.last()) {
                Err(error) => Err(error),
                Ok(id) => Ok(ids.push(id)),
            },
        }
    }
}

/// The texts of some names.
pub open spec fn texts(names: Seq<&str>) -> Seq<Seq<char>> {
    names.map_values(|name: &str| name@)
}

/// Looks up the nodes with the given names.
pub(crate) fn find_nodes<const N: usize>(model: &rten::Model, names: [&str; N]) -> (result: Result<
    Vec<rten::NodeId>,
    rten::RunError,
>)
    ensures
        match result {
            Ok(ids) => nodes(*model, texts(names@)) == Ok::<_, rten::RunError>(ids@) && ids@.len()
                == N,
            Err(error) => nodes(*model, texts(names@)) == Err::<Seq<rten::NodeId>, _>(error),
        },
{
    let mut ids: Vec<rten::NodeId> = Vec::new();
    let ghost all = texts(names@);
    let mut i: usize = 0;
    assert(all.take(0) =~= Seq::empty());
    while i < N
        invariant
            i <= N,
            all == texts(names@),
            ids@.len() == i,
            nodes(*model, all.take(i as int)) == Ok::<_, rten::RunError>(ids@),
        decreases N - i,
    {
        assert(all.take(i + 1).drop_last() =~= all.take(i as int));
        match model.node_id(names[i]) {
            Ok(id) => ids.push(id),
            Err(error) => {
                proof {
                    lemma_first_missing(*model, all, i as int, error);
                }
                return Err(error);
            },
        }
        i += 1;
    }
    assert(all.take(N as int) =~= all);
    Ok(ids)
}

/// A name that is missing decides the lookup of all names.
proof fn lemma_first_missing(
    model: rten::Model,
    names: Seq<Seq<char>>,
    at: int,
    error: rten::RunError,
)
    requires
        0 <= at < names.len(),
        nodes(model, names.take(at)) is Ok,
        node_lookup(model, names[at]) == Err::<rten::NodeId, _>(error),
    ensures
        nodes(model, names) == Err::<Seq<rten::NodeId>, _>(error),
    decreases names.len(),
{
    if at == names.len() - 1 {
        assert(names.take(at) =~= names.drop_last());
    } else {
        assert(names.drop_last().take(at) =~= names.take(at));
        lemma_first_missing(model, names.drop_last(), at, error);
    }
}

/// The inputs of a run: each node with what it is given.
pub open spec fn paired(ids: Seq<rten::NodeId>, given: Seq<Contents>) -> Seq<
    (rten::NodeId, Contents),
> {
    Seq::new(ids.len(), |i: int| (ids[i], given[i]))
}

/// A network was asked, by name, for these outputs on these inputs, and this is the
/// answer: the error of the first input name that it does not have, else of the
/// first such output name, else the outcome of a run.
pub open spec fn answered(
    model: rten::Model,
    input_names: Seq<Seq<char>>,
    given: Seq<Contents>,
    output_names: Seq<Seq<char>>,
    answer: Result<Seq<rten::Value>, rten::RunError>,
) -> bool {
    match nodes(model, input_names) {
        Err(error) => answer == Err::<Seq<rten::Value>, _>(error),
        Ok(inputs) => match nodes(model, output_names) {
            Err(error) => answer == Err::<Seq<rten::Value>, _>(error),
            Ok(outputs) => ran(model, paired(inputs, given), outputs, answer),
        },
    }
}

/// What each of some values holds.
pub open spec fn all_contents(values: Seq<rten::Value>) -> Seq<Contents> {
    values.map_values(|value: rten::Value| contents(value))
}

/// Hands each node its value and runs the network.
pub(crate) fn run_on<const N: usize>(
    model: &rten::Model,
    inputs: &Vec<rten::NodeId>,
    values: Vec<rten::Value>,
    outputs: &Vec<rten::NodeId>,
) -> (result: Result<Vec<rten::Value>, rten::RunError>)
    requires
        values@.len() == inputs@.len(),
        outputs@.len() == N,
    ensures
        ran(*model, paired(inputs@, all_contents(values@)), outputs@, outcome(result)),
        result is Ok ==> result->Ok_0@.len() == N,
{
    let ghost all = values@;
    let mut values = values;
    let mut given: Vec<(rten::NodeId, rten::Value)> = Vec::new();
    let mut i: usize = 0;
    while i < inputs.len()
        invariant
            i <= inputs@.len(),
            all.len() == inputs@.len(),
            values@ == all.skip(i as int),
            given@.len() == i,
            forall|k: int| 0 <= k < i ==> #[trigger] given@[k] == (inputs@[k], all[k]),
        decreases inputs@.len() - i,
    {
        let value = values.remove(0);
        given.push((inputs[i], value));
        i += 1;
    }
    assert(input_contents(given@) =~= paired(inputs@, all_contents(all)));
    run_n::<N>(model, given, outputs.as_slice())
}

/// Asks a network, by name, for some outputs on the given inputs.
pub(crate) fn ask<const I: usize, const N: usize>(
    model: &rten::Model,
    input_names: [&str; I],
    values: Vec<rten::Value>,
    output_names: [&str; N],
) -> (result: Result<Vec<rten::Value>, rten::RunError>)
    requires
        values@.len() == I,
    ensures
        answered(
            *model,
            texts(input_names@),
            all_contents(values@),
            texts(output_names@),
            outcome(result),
        ),
        result is Ok ==> result->Ok_0@.len() == N,
{
    let inputs = match find_nodes(model, input_names) {
        Ok(ids) => ids,
        Err(error) => return Err(error),
    };
    let outputs = match find_nodes(model, output_names) {
        Ok(ids) => ids,
        Err(error) => return Err(error),
    };
    run_on::<N>(model, &inputs, values, &outputs)
}

/// A float tensor with the cells of an array as its bit patterns.
pub(crate) fn float_value<const N: usize>(array: &Array<N>) -> (value: rten::Value)
    ensures
        contents(value) == Contents::Float(array@),
        is_grid(array@, N as nat),
{
    floats_from_bits(int_value(array))
}

/// An integer tensor with the cells of an array.
pub(crate) fn int_value<const N: usize>(array: &Array<N>) -> (value: rten::Value)
    ensures
        contents(value) == Contents::Int(array@),
        is_grid(array@, N as nat),
{
    value_from_shape(array.shape(), array.to_vec())
}

/// An integer tensor with one axis and one element.
pub open spec fn single(cell: i32) -> Contents {
    Contents::Int(Grid { dims: seq![1], cells: seq![cell] })
}

/// Makes an integer tensor with one axis and one element.
pub(crate) fn int_single(cell: i32) -> (value: rten::Value)
    ensures
        contents(value) == single(cell),
{
    let dims: [usize; 1] = [1];
    let cells: Vec<i32> = vec![cell];
    proof {
        lemma_one_axis(dims@);
        assert(dims@ =~= seq![1usize]);
        assert(cells@ =~= seq![cell]);
    }
    int_tensor(dims, cells)
}

/// Makes an integer tensor with the given axes.
pub(crate) fn int_tensor<const N: usize>(dims: [usize; N], cells: Vec<i32>) -> (value: rten::Value)
    requires
        fits(dims@),
        size(dims@) == cells@.len(),
    ensures
        contents(value) == Contents::Int(Grid { dims: dims@, cells: cells@ }),
{
    value_from_shape(dims.as_slice(), cells)
}

/// The bit patterns of a float tensor with `rank` axes.
pub open spec fn float_grid(held: Contents, rank: usize) -> Result<Grid, Fault> {
    match held {
        Contents::Float(grid) => if grid.dims.len() == rank {
            Ok(grid)
        } else {
            Err(
                Fault::Value(
                    ValueError::WrongRank { actual: grid.dims.len() as usize, expected: rank },
                ),
            )
        },
        _ => Err(
            Fault::Value(
                ValueError::WrongType { actual: kind_of(held), expected: ValueKind::FloatTensor },
            ),
        ),
    }
}

/// The elements of an integer tensor with `rank` axes.
pub open spec fn int_grid(held: Contents, rank: usize) -> Result<Grid, Fault> {
    match held {
        Contents::Int(grid) => if grid.dims.len() == rank {
            Ok(grid)
        } else {
            Err(
                Fault::Value(
                    ValueError::WrongRank { actual: grid.dims.len() as usize, expected: rank },
                ),
            )
        },
        _ => Err(
            Fault::Value(
                ValueError::WrongType { actual: kind_of(held), expected: ValueKind::Int32Tensor },
            ),
        ),
    }
}

/// The axes and cells of a taken-apart tensor, as a grid.
pub open spec fn parts<const N: usize>(result: Result<([usize; N], Vec<i32>), Error>) -> Result<
    Grid,
    Fault,
> {
    match result {
        Ok((dims, cells)) => Ok(Grid { dims: dims@, cells: cells@ }),
        Err(error) => Err(error@),
    }
}

/// Takes a float tensor apart: the lengths of its axes and its bit patterns.
pub fn float_parts<const N: usize>(value: rten::Value) -> (result: Result<
    ([usize; N], Vec<i32>),
    Error,
>)
    ensures
        parts(result) == float_grid(contents(value), N),
{
    match bits_from_floats(value) {
        Ok(bits) => int_parts::<N>(bits),
        Err(other) => {
            let actual = value_dtype(&other);
            Err(Error::Value(ValueError::WrongType { actual, expected: ValueKind::FloatTensor }))
        },
    }
}

/// Takes an integer tensor apart: the lengths of its axes and its elements.
pub fn int_parts<const N: usize>(value: rten::Value) -> (result: Result<
    ([usize; N], Vec<i32>),
    Error,
>)
    ensures
        parts(result) == int_grid(contents(value), N),
{
    let actual = value_dtype(&value);
    match value_into_shape_vec::<N>(value) {
        Ok(found) => Ok(found),
        Err(Some((actual, expected))) => Err(
            Error::Value(ValueError::WrongRank { actual, expected }),
        ),
        Err(None) => Err(
            Error::Value(ValueError::WrongType { actual, expected: ValueKind::Int32Tensor }),
        ),
    }
}

/// A grid, if an array can hold it, else the reason with its context before it.
pub open spec fn array_of(grid: Grid, context: Seq<char>) -> Result<Grid, Fault> {
    match shape_fault(grid.dims, grid.cells.len()) {
        None => Ok(grid),
        Some(reason) => Err(Fault::Model(context + reason)),
    }
}

/// Builds an array; a failure is reported with its context before the reason.
pub fn build_array<const N: usize>(dims: [usize; N], cells: Vec<i32>, context: &str) -> (result:
    Result<Array<N>, Error>)
    ensures
        seen(result) == array_of(Grid { dims: dims@, cells: cells@ }, context@),
{
    match Array::from_shape_vec(dims, cells) {
        Ok(array) => Ok(array),
        Err(reason) => Err(Error::Model(join(context, reason.as_str()))),
    }
}

/// The array that a float tensor with `rank` axes holds.
pub open spec fn float_array_of(held: Contents, rank: usize, context: Seq<char>) -> Result<
    Grid,
    Fault,
> {
    match float_grid(held, rank) {
        Ok(grid) => array_of(grid, context),
        Err(fault) => Err(fault),
    }
}

/// Takes the array out of a float tensor.
pub fn float_array<const N: usize>(value: rten::Value, context: &str) -> (result: Result<
    Array<N>,
    Error,
>)
    ensures
        seen(result) == float_array_of(contents(value), N, context@),
{
    match float_parts::<N>(value) {
        Ok((dims, cells)) => build_array(dims, cells, context),
        Err(error) => Err(error),
    }
}

/// A network that has all the names is found to have them: each name's node is the one
/// that the network gives for it.
pub proof fn law_every_name_has_its_node(
    model: rten::Model,
    names: Seq<Seq<char>>,
    ids: Seq<rten::NodeId>,
)
    requires
        ids.len() == names.len(),
        forall|i: int|
            0 <= i < names.len() ==> #[trigger] node_lookup(model, names[i]) == Ok::<
                _,
                rten::RunError,
            >(ids[i]),
    ensures
        nodes(model, names) == Ok::<_, rten::RunError>(ids),
    decreases names.len(),
{
    if names.len() > 0 {
        let (rest, found) = (names.drop_last(), ids.drop_last());
        assert forall|i: int| 0 <= i < rest.len() implies #[trigger] node_lookup(model, rest[i])
            == Ok::<_, rten::RunError>(found[i]) by {
            assert(node_lookup(model, names[i]) == Ok::<_, rten::RunError>(ids[i]));
        }
        law_every_name_has_its_node(model, rest, found);
        assert(node_lookup(model, names[names.len() - 1]) is Ok);
        assert(found.push(ids.last()) =~= ids);
    } else {
        assert(ids =~= Seq::empty());
    }
}

/// The first name that a network does not have decides what looking them up reports.
pub proof fn law_first_missing_name_decides(
    model: rten::Model,
    names: Seq<Seq<char>>,
    at: int,
    error: rten::RunError,
)
    requires
        0 <= at < names.len(),
        forall|i: int| 0 <= i < at ==> (#[trigger] node_lookup(model, names[i])) is Ok,
        node_lookup(model, names[at]) == Err::<rten::NodeId, _>(error),
    ensures
        nodes(model, names) == Err::<Seq<rten::NodeId>, _>(error),
{
    let before = names.take(at);
    let ids = Seq::new(at as nat, |i: int| node_lookup(model, names[i])->Ok_0);
    assert forall|i: int| 0 <= i < before.len() implies #[trigger] node_lookup(model, before[i])
        == Ok::<_, rten::RunError>(ids[i]) by {
        assert(node_lookup(model, names[i]) is Ok);
    }
    law_every_name_has_its_node(model, before, ids);
    lemma_first_missing(model, names, at, error);
}

/// Where a network has all the names that it is asked by, it is run, each input node on
/// the value that was given under its name, and for the output nodes in their order;
/// the answer is the outcome of that run.
pub proof fn law_each_node_gets_its_value(
    model: rten::Model,
    input_names: Seq<Seq<char>>,
    given: Seq<Contents>,
    output_names: Seq<Seq<char>>,
    answer: Result<Seq<rten::Value>, rten::RunError>,
    run: Seq<(rten::NodeId, Contents)>,
    outputs: Seq<rten::NodeId>,
)
    requires
        answered(model, input_names, given, output_names, answer),
        run.len() == input_names.len(),
        outputs.len() == output_names.len(),
        forall|i: int|
            0 <= i < input_names.len() ==> #[trigger] node_lookup(model, input_names[i]) == Ok::<
                _,
                rten::RunError,
            >(run[i].0),
        forall|i: int| 0 <= i < run.len() ==> (#[trigger] run[i]).1 == given[i],
        forall|i: int|
            0 <= i < output_names.len() ==> #[trigger] node_lookup(model, output_names[i]) == Ok::<
                _,
                rten::RunError,
            >(outputs[i]),
    ensures
        ran(model, run, outputs, answer),
{
    let inputs = Seq::new(run.len(), |i: int| run[i].0);
    law_every_name_has_its_node(model, input_names, inputs);
    law_every_name_has_its_node(model, output_names, outputs);
    assert(paired(inputs, given) =~= run);
}

/// A network that lacks a name is not run: the answer is the error of the first name
/// that it lacks, the names of the inputs before those of the outputs.
pub proof fn law_missing_name_is_answered_with_its_error(
    model: rten::Model,
    input_names: Seq<Seq<char>>,
    given: Seq<Contents>,
    output_names: Seq<Seq<char>>,
    answer: Result<Seq<rten::Value>, rten::RunError>,
    at: int,
    error: rten::RunError,
)
    requires
        answered(model, input_names, given, output_names, answer),
        0 <= at < input_names.len() + output_names.len(),
        forall|i: int|
            0 <= i < at ==> (#[trigger] node_lookup(model, (input_names + output_names)[i])) is Ok,
        node_lookup(model, (input_names + output_names)[at]) == Err::<rten::NodeId, _>(error),
    ensures
        answer == Err::<Seq<rten::Value>, _>(error),
{
    let all = input_names + output_names;
    let count = input_names.len() as int;
    assert forall|i: int| 0 <= i < count && i < at implies (#[trigger] node_lookup(
        model,
        input_names[i],
    )) is Ok by {
        assert(node_lookup(model, all[i]) is Ok);
    }
    if at < count {
        law_first_missing_name_decides(model, input_names, at, error);
    } else {
        let inputs = Seq::new(
            input_names.len(),
            |i: int| node_lookup(model, input_names[i])->Ok_0,
        );
        law_every_name_has_its_node(model, input_names, inputs);
        assert forall|i: int| 0 <= i < at - count implies (#[trigger] node_lookup(
            model,
            output_names[i],
        )) is Ok by {
            assert(node_lookup(model, all[count + i]) is Ok);
        }
        law_first_missing_name_decides(model, output_names, at - count, error);
    }
}

/// What is said of values, inputs, outcomes and names is said of each of them in its
/// place.
pub proof fn law_views_keep_every_place(
    values: Seq<rten::Value>,
    inputs: Seq<(rten::NodeId, rten::Value)>,
    names: Seq<&str>,
    outputs: Vec<rten::Value>,
    error: rten::RunError,
)
    ensures
        all_contents(values).len() == values.len(),
        forall|i: int|
            0 <= i < values.len() ==> #[trigger] all_contents(values)[i] == contents(values[i]),
        input_contents(inputs).len() == inputs.len(),
        forall|i: int|
            0 <= i < inputs.len() ==> #[trigger] input_contents(inputs)[i] == (
                inputs[i].0,
                contents(inputs[i].1),
            ),
        texts(names).len() == names.len(),
        forall|i: int| 0 <= i < names.len() ==> #[trigger] texts(names)[i] == names[i]@,
        outcome(Ok(outputs)) == Ok::<_, rten::RunError>(outputs@),
        outcome(Err(error)) == Err::<Seq<rten::Value>, _>(error),
{
}

/// A tensor is read exactly where it has the right type and the right number of axes,
/// and then unchanged; the error names the type found and the one expected, or both
/// numbers of axes.
pub proof fn law_tensors_are_read_by_type_and_rank(grid: Grid, kind: ValueKind, rank: usize)
    ensures
        grid.dims.len() == rank ==> {
            &&& float_grid(Contents::Float(grid), rank) == Ok::<_, Fault>(grid)
            &&& int_grid(Contents::Int(grid), rank) == Ok::<_, Fault>(grid)
        },
        grid.dims.len() != rank ==> {
            let fault = Fault::Value(
                ValueError::WrongRank { actual: grid.dims.len() as usize, expected: rank },
            );
            &&& float_grid(Contents::Float(grid), rank) == Err::<Grid, _>(fault)
            &&& int_grid(Contents::Int(grid), rank) == Err::<Grid, _>(fault)
        },
        float_grid(Contents::Int(grid), rank) == Err::<Grid, _>(
            Fault::Value(
                ValueError::WrongType {
                    actual: ValueKind::Int32Tensor,
                    expected: ValueKind::FloatTensor,
                },
            ),
        ),
        float_grid(Contents::Other(kind), rank) == Err::<Grid, _>(
            Fault::Value(
                ValueError::WrongType { actual: kind, expected: ValueKind::FloatTensor },
            ),
        ),
        int_grid(Contents::Float(grid), rank) == Err::<Grid, _>(
            Fault::Value(
                ValueError::WrongType {
                    actual: ValueKind::FloatTensor,
                    expected: ValueKind::Int32Tensor,
                },
            ),
        ),
        int_grid(Contents::Other(kind), rank) == Err::<Grid, _>(
            Fault::Value(
                ValueError::WrongType { actual: kind, expected: ValueKind::Int32Tensor },
            ),
        ),
{
}

/// A float tensor becomes an array with its axes and cells where it has the right
/// number of axes and as many cells as they ask for; an array that cannot be made is
/// reported as a model error, its context before the reason.
pub proof fn law_arrays_are_made_unchanged(grid: Grid, rank: usize, context: Seq<char>)
    ensures
        is_grid(grid, rank as nat) ==> {
            &&& array_of(grid, context) == Ok::<_, Fault>(grid)
            &&& float_array_of(Contents::Float(grid), rank, context) == Ok::<_, Fault>(grid)
        },
        array_of(grid, context) is Ok ==> fits(grid.dims) && grid.cells.len() == size(grid.dims),
        float_array_of(Contents::Float(grid), rank, context) is Ok ==> is_grid(grid, rank as nat),
        shape_fault(grid.dims, grid.cells.len()) matches Some(reason) ==> {
            &&& array_of(grid, context) == Err::<Grid, _>(Fault::Model(context + reason))
            &&& grid.dims.len() == rank ==> float_array_of(Contents::Float(grid), rank, context)
                == Err::<Grid, _>(Fault::Model(context + reason))
        },
{
}

/// A tensor that was taken apart is seen as its axes with its cells, and an error as
/// the error that it is.
pub proof fn law_parts_are_seen_as_they_are<const N: usize>(
    dims: [usize; N],
    cells: Vec<i32>,
    error: Error,
)
    ensures
        parts(Ok::<([usize; N], Vec<i32>), Error>((dims, cells))) == Ok::<_, Fault>(
            Grid { dims: dims@, cells: cells@ },
        ),
        parts(Err::<([usize; N], Vec<i32>), Error>(error)) == Err::<Grid, _>(error@),
{
}

} // verus!

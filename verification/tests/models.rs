use parakeet::array::{Array1, Array2, Array3, Array4};
use parakeet::config::ModelConfig;
use parakeet::error::{Error, ValueError, ValueKind};
use parakeet::model::ParakeetModel;
use parakeet::model_eou::{EncoderCache, ParakeetEOUModel};
use parakeet::model_tdt::{Decoder, ParakeetTDTModel, TDTModelConfig};

// Small networks in the ONNX format, written out field by field.

const FLOAT: u64 = 1;
const INT32: u64 = 6;
const INT64: u64 = 7;

fn varint(mut value: u64, out: &mut Vec<u8>) {
    while value >= 128 {
        out.push((value as u8) | 128);
        value >>= 7;
    }
    out.push(value as u8);
}

fn number(field: u64, value: u64) -> Vec<u8> {
    let mut out = Vec::new();
    varint(field << 3, &mut out);
    varint(value, &mut out);
    out
}

fn block(field: u64, data: &[u8]) -> Vec<u8> {
    let mut out = Vec::new();
    varint(field << 3 | 2, &mut out);
    varint(data.len() as u64, &mut out);
    out.extend_from_slice(data);
    out
}

fn node(op: &str, inputs: &[&str], outputs: &[&str], attributes: &[Vec<u8>]) -> Vec<u8> {
    let mut data = Vec::new();
    for name in inputs {
        data.extend(block(1, name.as_bytes()));
    }
    for name in outputs {
        data.extend(block(2, name.as_bytes()));
    }
    data.extend(block(3, format!("{}-{}", op, outputs[0]).as_bytes()));
    data.extend(block(4, op.as_bytes()));
    for attribute in attributes {
        data.extend(block(5, attribute));
    }
    block(1, &data)
}

fn int_attribute(name: &str, value: u64) -> Vec<u8> {
    let mut data = block(1, name.as_bytes());
    data.extend(number(3, value));
    data.extend(number(20, 2));
    data
}

fn constant(name: &str, kind: u64, dims: &[u64], raw: &[u8]) -> Vec<u8> {
    let mut data = Vec::new();
    for dim in dims {
        data.extend(number(1, *dim));
    }
    data.extend(number(2, kind));
    data.extend(block(8, name.as_bytes()));
    data.extend(block(9, raw));
    block(5, &data)
}

fn floats(name: &str, dims: &[u64], values: &[f32]) -> Vec<u8> {
    let raw: Vec<u8> = values.iter().flat_map(|v| v.to_le_bytes()).collect();
    constant(name, FLOAT, dims, &raw)
}

fn longs(name: &str, values: &[i64]) -> Vec<u8> {
    let raw: Vec<u8> = values.iter().flat_map(|v| v.to_le_bytes()).collect();
    constant(name, INT64, &[values.len() as u64], &raw)
}

fn value_info(field: u64, name: &str, kind: u64, rank: usize) -> Vec<u8> {
    let mut shape = Vec::new();
    for axis in 0..rank {
        shape.extend(block(1, &block(2, format!("{}-{}", name, axis).as_bytes())));
    }
    let mut tensor = number(1, kind);
    tensor.extend(block(2, &shape));
    let mut data = block(1, name.as_bytes());
    data.extend(block(2, &block(1, &tensor)));
    block(field, &data)
}

fn input(name: &str, kind: u64, rank: usize) -> Vec<u8> {
    value_info(11, name, kind, rank)
}

fn output(name: &str, kind: u64, rank: usize) -> Vec<u8> {
    value_info(12, name, kind, rank)
}

fn network(parts: &[Vec<u8>]) -> rten::Model {
    let mut graph = Vec::new();
    for part in parts {
        graph.extend_from_slice(part);
    }
    graph.extend(block(2, b"graph"));
    let mut opset = block(1, b"");
    opset.extend(number(2, 17));
    let mut data = number(1, 8);
    data.extend(block(7, &graph));
    data.extend(block(8, &opset));
    rten::Model::load(data).unwrap()
}

fn bits(values: &[f32]) -> Vec<i32> {
    values.iter().map(|v| v.to_bits() as i32).collect()
}

fn unbits(cells: &[i32]) -> Vec<f32> {
    cells.iter().map(|c| f32::from_bits(*c as u32)).collect()
}

fn message(error: Error) -> String {
    match error {
        Error::Config(text) => format!("config: {}", text),
        Error::Model(text) => format!("model: {}", text),
        Error::Run(error) => format!("run: {}", error),
        Error::Value(error) => format!("value: {:?}", error),
    }
}

fn ctc(parts: &[Vec<u8>]) -> ParakeetModel {
    let config = ModelConfig { vocab_size: 4, pad_token_id: 3 };
    let mut all = vec![input("input_features", FLOAT, 3), input("attention_mask", INT32, 2)];
    all.extend_from_slice(parts);
    ParakeetModel::new(network(&all), config)
}

fn features() -> Array2 {
    Array2::from_shape_vec([2, 3], bits(&[1.0, 2.0, 3.0, 4.0, 5.0, 6.0])).unwrap()
}

// The mask, as floats with the axes batch, time and one.
fn mask_parts() -> Vec<Vec<u8>> {
    vec![
        node("Cast", &["attention_mask"], &["mask"], &[int_attribute("to", FLOAT)]),
        longs("last", &[2]),
        node("Unsqueeze", &["mask", "last"], &["mask_column"], &[]),
    ]
}

#[test]
fn ctc_gives_the_scores_without_the_batch() {
    let mut parts = mask_parts();
    parts.push(node("Add", &["input_features", "mask_column"], &["logits"], &[]));
    parts.push(output("logits", FLOAT, 3));
    let mut model = ctc(&parts);
    let scores = model.forward(features()).unwrap();
    assert_eq!(scores.shape(), &[2, 3]);
    assert_eq!(unbits(&scores.to_vec()), vec![2.0, 3.0, 4.0, 5.0, 6.0, 7.0]);
    assert_eq!(model.vocab_size(), 4);
    assert_eq!(model.pad_token_id(), 3);
    assert_eq!(*model.config(), ModelConfig { vocab_size: 4, pad_token_id: 3 });
}

#[test]
fn ctc_refuses_a_batch_of_two() {
    let mut model = ctc(&[
        node(
            "Concat",
            &["input_features", "input_features"],
            &["logits"],
            &[int_attribute("axis", 0)],
        ),
        output("logits", FLOAT, 3),
    ]);
    let error = model.forward(features()).unwrap_err();
    assert_eq!(message(error), "model: Expected batch size 1, got 2");
}

#[test]
fn ctc_refuses_scores_of_another_rank_or_type() {
    let mut model = ctc(&[
        node("Cast", &["attention_mask"], &["mask"], &[int_attribute("to", FLOAT)]),
        node("Add", &["mask", "mask"], &["logits"], &[]),
        output("logits", FLOAT, 2),
    ]);
    assert!(matches!(
        model.forward(features()),
        Err(Error::Value(ValueError::WrongRank { actual: 2, expected: 3 }))
    ));
    let mut model = ctc(&[
        node("Add", &["attention_mask", "attention_mask"], &["logits"], &[]),
        output("logits", INT32, 2),
    ]);
    assert!(matches!(
        model.forward(features()),
        Err(Error::Value(ValueError::WrongType {
            actual: ValueKind::Int32Tensor,
            expected: ValueKind::FloatTensor
        }))
    ));
}

#[test]
fn ctc_names_the_first_missing_node() {
    let mut model = ctc(&[
        node("Add", &["input_features", "input_features"], &["scores"], &[]),
        output("scores", FLOAT, 3),
    ]);
    let error = model.forward(features()).unwrap_err();
    assert_eq!(message(error), "run: no node found with name logits");
    let mut model = ParakeetModel::new(
        network(&[
            input("audio", FLOAT, 3),
            node("Add", &["audio", "audio"], &["scores"], &[]),
            output("scores", FLOAT, 3),
        ]),
        ModelConfig { vocab_size: 4, pad_token_id: 3 },
    );
    let error = model.forward(features()).unwrap_err();
    assert_eq!(message(error), "run: no node found with name input_features");
}

#[test]
fn ctc_output_is_read_from_values() {
    let value = rten::Value::from_shape([1, 2, 2], vec![1.0f32, 2.0, 3.0, 4.0]).unwrap();
    let scores = ParakeetModel::read(vec![value]).unwrap();
    assert_eq!(scores.shape(), &[2, 2]);
    assert_eq!(unbits(&scores.to_vec()), vec![1.0, 2.0, 3.0, 4.0]);
    let value = rten::Value::from_shape([0, 2, 2], Vec::<f32>::new()).unwrap();
    let error = ParakeetModel::read(vec![value]).unwrap_err();
    assert_eq!(message(error), "model: Expected batch size 1, got 0");
}

fn eou_encoder() -> rten::Model {
    network(&[
        input("audio_signal", FLOAT, 3),
        input("length", INT32, 1),
        input("cache_last_channel", FLOAT, 4),
        input("cache_last_time", FLOAT, 4),
        input("cache_last_channel_len", INT32, 1),
        floats("one", &[1], &[1.0]),
        floats("two", &[1], &[2.0]),
        node("Add", &["audio_signal", "one"], &["outputs"], &[]),
        node("Add", &["cache_last_channel", "two"], &["new_cache_last_channel"], &[]),
        node("Add", &["cache_last_time", "one"], &["new_cache_last_time"], &[]),
        node("Add", &["cache_last_channel_len", "length"], &["new_cache_last_channel_len"], &[]),
        output("outputs", FLOAT, 3),
        output("new_cache_last_channel", FLOAT, 4),
        output("new_cache_last_time", FLOAT, 4),
        output("new_cache_last_channel_len", INT32, 1),
    ])
}

fn eou_decoder(scores_shape: &[i64]) -> rten::Model {
    network(&[
        input("encoder_outputs", FLOAT, 3),
        input("targets", INT32, 2),
        input("target_length", INT32, 1),
        input("input_states_1", FLOAT, 3),
        input("input_states_2", FLOAT, 3),
        floats("one", &[1], &[1.0]),
        longs("flat", scores_shape),
        node("Add", &["targets", "target_length"], &["target"], &[]),
        node("Cast", &["target"], &["target_float"], &[int_attribute("to", FLOAT)]),
        node("Reshape", &["encoder_outputs", "flat"], &["frame"], &[]),
        node("Add", &["frame", "target_float"], &["outputs"], &[]),
        node("Add", &["input_states_1", "one"], &["output_states_1"], &[]),
        node("Sub", &["input_states_2", "one"], &["output_states_2"], &[]),
        output("outputs", FLOAT, 4),
        output("output_states_1", FLOAT, 3),
        output("output_states_2", FLOAT, 3),
    ])
}

#[test]
fn eou_encoder_carries_its_cache_over() {
    let mut model = ParakeetEOUModel::new(eou_encoder(), eou_decoder(&[1, 1, 1, -1]));
    let chunk = Array3::from_shape_vec([1, 2, 2], bits(&[0.5, 1.5, 2.5, 3.5])).unwrap();
    let (encoded, cache) = model.run_encoder(&chunk, 2, &EncoderCache::new()).unwrap();
    assert_eq!(encoded.shape(), &[1, 2, 2]);
    assert_eq!(unbits(&encoded.to_vec()), vec![1.5, 2.5, 3.5, 4.5]);
    assert_eq!(cache.cache_last_channel.shape(), &[17, 1, 70, 512]);
    assert_eq!(cache.cache_last_time.shape(), &[17, 1, 512, 8]);
    assert_eq!(cache.cache_last_channel_len.to_vec(), vec![2]);
    assert!(unbits(&cache.cache_last_channel.to_vec()).iter().all(|c| *c == 2.0));
    let (_, cache) = model.run_encoder(&chunk, 3, &cache).unwrap();
    assert!(unbits(&cache.cache_last_channel.to_vec()).iter().all(|c| *c == 4.0));
    assert!(unbits(&cache.cache_last_time.to_vec()).iter().all(|c| *c == 2.0));
    assert_eq!(cache.cache_last_channel_len.to_vec(), vec![5]);
}

#[test]
fn eou_encoder_tells_the_length_as_a_32_bit_number() {
    let mut model = ParakeetEOUModel::new(eou_encoder(), eou_decoder(&[1, 1, 1, -1]));
    let chunk = Array3::from_shape_vec([1, 1, 1], bits(&[0.5])).unwrap();
    let cache = EncoderCache {
        cache_last_channel: Array4::zeros([1, 1, 1, 1]),
        cache_last_time: Array4::zeros([1, 1, 1, 1]),
        cache_last_channel_len: Array1::from_shape_vec([1], vec![10]).unwrap(),
    };
    let (_, cache) = model.run_encoder(&chunk, 0x1_0000_0007, &cache).unwrap();
    assert_eq!(cache.cache_last_channel_len.to_vec(), vec![17]);
}

#[test]
fn eou_encoder_reports_the_first_output_that_is_wrong() {
    let scalar = |rank: usize| rten::Value::from_shape(vec![1; rank], vec![1.0f32]).unwrap();
    let int = || rten::Value::from_shape([1], vec![1i32]).unwrap();
    assert!(ParakeetEOUModel::read_encoder(vec![scalar(3), scalar(4), scalar(4), int()]).is_ok());
    let error = |values: Vec<rten::Value>| match ParakeetEOUModel::read_encoder(values) {
        Ok(_) => panic!("accepted"),
        Err(error) => message(error),
    };
    assert_eq!(
        error(vec![int(), scalar(3), scalar(4), int()]),
        "value: WrongType { actual: Int32Tensor, expected: FloatTensor }"
    );
    assert_eq!(
        error(vec![scalar(3), scalar(2), scalar(3), int()]),
        "value: WrongRank { actual: 2, expected: 4 }"
    );
    assert_eq!(
        error(vec![scalar(3), scalar(4), scalar(3), int()]),
        "value: WrongRank { actual: 3, expected: 4 }"
    );
    assert_eq!(
        error(vec![scalar(3), scalar(4), scalar(4), scalar(1)]),
        "value: WrongType { actual: FloatTensor, expected: Int32Tensor }"
    );
}

fn state(value: f32) -> Array3 {
    Array3::from_shape_vec([1, 1, 640], bits(&vec![value; 640])).unwrap()
}

#[test]
fn eou_decoder_gives_scores_and_states() {
    let mut model = ParakeetEOUModel::new(eou_encoder(), eou_decoder(&[1, 1, 1, -1]));
    let frame = Array3::from_shape_vec([1, 4, 1], bits(&[0.0, 1.0, 2.0, 3.0])).unwrap();
    let token = Array2::from_shape_vec([1, 1], vec![7]).unwrap();
    let (scores, h, c) = model.run_decoder(&frame, &token, &state(2.0), &state(5.0)).unwrap();
    assert_eq!(scores.shape(), &[1, 1, 4]);
    assert_eq!(unbits(&scores.to_vec()), vec![8.0, 9.0, 10.0, 11.0]);
    assert_eq!(h.shape(), &[1, 1, 640]);
    assert_eq!(h.to_vec(), state(3.0).to_vec());
    assert_eq!(c.to_vec(), state(4.0).to_vec());
}

#[test]
fn eou_decoder_refuses_more_than_one_list_of_scores() {
    let mut model = ParakeetEOUModel::new(eou_encoder(), eou_decoder(&[1, 2, 1, -1]));
    let frame = Array3::from_shape_vec([1, 4, 1], bits(&[0.0, 1.0, 2.0, 3.0])).unwrap();
    let token = Array2::from_shape_vec([1, 1], vec![7]).unwrap();
    let error = model.run_decoder(&frame, &token, &state(2.0), &state(5.0)).unwrap_err();
    assert_eq!(
        message(error),
        "model: Reshape logits failed: ShapeError/IncompatibleShape: incompatible shapes"
    );
}

#[test]
fn eou_decoder_refuses_states_of_another_size() {
    let scores = || rten::Value::from_shape([1, 1, 1, 2], vec![1.0f32, 2.0]).unwrap();
    let cells = |n: usize| rten::Value::from_shape([1, 1, n], vec![1.0f32; n]).unwrap();
    assert!(ParakeetEOUModel::read_decoder(vec![scores(), cells(640), cells(640)]).is_ok());
    let error = ParakeetEOUModel::read_decoder(vec![scores(), cells(639), cells(640)]).unwrap_err();
    assert_eq!(
        message(error),
        "model: Reshape state h failed: ShapeError/OutOfBounds: out of bounds indexing"
    );
    let error = ParakeetEOUModel::read_decoder(vec![scores(), cells(640), cells(641)]).unwrap_err();
    assert_eq!(
        message(error),
        "model: Reshape state c failed: ShapeError/IncompatibleShape: incompatible shapes"
    );
}

#[test]
fn eou_decoder_names_the_first_missing_node() {
    let mut model = ParakeetEOUModel::new(eou_encoder(), eou_encoder());
    let frame = Array3::from_shape_vec([1, 1, 1], vec![0]).unwrap();
    let token = Array2::from_shape_vec([1, 1], vec![0]).unwrap();
    let error = model.run_decoder(&frame, &token, &state(0.0), &state(0.0)).unwrap_err();
    assert_eq!(message(error), "run: no node found with name encoder_outputs");
}

// The encoded frames are the features; the length is the number of time steps.
fn tdt_encoder() -> rten::Model {
    network(&[
        input("audio_signal", FLOAT, 3),
        input("length", INT32, 1),
        floats("zero", &[1], &[0.0]),
        longs("none", &[0]),
        node("Cast", &["none"], &["none_int"], &[int_attribute("to", INT32)]),
        node("Add", &["audio_signal", "zero"], &["outputs"], &[]),
        node("Add", &["length", "none_int"], &["encoded_lengths"], &[]),
        output("outputs", FLOAT, 3),
        output("encoded_lengths", INT32, 1),
    ])
}

// The scores are the frame's features, but each token written so far adds one to the
// blank's score: the first state counts the tokens. The last target adds to the score
// of the third duration.
fn tdt_joint() -> rten::Model {
    network(&[
        input("encoder_outputs", FLOAT, 3),
        input("targets", INT32, 2),
        input("target_length", INT32, 1),
        input("input_states_1", FLOAT, 3),
        input("input_states_2", FLOAT, 3),
        floats("one", &[1], &[1.0]),
        floats("blank", &[1, 1, 1, 6], &[0.0, 0.0, 1.0, 0.0, 0.0, 0.0]),
        floats("third", &[1, 1, 1, 6], &[0.0, 0.0, 0.0, 0.0, 0.0, 1.0]),
        longs("flat", &[1, 1, 1, -1]),
        node(
            "ReduceMax",
            &["input_states_1"],
            &["count"],
            &[int_attribute("keepdims", 0)],
        ),
        node("Mul", &["blank", "count"], &["penalty"], &[]),
        node("Cast", &["targets"], &["target"], &[int_attribute("to", FLOAT)]),
        node("Mul", &["third", "target"], &["hint"], &[]),
        node("Reshape", &["encoder_outputs", "flat"], &["frame"], &[]),
        node("Add", &["frame", "penalty"], &["sum"], &[]),
        node("Add", &["sum", "hint"], &["outputs"], &[]),
        node("Add", &["input_states_1", "one"], &["output_states_1"], &[]),
        node("Sub", &["input_states_2", "one"], &["output_states_2"], &[]),
        output("outputs", FLOAT, 4),
        output("output_states_1", FLOAT, 3),
        output("output_states_2", FLOAT, 3),
    ])
}

#[test]
fn tdt_encoder_sees_time_last() {
    let mut model = ParakeetTDTModel::new(tdt_encoder(), tdt_joint(), TDTModelConfig::new(3));
    let (encoded, length) = model.run_encoder(&features()).unwrap();
    assert_eq!(encoded.shape(), &[1, 3, 2]);
    assert_eq!(unbits(&encoded.to_vec()), vec![1.0, 4.0, 2.0, 5.0, 3.0, 6.0]);
    assert_eq!(length, 2);
}

#[test]
fn tdt_transcribes() {
    let mut model = ParakeetTDTModel::new(tdt_encoder(), tdt_joint(), TDTModelConfig::new(3));
    // Tokens 0 and 1, the blank, and three durations.
    let rows = vec![
        // Two tokens until the blank's score has grown to two; then on by duration 2.
        [1.5, 0.0, 0.0, 0.0, 0.0, 0.5],
        [9.0, 9.0, 9.0, 9.0, 9.0, 9.0],
        // The blank at once (its score is two): on by one frame.
        [1.0, 0.0, 0.0, 0.0, 9.0, 0.0],
        // Token 1 once; equal scores fall to the later one, which is the blank.
        [0.0, 3.0, 0.0, 5.0, 0.0, 0.0],
        // One more frame of silence.
        [0.0, 0.0, 0.0, 0.0, 0.0, 0.0],
    ];
    let cells: Vec<f32> = rows.iter().flatten().copied().collect();
    let features = Array2::from_shape_vec([5, 6], bits(&cells)).unwrap();
    let (tokens, frames, durations) = model.forward(features).unwrap();
    assert_eq!(tokens, vec![0, 0, 1]);
    assert_eq!(frames, vec![0, 0, 3]);
    // The first run is told of the blank, token 2, which favours the third duration.
    assert_eq!(durations, vec![2, 2, 0]);
}

#[test]
fn tdt_leaves_a_frame_after_ten_tokens() {
    let mut model = ParakeetTDTModel::new(tdt_encoder(), tdt_joint(), TDTModelConfig::new(3));
    let row = [100.0, 0.0, 0.0, 9.0, 0.0, 0.0];
    let cells: Vec<f32> = [row, row].iter().flatten().copied().collect();
    let features = Array2::from_shape_vec([2, 6], bits(&cells)).unwrap();
    let (tokens, frames, durations) = model.forward(features).unwrap();
    assert_eq!(tokens, vec![0; 20]);
    assert_eq!(frames[..10], [0; 10]);
    assert_eq!(frames[10..], [1; 10]);
    assert_eq!(durations, vec![0; 20]);
}

#[test]
fn tdt_without_frames_has_no_tokens() {
    let mut model = ParakeetTDTModel::new(tdt_encoder(), tdt_joint(), TDTModelConfig::new(3));
    let encoded = Array3::from_shape_vec([1, 6, 0], vec![]).unwrap();
    let (tokens, frames, durations) = model.greedy_decode(&encoded, 0).unwrap();
    assert!(tokens.is_empty() && frames.is_empty() && durations.is_empty());
    // The names are looked up even so.
    let mut model = ParakeetTDTModel::new(tdt_encoder(), tdt_encoder(), TDTModelConfig::new(3));
    let error = model.greedy_decode(&encoded, 0).unwrap_err();
    assert_eq!(message(error), "run: no node found with name encoder_outputs");
}

// An encoder that gives frames, but a batch of none.
fn tdt_encoder_without_batch() -> rten::Model {
    network(&[
        input("audio_signal", FLOAT, 3),
        input("length", INT32, 1),
        longs("start", &[0]),
        longs("end", &[0]),
        longs("axis", &[0]),
        node("Slice", &["audio_signal", "start", "end", "axis"], &["outputs"], &[]),
        node("Add", &["length", "length"], &["encoded_lengths"], &[]),
        output("outputs", FLOAT, 3),
        output("encoded_lengths", INT32, 1),
    ])
}

#[test]
fn tdt_refuses_frames_without_a_batch() {
    let config = TDTModelConfig::new(3);
    let mut model = ParakeetTDTModel::new(tdt_encoder_without_batch(), tdt_joint(), config);
    let error = model.forward(features()).unwrap_err();
    assert_eq!(message(error), "model: Encoder returned an empty batch");
    let encoded = Array3::from_shape_vec([0, 6, 2], vec![]).unwrap();
    let error = model.greedy_decode(&encoded, 2).unwrap_err();
    assert_eq!(message(error), "model: Encoder returned an empty batch");
    // With neither a batch nor frames there is nothing to refuse.
    let encoded = Array3::from_shape_vec([0, 6, 0], vec![]).unwrap();
    assert!(model.greedy_decode(&encoded, 0).unwrap().0.is_empty());
}

#[test]
fn tdt_names_a_missing_node_before_it_looks_at_the_frames() {
    let config = TDTModelConfig::new(3);
    // No input of the decoder is there.
    let mut model = ParakeetTDTModel::new(tdt_encoder_without_batch(), tdt_encoder(), config);
    let error = model.forward(features()).unwrap_err();
    assert_eq!(message(error), "run: no node found with name encoder_outputs");
    // All inputs are there, but not the last output.
    let joint = network(&[
        input("encoder_outputs", FLOAT, 3),
        input("targets", INT32, 2),
        input("target_length", INT32, 1),
        input("input_states_1", FLOAT, 3),
        input("input_states_2", FLOAT, 3),
        node("Add", &["encoder_outputs", "encoder_outputs"], &["outputs"], &[]),
        node("Add", &["input_states_1", "input_states_2"], &["output_states_1"], &[]),
        output("outputs", FLOAT, 3),
        output("output_states_1", FLOAT, 3),
    ]);
    let mut model = ParakeetTDTModel::new(tdt_encoder_without_batch(), joint, config);
    let error = model.forward(features()).unwrap_err();
    assert_eq!(message(error), "run: no node found with name output_states_2");
}

#[test]
fn tdt_hands_on_what_the_encoder_fails_with() {
    let config = TDTModelConfig::new(3);
    let mut model = ParakeetTDTModel::new(tdt_joint(), tdt_encoder(), config);
    let error = model.forward(features()).unwrap_err();
    assert_eq!(message(error), "run: no node found with name audio_signal");
}

#[test]
fn tdt_encoder_output_is_read_from_values() {
    let frames = |dims: [usize; 3], n: usize| {
        rten::Value::from_shape(dims, vec![1.0f32; n]).unwrap()
    };
    let lens = |values: Vec<i32>| rten::Value::from_shape([values.len()], values).unwrap();
    let (encoded, length) =
        ParakeetTDTModel::read_encoder(vec![frames([1, 2, 3], 6), lens(vec![-3, 8])]).unwrap();
    assert_eq!(encoded.shape(), &[1, 2, 3]);
    assert_eq!(length, -3);
    let error = ParakeetTDTModel::read_encoder(vec![frames([1, 2, 3], 6), lens(vec![])]);
    assert_eq!(message(error.unwrap_err()), "model: Encoder returned no lengths");
    let error = ParakeetTDTModel::read_encoder(vec![frames([1, 2, 3], 6), frames([1, 1, 1], 1)]);
    assert_eq!(
        message(error.unwrap_err()),
        "value: WrongType { actual: FloatTensor, expected: Int32Tensor }"
    );
}

// A decoder's outputs, with states that say which step they come from.
fn joint_values(scores: &[f32], step: usize) -> Vec<rten::Value> {
    let state = |sign: f32| rten::Value::from_shape([2, 1, 640], vec![sign * step as f32; 1280]);
    vec![
        rten::Value::from_shape([1, 1, 1, scores.len()], scores.to_vec()).unwrap(),
        state(1.0).unwrap(),
        state(-1.0).unwrap(),
    ]
}

fn reference_best(scores: &[f32]) -> Option<usize> {
    scores
        .iter()
        .enumerate()
        .max_by(|(_, a), (_, b)| a.partial_cmp(b).unwrap_or(std::cmp::Ordering::Equal))
        .map(|(index, _)| index)
}

#[test]
fn decoder_follows_the_scores() {
    let mut seed: u64 = 99;
    let mut random = |n: u64| {
        seed = seed.wrapping_mul(6364136223846793005).wrapping_add(1442695040888963407);
        (seed >> 33) % n
    };
    for round in 0..60 {
        let time_steps = 1 + random(12) as usize;
        let vocab_size = 2 + random(4) as usize;
        let width = vocab_size + random(5) as usize;
        let blank = vocab_size - 1;
        let mut decoder = Decoder::new(vocab_size, time_steps);
        let (mut tokens, mut frames, mut durations) = (Vec::new(), Vec::new(), Vec::new());
        let (mut t, mut emitted, mut last, mut written_at) = (0, 0, blank as i32, 0);
        let mut steps = 0;
        while t < time_steps {
            assert!(!decoder.search.is_over());
            steps += 1;
            let scores: Vec<f32> = (0..width)
                .map(|_| match random(9) {
                    0 => f32::NAN,
                    n => n as f32,
                })
                .collect();
            decoder.take(joint_values(&scores, steps)).unwrap();
            let token = reference_best(&scores[..vocab_size]).unwrap_or(blank);
            let duration = reference_best(&scores[vocab_size..]).unwrap_or(0);
            if token != blank {
                tokens.push(token);
                frames.push(t);
                durations.push(duration);
                last = token as i32;
                emitted += 1;
                written_at = steps;
            } else {
                t += if duration > 0 && emitted > 0 { duration } else { 1 };
                emitted = 0;
            }
            if emitted >= 10 {
                t += 1;
                emitted = 0;
            }
            assert_eq!(decoder.search.last_emitted_token, last);
            assert_eq!(decoder.state_h.to_vec(), bits(&vec![written_at as f32; 1280]));
            if written_at > 0 {
                assert_eq!(decoder.state_c.to_vec(), bits(&vec![-(written_at as f32); 1280]));
            }
        }
        assert!(decoder.search.is_over(), "round {}", round);
        assert!(steps <= 10 * time_steps);
        assert_eq!(decoder.search.tokens, tokens);
        assert_eq!(decoder.search.frame_indices, frames);
        assert_eq!(decoder.search.durations, durations);
    }
}

#[test]
fn decoder_reports_wrong_outputs_and_stays() {
    let ints = || rten::Value::from_shape([1, 1, 1], vec![1i32]).unwrap();
    let mut decoder = Decoder::new(2, 3);
    // The states are looked at only when a token is written.
    let mut values = joint_values(&[0.0, 1.0], 1);
    values[1] = ints();
    decoder.take(values).unwrap();
    assert_eq!(decoder.search.frame, 1);
    let mut values = joint_values(&[1.0, 0.0], 1);
    values[1] = ints();
    assert_eq!(message(decoder.take(values).unwrap_err()), "value: WrongType { actual: Int32Tensor, expected: FloatTensor }");
    let mut values = joint_values(&[1.0, 0.0], 1);
    values[2] = rten::Value::from_shape([1], vec![1.0f32]).unwrap();
    assert_eq!(
        message(decoder.take(values).unwrap_err()),
        "value: WrongRank { actual: 1, expected: 3 }"
    );
    let mut values = joint_values(&[1.0, 0.0], 1);
    values[0] = ints();
    assert_eq!(message(decoder.take(values).unwrap_err()), "value: WrongType { actual: Int32Tensor, expected: FloatTensor }");
    assert_eq!(decoder.search.frame, 1);
    assert!(decoder.search.tokens.is_empty());
    assert_eq!(decoder.state_h.to_vec(), vec![0; 1280]);
}

#[test]
fn decoder_asks_for_the_current_frame() {
    let cells: Vec<f32> = (0..6).map(|n| n as f32).collect();
    let encoded = Array3::from_shape_vec([1, 3, 2], bits(&cells)).unwrap();
    let mut decoder = Decoder::new(5, 2);
    decoder.take(joint_values(&[0.0, 0.0, 0.0, 0.0, 1.0], 1)).unwrap();
    decoder.take(joint_values(&[0.0, 0.0, 0.0, 1.0, 0.0], 2)).unwrap();
    let mut values = decoder.request(&encoded);
    assert_eq!(values.len(), 5);
    let (shape, state_c) = values.remove(4).into_shape_vec::<f32, 3>().unwrap();
    assert_eq!((shape, state_c), ([2, 1, 640], vec![-2.0; 1280]));
    let (shape, state_h) = values.remove(3).into_shape_vec::<f32, 3>().unwrap();
    assert_eq!((shape, state_h), ([2, 1, 640], vec![2.0; 1280]));
    assert_eq!(values.remove(2).into_shape_vec::<i32, 1>().unwrap(), ([1], vec![1]));
    assert_eq!(values.remove(1).into_shape_vec::<i32, 2>().unwrap(), ([1, 1], vec![3]));
    let (shape, frame) = values.remove(0).into_shape_vec::<f32, 3>().unwrap();
    assert_eq!((shape, frame), ([1, 3, 1], vec![1.0, 3.0, 5.0]));
}

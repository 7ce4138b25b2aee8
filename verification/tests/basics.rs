use parakeet::array::{Array, Array1, Array2, Array3, Array4};
use parakeet::error::{Error, ValueError, ValueKind};
use parakeet::execution::ModelConfig;
use parakeet::files::{
    decoder_joint_candidates, encoder_candidates, find_decoder_joint, find_encoder,
};
use parakeet::logits::{argmax, is_larger, predict};
use parakeet::model_eou::EncoderCache;
use parakeet::model_eou::ParakeetEOUModel;
use parakeet::model_tdt::TDTModelConfig;
use parakeet::runtime::{build_array, float_array, float_parts, int_parts};
use parakeet::search::{Search, MAX_TOKENS_PER_STEP};
use parakeet::text::{has_prefix, has_suffix, join, number_text};

fn bits(values: &[f32]) -> Vec<i32> {
    values.iter().map(|v| v.to_bits() as i32).collect()
}

fn message(error: Error) -> String {
    match error {
        Error::Config(text) => format!("config: {}", text),
        Error::Model(text) => format!("model: {}", text),
        Error::Run(error) => format!("run: {}", error),
        Error::Value(error) => format!("value: {:?}", error),
    }
}

#[test]
fn execution_config_defaults_to_no_threads() {
    assert_eq!(ModelConfig::new(), ModelConfig::default());
    assert_eq!(ModelConfig::new().intra_threads, 0);
    assert_eq!(ModelConfig::new().inter_threads, 0);
}

#[test]
fn execution_config_builders_set_one_field_each() {
    let config = ModelConfig::new().with_intra_threads(4).with_inter_threads(2);
    assert_eq!(config.intra_threads, 4);
    assert_eq!(config.inter_threads, 2);
    let other = ModelConfig::new().with_inter_threads(2).with_intra_threads(7).with_intra_threads(4);
    assert_eq!(config, other);
}

#[test]
fn tdt_config_keeps_the_vocabulary() {
    assert_eq!(TDTModelConfig::new(8193).vocab_size, 8193);
}

#[test]
fn text_prefix_and_suffix() {
    assert!(has_prefix("encoder-model.onnx", "encoder"));
    assert!(!has_prefix("my-encoder.onnx", "encoder"));
    assert!(!has_prefix("enc", "encoder"));
    assert!(has_suffix("encoder.onnx", ".onnx"));
    assert!(!has_suffix("encoder.onnx.data", ".onnx"));
    assert!(!has_suffix("nnx", ".onnx"));
    assert!(has_prefix("é.onnx", "é"));
    assert!(has_suffix("encoder-é", "é"));
    assert!(has_prefix("", ""));
}

#[test]
fn text_of_numbers() {
    assert_eq!(number_text(0), "0");
    assert_eq!(number_text(9), "9");
    assert_eq!(number_text(10), "10");
    assert_eq!(number_text(1234567890), "1234567890");
    assert_eq!(number_text(usize::MAX), usize::MAX.to_string());
    assert_eq!(join("a", "bc"), "abc");
}

#[test]
fn array_takes_cells_that_fit() {
    let array = Array2::from_shape_vec([2, 3], vec![1, 2, 3, 4, 5, 6]).unwrap();
    assert_eq!(array.shape(), &[2, 3]);
    assert_eq!(array.to_vec(), vec![1, 2, 3, 4, 5, 6]);
    let empty = Array3::from_shape_vec([0, 4, 2], vec![]).unwrap();
    assert_eq!(empty.shape(), &[0, 4, 2]);
    assert!(empty.to_vec().is_empty());
}

#[test]
fn array_reports_why_cells_do_not_fit() {
    assert_eq!(
        Array2::from_shape_vec([2, 3], vec![1, 2]).unwrap_err(),
        "ShapeError/OutOfBounds: out of bounds indexing"
    );
    assert_eq!(
        Array2::from_shape_vec([2, 3], vec![1; 7]).unwrap_err(),
        "ShapeError/IncompatibleShape: incompatible shapes"
    );
    assert_eq!(
        Array3::from_shape_vec([0, usize::MAX, 2], vec![]).unwrap_err(),
        "ShapeError/Overflow: arithmetic overflow"
    );
}

#[test]
fn array_of_zeros() {
    let array = Array4::zeros([2, 1, 3, 2]);
    assert_eq!(array.shape(), &[2, 1, 3, 2]);
    assert_eq!(array.to_vec(), vec![0; 12]);
}

#[test]
fn array_swaps_its_axes() {
    let array = Array2::from_shape_vec([2, 3], vec![1, 2, 3, 4, 5, 6]).unwrap();
    let turned = array.t();
    assert_eq!(turned.shape(), &[3, 2]);
    assert_eq!(turned.to_vec(), vec![1, 4, 2, 5, 3, 6]);
    let shaped = turned.to_shape([1, 3, 2]).unwrap();
    assert_eq!(shaped.shape(), &[1, 3, 2]);
    assert_eq!(shaped.to_vec(), vec![1, 4, 2, 5, 3, 6]);
    assert_eq!(turned.t().to_vec(), array.to_vec());
}

#[test]
fn array_changes_its_axes() {
    let array = Array1::from_shape_vec([6], vec![1, 2, 3, 4, 5, 6]).unwrap();
    let shaped: Array<3> = array.to_shape([1, 6, 1]).unwrap();
    assert_eq!(shaped.shape(), &[1, 6, 1]);
    assert_eq!(shaped.to_vec(), array.to_vec());
    assert_eq!(
        array.to_shape([2, 2]).unwrap_err(),
        "ShapeError/IncompatibleShape: incompatible shapes"
    );
}

#[test]
fn array_gives_the_cells_along_its_middle_axis() {
    let cells: Vec<i32> = (0..12).collect();
    let array = Array3::from_shape_vec([2, 3, 2], cells).unwrap();
    assert_eq!(array.slice(0, 0).to_vec(), vec![0, 2, 4]);
    assert_eq!(array.slice(0, 1).to_vec(), vec![1, 3, 5]);
    assert_eq!(array.slice(1, 1).to_vec(), vec![7, 9, 11]);
    assert_eq!(array.slice(1, 0).shape(), &[3]);
}

#[test]
fn build_array_puts_the_context_first() {
    let error = build_array([2usize], vec![1], "Context: ").unwrap_err();
    assert_eq!(
        message(error),
        "model: Context: ShapeError/OutOfBounds: out of bounds indexing"
    );
}

#[test]
fn encoder_cache_starts_with_zeros() {
    let cache = EncoderCache::new();
    assert_eq!(cache.cache_last_channel.shape(), &[17, 1, 70, 512]);
    assert_eq!(cache.cache_last_time.shape(), &[17, 1, 512, 8]);
    assert_eq!(cache.cache_last_channel_len.shape(), &[1]);
    assert!(cache.cache_last_channel.to_vec().iter().all(|c| *c == 0));
    assert!(cache.cache_last_time.to_vec().iter().all(|c| *c == 0));
    assert_eq!(cache.cache_last_channel_len.to_vec(), vec![0]);
}

#[test]
fn encoder_cache_default_is_empty() {
    let cache = EncoderCache::default();
    assert_eq!(cache.cache_last_channel.shape(), &[0, 0, 0, 0]);
    assert_eq!(cache.cache_last_time.shape(), &[0, 0, 0, 0]);
    assert_eq!(cache.cache_last_channel_len.shape(), &[0]);
}

#[test]
fn float_order_is_that_of_the_floats() {
    let values = [
        0.0f32,
        -0.0,
        1.0,
        -1.0,
        1.5,
        -1.5,
        f32::MIN_POSITIVE,
        -f32::MIN_POSITIVE,
        f32::from_bits(1),
        -f32::from_bits(1),
        f32::MAX,
        f32::MIN,
        f32::INFINITY,
        f32::NEG_INFINITY,
        f32::NAN,
        -f32::NAN,
        f32::from_bits(0x7f80_0001),
        f32::from_bits(0xff80_0001),
        3.4e-12,
        2.5e17,
    ];
    for a in values {
        for b in values {
            let larger = is_larger(a.to_bits() as i32, b.to_bits() as i32);
            assert_eq!(larger, a > b, "{} and {}", a, b);
        }
    }
}

fn reference_argmax(values: &[f32]) -> Option<usize> {
    values
        .iter()
        .enumerate()
        .max_by(|(_, a), (_, b)| a.partial_cmp(b).unwrap_or(std::cmp::Ordering::Equal))
        .map(|(index, _)| index)
}

#[test]
fn argmax_takes_the_last_of_equal_scores() {
    let scores = bits(&[1.0, 3.0, 3.0, 2.0, 3.0]);
    assert_eq!(argmax(&scores, 0, 5), Some(4));
    assert_eq!(argmax(&scores, 0, 4), Some(2));
    assert_eq!(argmax(&scores, 3, 5), Some(1));
    assert_eq!(argmax(&scores, 2, 2), None);
    assert_eq!(argmax(&bits(&[0.0, -0.0]), 0, 2), Some(1));
}

#[test]
fn argmax_agrees_with_the_standard_library() {
    let mut state: u64 = 12345;
    for round in 0..2000 {
        let mut values = Vec::new();
        for _ in 0..(round % 9) {
            state = state.wrapping_mul(6364136223846793005).wrapping_add(1442695040888963407);
            let pick = (state >> 33) % 12;
            values.push(match pick {
                0 => f32::NAN,
                1 => f32::INFINITY,
                2 => f32::NEG_INFINITY,
                3 => -0.0,
                4 => 0.0,
                n => n as f32 - 8.0,
            });
        }
        let scores = bits(&values);
        assert_eq!(argmax(&scores, 0, scores.len()), reference_argmax(&values), "{:?}", values);
    }
}

#[test]
fn prediction_splits_tokens_and_durations() {
    let scores = bits(&[0.1, 0.9, 0.3, 7.0, 8.0, 6.0]);
    assert_eq!(predict(&scores, 3), (1, 1));
    // No scores for durations.
    assert_eq!(predict(&scores, 6), (4, 0));
    assert_eq!(predict(&scores, 9), (4, 0));
    // No scores at all: the blank.
    assert_eq!(predict(&vec![], 9), (8, 0));
}

#[test]
fn prediction_names_a_duration_that_has_a_score() {
    for width in 0..8 {
        let scores = bits(&vec![1.0; width]);
        for vocab_size in 1..5 {
            let (token, duration) = predict(&scores, vocab_size);
            assert!(token < vocab_size);
            // Of equal scores the last one is chosen.
            let durations = width.saturating_sub(vocab_size);
            assert_eq!(duration, durations.saturating_sub(1));
        }
    }
}

#[test]
fn search_stays_until_the_blank() {
    let mut search = Search::new(2, 5);
    assert_eq!(search.last_emitted_token, 2);
    assert!(search.step(0, 3));
    assert!(search.step(1, 2));
    assert_eq!(search.frame, 0);
    assert_eq!(search.last_emitted_token, 1);
    // The blank moves by its own duration, since tokens were written here.
    assert!(!search.step(2, 3));
    assert_eq!(search.frame, 3);
    // Without tokens it moves by one frame, whatever the duration.
    assert!(!search.step(2, 4));
    assert_eq!(search.frame, 4);
    assert!(!search.is_over());
    assert!(search.step(1, 0));
    assert!(!search.step(2, 0));
    assert!(search.is_over());
    assert_eq!(search.tokens, vec![0, 1, 1]);
    assert_eq!(search.frame_indices, vec![0, 0, 4]);
    assert_eq!(search.durations, vec![3, 2, 0]);
}

#[test]
fn search_leaves_a_full_frame() {
    let mut search = Search::new(9, 2);
    for _ in 0..MAX_TOKENS_PER_STEP {
        assert_eq!(search.frame, 0);
        assert!(search.step(5, 4));
    }
    assert_eq!(search.frame, 1);
    assert_eq!(search.emitted_tokens, 0);
    for _ in 0..MAX_TOKENS_PER_STEP {
        assert!(search.step(5, 4));
    }
    assert!(search.is_over());
    assert_eq!(search.tokens.len(), 2 * MAX_TOKENS_PER_STEP);
}

#[test]
fn search_does_not_run_past_the_end() {
    let mut search = Search::new(1, 3);
    search.step(0, 0);
    search.step(1, usize::MAX);
    assert!(search.is_over());
    assert_eq!(search.frame, 3);
}

#[test]
fn search_tells_of_the_token_as_a_32_bit_number() {
    let search = Search::new(0x1_0000_0005, 1);
    assert_eq!(search.last_emitted_token, 5);
}

#[test]
fn encoder_is_found_under_the_preferred_name() {
    assert_eq!(
        encoder_candidates(),
        ["encoder-model.onnx", "encoder.onnx", "encoder-model.int8.onnx"]
    );
    let listing = vec![Some("encoder-x.onnx".to_string())];
    let find = |present: Vec<bool>| find_encoder("dir", &present, &listing).unwrap();
    assert_eq!(find(vec![true, true, true]), "encoder-model.onnx");
    assert_eq!(find(vec![false, true, true]), "encoder.onnx");
    assert_eq!(find(vec![false, false, true]), "encoder-model.int8.onnx");
    assert_eq!(find(vec![false, false, false]), "encoder-x.onnx");
}

#[test]
fn encoder_is_looked_for_in_the_listing() {
    let absent = vec![false, false, false];
    let listing = vec![
        None,
        Some("decoder.onnx".to_string()),
        Some("encoder.onnx.data".to_string()),
        Some("encoder-b.onnx".to_string()),
        Some("encoder-a.onnx".to_string()),
    ];
    assert_eq!(find_encoder("dir", &absent, &listing).unwrap(), "encoder-b.onnx");
    let error = find_encoder("/models/tdt", &absent, &vec![None]).unwrap_err();
    assert_eq!(message(error), "config: No encoder model found in /models/tdt");
}

#[test]
fn decoder_is_found_by_name_only() {
    assert_eq!(
        decoder_joint_candidates(),
        [
            "decoder_joint-model.onnx",
            "decoder_joint-model.int8.onnx",
            "decoder_joint.onnx",
            "decoder-model.onnx"
        ]
    );
    assert_eq!(
        find_decoder_joint("dir", &vec![false, false, true, true]).unwrap(),
        "decoder_joint.onnx"
    );
    assert_eq!(
        find_decoder_joint("dir", &vec![true, false, true, true]).unwrap(),
        "decoder_joint-model.onnx"
    );
    let error = find_decoder_joint("dir", &vec![false; 4]).unwrap_err();
    assert_eq!(message(error), "config: No decoder_joint model found in dir");
}

#[test]
fn eou_files_must_both_be_there() {
    assert!(ParakeetEOUModel::check_files("dir", true, true).is_ok());
    for (encoder, decoder) in [(false, true), (true, false), (false, false)] {
        let error = ParakeetEOUModel::check_files("dir", encoder, decoder).unwrap_err();
        assert_eq!(
            message(error),
            "config: Missing ONNX files in dir. Expected encoder.onnx and decoder_joint.onnx"
        );
    }
}

#[test]
fn float_tensors_are_taken_apart_by_their_bits() {
    let value = rten::Value::from_shape([1, 2, 2], vec![1.0f32, -2.5, 0.0, f32::INFINITY]).unwrap();
    let (dims, cells) = float_parts::<3>(value).unwrap();
    assert_eq!(dims, [1, 2, 2]);
    assert_eq!(cells, bits(&[1.0, -2.5, 0.0, f32::INFINITY]));
    let value = rten::Value::from_shape([1, 2, 2], vec![1.0f32, -2.5, 0.0, 4.0]).unwrap();
    let array = float_array::<3>(value, "Context: ").unwrap();
    assert_eq!(array.shape(), &[1, 2, 2]);
    assert_eq!(array.to_vec(), bits(&[1.0, -2.5, 0.0, 4.0]));
}

#[test]
fn int_tensors_are_taken_apart() {
    let value = rten::Value::from_shape([2], vec![7i32, -8]).unwrap();
    let (dims, cells) = int_parts::<1>(value).unwrap();
    assert_eq!(dims, [2]);
    assert_eq!(cells, vec![7, -8]);
}

#[test]
fn tensors_of_another_kind_are_refused() {
    let ints = || rten::Value::from_shape([2], vec![7i32, -8]).unwrap();
    let floats = || rten::Value::from_shape([2], vec![7.0f32, -8.0]).unwrap();
    assert!(matches!(
        float_parts::<1>(ints()),
        Err(Error::Value(ValueError::WrongType {
            actual: ValueKind::Int32Tensor,
            expected: ValueKind::FloatTensor
        }))
    ));
    assert!(matches!(
        int_parts::<1>(floats()),
        Err(Error::Value(ValueError::WrongType {
            actual: ValueKind::FloatTensor,
            expected: ValueKind::Int32Tensor
        }))
    ));
    let bytes = || rten::Value::from_shape([2], vec![7u8, 8]).unwrap();
    assert!(matches!(
        int_parts::<1>(bytes()),
        Err(Error::Value(ValueError::WrongType {
            actual: ValueKind::UInt8Tensor,
            expected: ValueKind::Int32Tensor
        }))
    ));
    let small = || rten::Value::from_shape([2], vec![7i8, -8]).unwrap();
    assert!(matches!(
        float_parts::<1>(small()),
        Err(Error::Value(ValueError::WrongType {
            actual: ValueKind::Int8Tensor,
            expected: ValueKind::FloatTensor
        }))
    ));
    assert!(matches!(
        float_parts::<3>(floats()),
        Err(Error::Value(ValueError::WrongRank { actual: 1, expected: 3 }))
    ));
    assert!(matches!(
        int_parts::<2>(ints()),
        Err(Error::Value(ValueError::WrongRank { actual: 1, expected: 2 }))
    ));
}

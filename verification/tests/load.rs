use finger_load::document::DocumentError;
use finger_load::finger::Finger;
use finger_load::fingering::Fingering;
use finger_load::layout::Layout;
use finger_load::load::{aggregate, finger_report, normalize, Corpus, LoadVector};
use finger_load::weight::{FULL_SCALE, MAX_TOTAL_WEIGHT, UNITS_PER_ONE};

const ONE: u64 = UNITS_PER_ONE;

fn layout(text: &str) -> Layout {
    match Layout::parse(text) {
        Ok(layout) => layout,
        Err(error) => panic!("layout refused: {:?}", error),
    }
}

fn corpus(text: &str) -> Corpus {
    match Corpus::parse(text) {
        Ok(corpus) => corpus,
        Err(error) => panic!("corpus refused: {:?}", error),
    }
}

fn corpus_of(entries: &[(&str, u64)]) -> Corpus {
    let mut corpus = Corpus::new();
    for (symbol, weight) in entries {
        assert!(corpus.push(symbol.to_string(), *weight));
    }
    corpus
}

fn sum(values: &[u64; 9]) -> u64 {
    values.iter().sum()
}

const AZERTY_LIKE: &str = r#"{
    "keymap": {
        "KeyA": ["a", "A"],
        "KeyE": ["e", "E"],
        "KeyO": ["o", "O"],
        "KeyJ": ["j"],
        "Space": [" "]
    },
    "deadkeys": {
        "KeyQ": {"e": "é", "a": "â"},
        "BracketLeft": {"o": "ô", "e": "ê"}
    }
}"#;

#[test]
fn single_direct_symbol() {
    let layout = layout(r#"{"keymap": {"KeyA": ["a"]}, "deadkeys": {}}"#);
    let corpus = corpus(r#"{"symbols": {"a": 50.0}}"#);
    assert_eq!(
        Fingering::from_symbol_in_layout(&layout, "a"),
        Some(Fingering::Unigram(Finger::LeftPinky))
    );
    let load = aggregate(&layout, &corpus);
    assert_eq!(load.fingers, [50 * ONE, 0, 0, 0, 0, 0, 0, 0, 0]);
    assert_eq!(load.ignored, 0);
    assert_eq!(load.excess, 0);
    let scaled = normalize(&load.fingers, load.excess);
    assert_eq!(scaled, [50 * ONE, 0, 0, 0, 0, 0, 0, 0, 0]);
    assert_eq!(scaled[Finger::LeftPinky.as_usize()] as f64 / ONE as f64, 50.0);
}

#[test]
fn single_composed_symbol() {
    let layout = layout(r#"{"keymap": {"KeyE": ["e"]}, "deadkeys": {"KeyQ": {"e": "é"}}}"#);
    let corpus = corpus(r#"{"symbols": {"é": 10.0}}"#);
    assert_eq!(
        Fingering::from_symbol_in_layout(&layout, "é"),
        Some(Fingering::Bigram(Finger::LeftPinky, Finger::LeftMiddle))
    );
    let load = aggregate(&layout, &corpus);
    assert_eq!(load.excess, 10 * ONE);
    assert_eq!(load.ignored, 0);
    assert_eq!(load.fingers, [10 * ONE, 0, 10 * ONE, 0, 0, 0, 0, 0, 0]);
    let scaled = normalize(&load.fingers, load.excess);
    assert_eq!(scaled, [9_090_909_090, 0, 9_090_909_090, 0, 0, 0, 0, 0, 0]);
    let percent = scaled[0] as f64 / ONE as f64;
    assert!((percent - 10.0 * 100.0 / 110.0).abs() < 1e-8);
}

#[test]
fn symbol_absent_from_layout_is_ignored() {
    let layout = layout(AZERTY_LIKE);
    let corpus = corpus(r#"{"symbols": {"€": 2.5}}"#);
    let load = aggregate(&layout, &corpus);
    assert_eq!(load.ignored, 2_500_000_000);
    assert_eq!(load.excess, 0);
    assert_eq!(load.fingers, [0; 9]);
    assert_eq!(normalize(&load.fingers, load.excess), [0; 9]);
}

#[test]
fn mixed_corpus() {
    let layout = layout(AZERTY_LIKE);
    let corpus = corpus(
        r#"{"symbols": {"a": 30, "e": 25.5, " ": 20, "é": 10, "ô": 4.25, "j": 8, "€": 1.25, "â": 1}}"#,
    );
    assert_eq!(corpus.len(), 8);
    assert_eq!(corpus.total(), FULL_SCALE);
    let load = aggregate(&layout, &corpus);
    // a, é (dead key), â (dead key and primitive)
    assert_eq!(load.fingers[0], (30 + 10 + 1 + 1) * ONE);
    assert_eq!(load.fingers[1], 0);
    // e, é (primitive)
    assert_eq!(load.fingers[2], 25_500_000_000 + 10 * ONE);
    assert_eq!(load.fingers[3], 0);
    assert_eq!(load.fingers[4], 8 * ONE);
    assert_eq!(load.fingers[5], 0);
    // ô (primitive)
    assert_eq!(load.fingers[6], 4_250_000_000);
    // ô (dead key)
    assert_eq!(load.fingers[7], 4_250_000_000);
    assert_eq!(load.fingers[8], 20 * ONE);
    assert_eq!(load.ignored, 1_250_000_000);
    assert_eq!(load.excess, 15_250_000_000);
    assert_eq!(sum(&load.fingers) + load.ignored, corpus.total() + load.excess);
}

#[test]
fn both_strokes_on_one_finger_count_twice() {
    let layout = layout(r#"{"keymap": {"KeyA": ["a"]}, "deadkeys": {"KeyQ": {"a": "â"}}}"#);
    let corpus = corpus_of(&[("â", 7)]);
    let load = aggregate(&layout, &corpus);
    assert_eq!(load.fingers, [14, 0, 0, 0, 0, 0, 0, 0, 0]);
    assert_eq!(load.excess, 7);
    assert_eq!(load.ignored, 0);
}

#[test]
fn heaviest_corpus_does_not_overflow() {
    let layout = layout(r#"{"keymap": {"KeyA": ["a"]}, "deadkeys": {"KeyQ": {"a": "â"}}}"#);
    let corpus = corpus_of(&[("â", MAX_TOTAL_WEIGHT)]);
    let load = aggregate(&layout, &corpus);
    assert_eq!(load.fingers[0], u64::MAX - 1);
    assert_eq!(load.excess, MAX_TOTAL_WEIGHT);
    let scaled = normalize(&load.fingers, load.excess);
    let exact = (u64::MAX - 1) as u128 * FULL_SCALE as u128
        / (MAX_TOTAL_WEIGHT as u128 + FULL_SCALE as u128);
    assert_eq!(scaled[0] as u128, exact);
    assert_eq!(normalize(&[u64::MAX; 9], 0), [u64::MAX; 9]);
    let widest = u64::MAX as u128 * FULL_SCALE as u128 / (u64::MAX as u128 + FULL_SCALE as u128);
    assert_eq!(normalize(&[u64::MAX; 9], u64::MAX)[8] as u128, widest);
    assert_eq!(widest, 99_999_999_457);
}

#[test]
fn empty_corpus_loads_nothing() {
    let layout = layout(AZERTY_LIKE);
    let load = aggregate(&layout, &Corpus::new());
    assert_eq!(load.fingers, [0; 9]);
    assert_eq!(load.ignored, 0);
    assert_eq!(load.excess, 0);
}

#[test]
fn aggregation_does_not_depend_on_order() {
    let layout = layout(AZERTY_LIKE);
    let entries = [("a", 3), ("é", 5), ("€", 7), ("ô", 11), (" ", 13), ("a", 17), ("ê", 19)];
    let forward = aggregate(&layout, &corpus_of(&entries));
    let mut reversed = entries;
    reversed.reverse();
    let backward = aggregate(&layout, &corpus_of(&reversed));
    let mut rotated = entries;
    rotated.rotate_left(3);
    let around = aggregate(&layout, &corpus_of(&rotated));
    for other in [&backward, &around] {
        assert_eq!(forward.fingers, other.fingers);
        assert_eq!(forward.ignored, other.ignored);
        assert_eq!(forward.excess, other.excess);
    }
    assert_eq!(forward.fingers, [3 + 17 + 5, 0, 5 + 19, 0, 0, 0, 11, 11 + 19, 13]);
    assert_eq!(forward.ignored, 7);
    assert_eq!(forward.excess, 5 + 11 + 19);
}

#[test]
fn nothing_is_lost_in_aggregation() {
    let layout = layout(AZERTY_LIKE);
    let corpus = corpus_of(&[("a", 3), ("é", 5), ("€", 7), ("ô", 11), (" ", 13), ("zz", 1)]);
    let load = aggregate(&layout, &corpus);
    assert_eq!(sum(&load.fingers) + load.ignored, corpus.total() + load.excess);
    assert_eq!(corpus.total(), 40);
    assert_eq!(load.ignored, 8);
    assert_eq!(load.excess, 16);
}

#[test]
fn scaling_without_excess_changes_nothing() {
    let fingers = [1, 22, 333, 4444, 55555, 0, 7, u64::MAX, FULL_SCALE];
    assert_eq!(normalize(&fingers, 0), fingers);
}

#[test]
fn scaling_rounds_down() {
    // 100 / (100 + 100) halves every load
    assert_eq!(normalize(&[0, 1, 2, 3, 4, 5, 101, 1000, 1001], FULL_SCALE), [
        0, 0, 1, 1, 2, 2, 50, 500, 500
    ]);
    // 100 / (300 + 100)
    assert_eq!(normalize(&[7; 9], 3 * FULL_SCALE), [1; 9]);
    assert_eq!(normalize(&[8 * ONE; 9], 3 * FULL_SCALE), [2 * ONE; 9]);
}

#[test]
fn full_corpus_scales_back_to_full_scale() {
    let layout = layout(AZERTY_LIKE);
    let corpus = corpus(
        r#"{"symbols": {"a": 31.3, "e": 22.9, " ": 18.8, "é": 9.7, "ô": 3.3, "j": 7.7, "ê": 2.9, "â": 3.4}}"#,
    );
    assert_eq!(corpus.total(), FULL_SCALE);
    let load = aggregate(&layout, &corpus);
    assert_eq!(load.ignored, 0);
    assert_eq!(load.excess, 19_300_000_000);
    assert_eq!(sum(&load.fingers), FULL_SCALE + load.excess);
    let scaled = sum(&normalize(&load.fingers, load.excess));
    assert!(scaled <= FULL_SCALE);
    assert!(scaled > FULL_SCALE - 9);
}

#[test]
fn corpus_without_compositions_keeps_its_weight() {
    let layout = layout(AZERTY_LIKE);
    let corpus = corpus(r#"{"symbols": {"a": 60, "e": 25, "€": 15}}"#);
    let load = aggregate(&layout, &corpus);
    assert_eq!(load.excess, 0);
    let scaled = normalize(&load.fingers, load.excess);
    assert_eq!(sum(&scaled) + load.ignored, FULL_SCALE);
}

#[test]
fn corpus_keeps_entries_in_order() {
    let corpus = corpus_of(&[("b", 2), ("a", 1), ("b", 3)]);
    assert_eq!(corpus.len(), 3);
    assert_eq!(corpus.total(), 6);
    assert_eq!(corpus.entry(0).symbol, "b");
    assert_eq!(corpus.entry(0).weight, 2);
    assert_eq!(corpus.entry(1).symbol, "a");
    assert_eq!(corpus.entry(2).weight, 3);
}

#[test]
fn corpus_refuses_what_passes_the_limit() {
    let mut corpus = Corpus::new();
    assert!(corpus.push("a".to_string(), MAX_TOTAL_WEIGHT - 1));
    assert!(!corpus.push("b".to_string(), 2));
    assert_eq!(corpus.len(), 1);
    assert_eq!(corpus.total(), MAX_TOTAL_WEIGHT - 1);
    assert!(corpus.push("c".to_string(), 1));
    assert!(!corpus.push("d".to_string(), 1));
    assert!(corpus.push("e".to_string(), 0));
    assert_eq!(corpus.len(), 3);
    assert_eq!(corpus.total(), MAX_TOTAL_WEIGHT);
    assert!(!Corpus::new().push("f".to_string(), MAX_TOTAL_WEIGHT + 1));
}

#[test]
fn load_vector_is_plain_data() {
    let load = LoadVector { fingers: [1; 9], ignored: 2, excess: 3 };
    assert_eq!(load.fingers[Finger::Thumb.as_usize()], 1);
    assert_eq!(Corpus::parse("{").err(), Some(DocumentError::Syntax));
}

#[test]
fn report_scales_by_the_excess_of_the_corpus() {
    let layout = layout(r#"{"keymap": {"KeyE": ["e"]}, "deadkeys": {"KeyQ": {"e": "é"}}}"#);
    let corpus = corpus(r#"{"symbols": {"é": 10.0, "€": 4, "e": 1}}"#);
    let (scaled, ignored) = finger_report(&layout, &corpus);
    assert_eq!(scaled, [9_090_909_090, 0, 10_000_000_000, 0, 0, 0, 0, 0, 0]);
    assert_eq!(ignored, 4 * ONE);
    let load = aggregate(&layout, &corpus);
    assert_eq!(scaled, normalize(&load.fingers, load.excess));
    assert_eq!(ignored, load.ignored);
    assert_eq!(finger_report(&layout, &Corpus::new()), ([0; 9], 0));
}

#[test]
fn key_without_finger_carries_no_load() {
    let layout = layout(
        r#"{"keymap": {"Foo": ["x"], "KeyE": ["e"], "KeyA": ["x"]}, "deadkeys": {"KeyQ": {"e": "x"}}}"#,
    );
    let load = aggregate(&layout, &corpus_of(&[("x", 6)]));
    assert_eq!(load.fingers, [6, 0, 0, 0, 0, 0, 0, 0, 0]);
    assert_eq!(load.excess, 0);
    assert_eq!(load.ignored, 0);
}

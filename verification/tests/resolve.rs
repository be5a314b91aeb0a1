use finger_load::finger::Finger;
use finger_load::fingering::{
    find_composition, find_primitive, finger_in_keymap, key_in_keymap, lists_symbol, Fingering,
};
use finger_load::layout::{Composition, DeadKey, KeyBinding, Layout};

fn binding(key: &str, symbols: &[&str]) -> KeyBinding {
    KeyBinding { key: key.to_string(), symbols: symbols.iter().map(|s| s.to_string()).collect() }
}

fn dead_key(key: &str, compositions: &[(&str, &str)]) -> DeadKey {
    DeadKey {
        key: key.to_string(),
        compositions: compositions
            .iter()
            .map(|(p, c)| Composition { primitive: p.to_string(), composed: c.to_string() })
            .collect(),
    }
}

fn sample() -> Layout {
    Layout {
        keymap: vec![
            binding("KeyA", &["a", "A"]),
            binding("KeyE", &["e", "E", "€"]),
            binding("KeyO", &["o", "O"]),
            binding("Space", &[" "]),
            binding("F13", &["µ"]),
        ],
        deadkeys: vec![
            dead_key("KeyQ", &[("e", "é"), ("a", "á"), ("x", "ẋ")]),
            dead_key("Quote", &[("e", "è"), ("o", "ò"), ("a", "á")]),
            dead_key("F14", &[("o", "ô")]),
        ],
    }
}

#[test]
fn direct_symbol_is_a_unigram() {
    let layout = sample();
    assert_eq!(
        Fingering::from_symbol_in_layout(&layout, "a"),
        Some(Fingering::Unigram(Finger::LeftPinky))
    );
    assert_eq!(
        Fingering::from_symbol_in_layout(&layout, "E"),
        Some(Fingering::Unigram(Finger::LeftMiddle))
    );
    assert_eq!(
        Fingering::from_symbol_in_layout(&layout, " "),
        Some(Fingering::Unigram(Finger::Thumb))
    );
}

#[test]
fn composed_symbol_is_a_bigram() {
    let layout = sample();
    assert_eq!(
        Fingering::from_symbol_in_layout(&layout, "é"),
        Some(Fingering::Bigram(Finger::LeftPinky, Finger::LeftMiddle))
    );
    assert_eq!(
        Fingering::from_symbol_in_layout(&layout, "ò"),
        Some(Fingering::Bigram(Finger::RightPinky, Finger::RightRing))
    );
}

#[test]
fn absent_symbol_is_unresolved() {
    let layout = sample();
    assert_eq!(Fingering::from_symbol_in_layout(&layout, "z"), None);
    assert_eq!(Fingering::from_symbol_in_layout(&layout, ""), None);
    assert_eq!(Fingering::from_symbol_in_layout(&layout, "KeyA"), None);
    let empty = Layout { keymap: vec![], deadkeys: vec![] };
    assert_eq!(Fingering::from_symbol_in_layout(&empty, "a"), None);
}

#[test]
fn direct_entry_wins_over_composition() {
    let layout = Layout {
        keymap: vec![binding("KeyE", &["e"]), binding("KeyP", &["é"])],
        deadkeys: vec![dead_key("KeyQ", &[("e", "é")])],
    };
    assert_eq!(
        Fingering::from_symbol_in_layout(&layout, "é"),
        Some(Fingering::Unigram(Finger::RightPinky))
    );
}

#[test]
fn first_key_wins_where_a_symbol_is_listed_twice() {
    let layout = Layout {
        keymap: vec![binding("KeyK", &["x", "y"]), binding("KeyA", &["y"])],
        deadkeys: vec![],
    };
    assert_eq!(key_in_keymap(&layout, "y"), Some("KeyK"));
    assert_eq!(
        Fingering::from_symbol_in_layout(&layout, "y"),
        Some(Fingering::Unigram(Finger::RightMiddle))
    );
}

#[test]
fn key_without_finger_is_passed_over() {
    let layout = Layout {
        keymap: vec![binding("Foo", &["x"]), binding("KeyA", &["x"])],
        deadkeys: vec![],
    };
    assert_eq!(key_in_keymap(&layout, "x"), Some("KeyA"));
    assert_eq!(finger_in_keymap(&layout, "x"), Some(Finger::LeftPinky));
    assert_eq!(
        Fingering::from_symbol_in_layout(&layout, "x"),
        Some(Fingering::Unigram(Finger::LeftPinky))
    );
}

#[test]
fn later_key_with_finger_wins_over_composition() {
    let layout = Layout {
        keymap: vec![binding("Foo", &["x"]), binding("KeyE", &["e"]), binding("KeyA", &["x"])],
        deadkeys: vec![dead_key("KeyQ", &[("e", "x")])],
    };
    assert_eq!(
        Fingering::from_symbol_in_layout(&layout, "x"),
        Some(Fingering::Unigram(Finger::LeftPinky))
    );
}

#[test]
fn symbol_only_on_keys_without_finger_is_unresolved() {
    let layout = Layout {
        keymap: vec![binding("Foo", &["x"]), binding("F13", &["x", "y"])],
        deadkeys: vec![dead_key("F14", &[("y", "x")])],
    };
    assert_eq!(key_in_keymap(&layout, "x"), None);
    assert_eq!(finger_in_keymap(&layout, "x"), None);
    assert_eq!(Fingering::from_symbol_in_layout(&layout, "x"), None);
}

#[test]
fn symbol_on_unknown_key_falls_back_to_composition() {
    let layout = Layout {
        keymap: vec![binding("F13", &["é"]), binding("KeyE", &["e"])],
        deadkeys: vec![dead_key("KeyQ", &[("e", "é")])],
    };
    assert_eq!(
        Fingering::from_symbol_in_layout(&layout, "é"),
        Some(Fingering::Bigram(Finger::LeftPinky, Finger::LeftMiddle))
    );
    assert_eq!(Fingering::from_symbol_in_layout(&sample(), "µ"), None);
}

#[test]
fn first_dead_key_and_first_composition_win() {
    let layout = sample();
    assert_eq!(find_composition(&layout, "á"), Some(("KeyQ", "a")));
    assert_eq!(find_composition(&layout, "è"), Some(("Quote", "e")));
    assert_eq!(find_composition(&layout, "a"), None);
    let twice = dead_key("KeyQ", &[("u", "ü"), ("v", "ü")]);
    assert_eq!(find_primitive(&twice, "ü"), Some("u"));
    assert_eq!(find_primitive(&twice, "u"), None);
}

#[test]
fn dead_key_without_finger_is_passed_over() {
    let layout = sample();
    // only `F14` composes the symbol, and no finger table holds `F14`
    assert_eq!(find_composition(&layout, "ô"), None);
    assert_eq!(Fingering::from_symbol_in_layout(&layout, "ô"), None);
    // the next dead key that composes the symbol decides
    let later = Layout {
        keymap: vec![binding("KeyE", &["e"]), binding("KeyO", &["o"])],
        deadkeys: vec![dead_key("F14", &[("o", "ê")]), dead_key("KeyQ", &[("e", "ê")])],
    };
    assert_eq!(find_composition(&later, "ê"), Some(("KeyQ", "e")));
    assert_eq!(
        Fingering::from_symbol_in_layout(&later, "ê"),
        Some(Fingering::Bigram(Finger::LeftPinky, Finger::LeftMiddle))
    );
}

#[test]
fn primitive_that_no_key_produces_is_unresolved() {
    let layout = sample();
    // the primitive `x` is on no key
    assert_eq!(Fingering::from_symbol_in_layout(&layout, "ẋ"), None);
    // the first dead key with a finger decides, though the next would do
    let later = Layout {
        keymap: vec![binding("KeyE", &["e"]), binding("F13", &["x"])],
        deadkeys: vec![dead_key("KeyW", &[("x", "ê")]), dead_key("KeyQ", &[("e", "ê")])],
    };
    assert_eq!(find_composition(&later, "ê"), Some(("KeyW", "x")));
    assert_eq!(Fingering::from_symbol_in_layout(&later, "ê"), None);
}

#[test]
fn primitive_is_taken_from_the_first_key_with_a_finger() {
    let layout = Layout {
        keymap: vec![binding("F13", &["e"]), binding("KeyO", &["e"]), binding("KeyE", &["e"])],
        deadkeys: vec![dead_key("KeyQ", &[("e", "é")])],
    };
    assert_eq!(
        Fingering::from_symbol_in_layout(&layout, "é"),
        Some(Fingering::Bigram(Finger::LeftPinky, Finger::RightRing))
    );
}

#[test]
fn compositions_are_not_chained() {
    let layout = Layout {
        keymap: vec![binding("KeyE", &["e"])],
        deadkeys: vec![dead_key("KeyQ", &[("e", "é")]), dead_key("KeyW", &[("é", "ế")])],
    };
    assert_eq!(Fingering::from_symbol_in_layout(&layout, "ế"), None);
}

#[test]
fn both_strokes_may_be_one_finger() {
    let layout = Layout {
        keymap: vec![binding("KeyA", &["a"])],
        deadkeys: vec![dead_key("KeyQ", &[("a", "â")])],
    };
    assert_eq!(
        Fingering::from_symbol_in_layout(&layout, "â"),
        Some(Fingering::Bigram(Finger::LeftPinky, Finger::LeftPinky))
    );
}

#[test]
fn lists_symbol_looks_at_whole_symbols() {
    let symbols = vec!["ab".to_string(), "c".to_string()];
    assert!(lists_symbol(&symbols, "ab"));
    assert!(lists_symbol(&symbols, "c"));
    assert!(!lists_symbol(&symbols, "a"));
    assert!(!lists_symbol(&symbols, "abc"));
    assert!(!lists_symbol(&vec![], "a"));
}

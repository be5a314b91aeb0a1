//! A keyboard layout: which key produces which symbols, and which symbols are
//! composed by a dead key followed by another symbol.

use vstd::prelude::*;

verus! {

/// One physical key with the symbols it produces, on any level.
pub struct KeyBinding {
    pub key: String,
    pub symbols: Vec<String>,
}

/// One composition of a dead key: striking the dead key and then a key that
/// produces `primitive` yields `composed`.
pub struct Composition {
    pub primitive: String,
    pub composed: String,
}

/// One dead key with its compositions, in the order of the layout.
pub struct DeadKey {
    pub key: String,
    pub compositions: Vec<Composition>,
}

/// A layout: the key bindings and the dead keys, each in the order in which
/// the layout lists them. The order matters only where a symbol is listed
/// more than once: the first listing counts.
pub struct Layout {
    pub keymap: Vec<KeyBinding>,
    pub deadkeys: Vec<DeadKey>,
}

/// A key binding as plain values.
pub struct KeyBindingView {
    pub key: Seq<char>,
    pub symbols: Seq<Seq<char>>,
}

/// A composition as plain values.
pub struct CompositionView {
    pub primitive: Seq<char>,
    pub composed: Seq<char>,
}

/// A dead key as plain values.
pub struct DeadKeyView {
    pub key: Seq<char>,
    pub compositions: Seq<CompositionView>,
}

/// A layout as plain values.
pub struct LayoutView {
    pub keymap: Seq<KeyBindingView>,
    pub deadkeys: Seq<DeadKeyView>,
}

/// The characters of each string of `strings`.
pub open spec fn texts(strings: Seq<String>) -> Seq<Seq<char>> {
    strings.map_values(|s: String| s@)
}

/// The bindings of `bindings` as plain values.
pub open spec fn bindings_view(bindings: Seq<KeyBinding>) -> Seq<KeyBindingView> {
    bindings.map_values(|b: KeyBinding| b@)
}

/// The compositions of `compositions` as plain values.
pub open spec fn compositions_view(compositions: Seq<Composition>) -> Seq<CompositionView> {
    compositions.map_values(|c: Composition| c@)
}

/// The dead keys of `dead_keys` as plain values.
pub open spec fn dead_keys_view(dead_keys: Seq<DeadKey>) -> Seq<DeadKeyView> {
    dead_keys.map_values(|d: DeadKey| d@)
}

impl View for KeyBinding {
    type V = KeyBindingView;

    open spec fn view(&self) -> KeyBindingView {
        KeyBindingView { key: self.key@, symbols: texts(self.symbols@) }
    }
}

impl View for Composition {
    type V = CompositionView;

    open spec fn view(&self) -> CompositionView {
        CompositionView { primitive: self.primitive@, composed: self.composed@ }
    }
}

impl View for DeadKey {
    type V = DeadKeyView;

    open spec fn view(&self) -> DeadKeyView {
        DeadKeyView {
            key: self.key@,
            compositions: compositions_view(self.compositions@),
        }
    }
}

impl View for Layout {
    type V = LayoutView;

    open spec fn view(&self) -> LayoutView {
        LayoutView {
            keymap: bindings_view(self.keymap@),
            deadkeys: dead_keys_view(self.deadkeys@),
        }
    }
}

} // verus!

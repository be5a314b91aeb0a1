//! Which finger, or which two fingers, type a symbol on a layout.
//!
//! A key whose identifier the finger table does not hold cannot be used: the
//! layout is read as if it did not list that key, as a key or as a dead key.
//!
//! A symbol that some key produces directly takes the finger of the first
//! such key. Any other symbol is looked for among the compositions of the
//! dead keys: it then takes the finger of the first dead key that composes
//! it and the finger of the key that produces the primitive symbol.
//! Compositions are not chained, and where the primitive of that first dead
//! key cannot be typed, no later dead key is tried.

use vstd::prelude::*;
use crate::finger::{finger_for_key, Finger};
use crate::layout::{CompositionView, DeadKey, DeadKeyView, KeyBindingView, Layout, LayoutView, texts};
use crate::text::same_text;

verus! {

/// The fingers needed to produce one symbol.
#[derive(Clone, Copy, Debug, PartialEq, Eq, Structural)]
pub enum Fingering {
    /// A single key stroke.
    Unigram(Finger),
    /// A dead key, then the key of the primitive symbol.
    Bigram(Finger, Finger),
}

/// Whether the binding lists `symbol` among the symbols of its key.
pub open spec fn lists(binding: KeyBindingView, symbol: Seq<char>) -> bool {
    binding.symbols.contains(symbol)
}

/// Whether the binding's key produces `symbol`: the finger table holds the
/// key, and the binding lists the symbol. A key without a finger produces
/// nothing.
pub open spec fn produces(binding: KeyBindingView, symbol: Seq<char>) -> bool {
    finger_for_key(binding.key) is Some && lists(binding, symbol)
}

/// Whether `i` is the first binding of `keymap` whose key produces `symbol`.
pub open spec fn is_first_binding(keymap: Seq<KeyBindingView>, symbol: Seq<char>, i: int) -> bool {
    &&& 0 <= i < keymap.len()
    &&& produces(keymap[i], symbol)
    &&& forall|j: int| 0 <= j < i ==> !produces(#[trigger] keymap[j], symbol)
}

/// The first key that produces `symbol`, if any does.
pub open spec fn direct_key(keymap: Seq<KeyBindingView>, symbol: Seq<char>) -> Option<Seq<char>> {
    if exists|i: int| is_first_binding(keymap, symbol, i) {
        Some(keymap[choose|i: int| is_first_binding(keymap, symbol, i)].key)
    } else {
        None
    }
}

/// The finger of the first key that produces `symbol`; `None` where no key
/// with a finger lists it.
pub open spec fn direct_finger(keymap: Seq<KeyBindingView>, symbol: Seq<char>) -> Option<Finger> {
    match direct_key(keymap, symbol) {
        Some(key) => finger_for_key(key),
        None => None,
    }
}

/// Whether `c` is the first composition that yields `symbol`.
pub open spec fn is_first_composition(
    compositions: Seq<CompositionView>,
    symbol: Seq<char>,
    c: int,
) -> bool {
    &&& 0 <= c < compositions.len()
    &&& compositions[c].composed == symbol
    &&& forall|j: int| 0 <= j < c ==> (#[trigger] compositions[j]).composed != symbol
}

/// The primitive symbol of the dead key's first composition that yields
/// `symbol`, if it has one.
pub open spec fn primitive_of(dead_key: DeadKeyView, symbol: Seq<char>) -> Option<Seq<char>> {
    if exists|c: int| is_first_composition(dead_key.compositions, symbol, c) {
        Some(
            dead_key.compositions[choose|c: int|
                is_first_composition(dead_key.compositions, symbol, c)].primitive,
        )
    } else {
        None
    }
}

/// Whether the dead key composes `symbol`: the finger table holds the key,
/// and one of its compositions yields the symbol. A dead key without a
/// finger composes nothing.
pub open spec fn composes(dead_key: DeadKeyView, symbol: Seq<char>) -> bool {
    finger_for_key(dead_key.key) is Some && primitive_of(dead_key, symbol) is Some
}

/// Whether `d` is the first dead key that composes `symbol`.
pub open spec fn is_first_dead_key(deadkeys: Seq<DeadKeyView>, symbol: Seq<char>, d: int) -> bool {
    &&& 0 <= d < deadkeys.len()
    &&& composes(deadkeys[d], symbol)
    &&& forall|j: int| 0 <= j < d ==> !composes(#[trigger] deadkeys[j], symbol)
}

/// The first dead key that composes `symbol`, as the pair of the dead key's
/// identifier and the primitive symbol to strike after it.
pub open spec fn composition_of(deadkeys: Seq<DeadKeyView>, symbol: Seq<char>) -> Option<
    (Seq<char>, Seq<char>),
> {
    if exists|d: int| is_first_dead_key(deadkeys, symbol, d) {
        let d = choose|d: int| is_first_dead_key(deadkeys, symbol, d);
        Some((deadkeys[d].key, primitive_of(deadkeys[d], symbol)->0))
    } else {
        None
    }
}

/// The two fingers of a composition: the finger of the first dead key that
/// composes the symbol, and the finger of the first key that produces the
/// primitive. `None` where no dead key composes the symbol, and where no key
/// produces the primitive of the first that does.
pub open spec fn bigram_of(layout: LayoutView, symbol: Seq<char>) -> Option<Fingering> {
    match composition_of(layout.deadkeys, symbol) {
        Some((dead_key, primitive)) => match (
            finger_for_key(dead_key),
            direct_finger(layout.keymap, primitive),
        ) {
            (Some(first), Some(second)) => Some(Fingering::Bigram(first, second)),
            _ => None,
        },
        None => None,
    }
}

/// The fingering of `symbol` on `layout`: the direct one where there is one,
/// else the composed one, else none.
pub open spec fn fingering_of(layout: LayoutView, symbol: Seq<char>) -> Option<Fingering> {
    match direct_finger(layout.keymap, symbol) {
        Some(finger) => Some(Fingering::Unigram(finger)),
        None => bigram_of(layout, symbol),
    }
}

/// The first binding that produces a symbol is the one `direct_key` speaks
/// of.
pub proof fn lemma_direct_key_first(keymap: Seq<KeyBindingView>, symbol: Seq<char>, i: int)
    requires
        is_first_binding(keymap, symbol, i),
    ensures
        direct_key(keymap, symbol) == Some(keymap[i].key),
{
    let k = choose|k: int| is_first_binding(keymap, symbol, k);
    assert(is_first_binding(keymap, symbol, k));
    if k < i {
        assert(!produces(keymap[k], symbol));
    } else if i < k {
        assert(!produces(keymap[i], symbol));
    }
}

/// Where no binding produces a symbol, it has no direct key.
pub proof fn lemma_direct_key_none(keymap: Seq<KeyBindingView>, symbol: Seq<char>)
    requires
        forall|j: int| 0 <= j < keymap.len() ==> !produces(#[trigger] keymap[j], symbol),
    ensures
        direct_key(keymap, symbol) is None,
{
}

/// Where some binding produces a symbol, one of them is the first.
pub proof fn lemma_first_binding_exists(keymap: Seq<KeyBindingView>, symbol: Seq<char>, i: int)
    requires
        0 <= i < keymap.len(),
        produces(keymap[i], symbol),
    ensures
        exists|k: int| 0 <= k <= i && is_first_binding(keymap, symbol, k),
    decreases i,
{
    if exists|j: int| 0 <= j < i && produces(#[trigger] keymap[j], symbol) {
        let j = choose|j: int| 0 <= j < i && produces(#[trigger] keymap[j], symbol);
        lemma_first_binding_exists(keymap, symbol, j);
        let k = choose|k: int| 0 <= k <= j && is_first_binding(keymap, symbol, k);
        assert(0 <= k <= i && is_first_binding(keymap, symbol, k));
    } else {
        assert(is_first_binding(keymap, symbol, i));
    }
}

/// The first composition that yields a symbol gives the dead key's primitive.
pub proof fn lemma_primitive_first(dead_key: DeadKeyView, symbol: Seq<char>, c: int)
    requires
        is_first_composition(dead_key.compositions, symbol, c),
    ensures
        primitive_of(dead_key, symbol) == Some(dead_key.compositions[c].primitive),
{
    let k = choose|k: int| is_first_composition(dead_key.compositions, symbol, k);
    assert(is_first_composition(dead_key.compositions, symbol, k));
    if k < c {
        assert(dead_key.compositions[k].composed != symbol);
    } else if c < k {
        assert(dead_key.compositions[c].composed != symbol);
    }
}

/// A dead key none of whose compositions yields a symbol has no primitive
/// for it.
pub proof fn lemma_primitive_none(dead_key: DeadKeyView, symbol: Seq<char>)
    requires
        forall|j: int|
            0 <= j < dead_key.compositions.len() ==> (#[trigger] dead_key.compositions[j]).composed
                != symbol,
    ensures
        primitive_of(dead_key, symbol) is None,
{
}

/// The first dead key that composes a symbol is the one `composition_of`
/// speaks of.
pub proof fn lemma_composition_first(deadkeys: Seq<DeadKeyView>, symbol: Seq<char>, d: int)
    requires
        is_first_dead_key(deadkeys, symbol, d),
    ensures
        composition_of(deadkeys, symbol) == Some(
            (deadkeys[d].key, primitive_of(deadkeys[d], symbol)->0),
        ),
{
    let k = choose|k: int| is_first_dead_key(deadkeys, symbol, k);
    assert(is_first_dead_key(deadkeys, symbol, k));
    if k < d {
        assert(!composes(deadkeys[k], symbol));
    } else if d < k {
        assert(!composes(deadkeys[d], symbol));
    }
}

/// Where no dead key composes a symbol, it has no composition.
pub proof fn lemma_composition_none(deadkeys: Seq<DeadKeyView>, symbol: Seq<char>)
    requires
        forall|j: int| 0 <= j < deadkeys.len() ==> !composes(#[trigger] deadkeys[j], symbol),
    ensures
        composition_of(deadkeys, symbol) is None,
{
}

/// Whether `symbol` is one of `symbols`.
pub fn lists_symbol(symbols: &Vec<String>, symbol: &str) -> (found: bool)
    ensures
        found == texts(symbols@).contains(symbol@),
{
    let mut i: usize = 0;
    while i < symbols.len()
        invariant
            i <= symbols.len(),
            forall|j: int| 0 <= j < i ==> texts(symbols@)[j] != symbol@,
        decreases symbols.len() - i,
    {
        if same_text(symbols[i].as_str(), symbol) {
            assert(texts(symbols@)[i as int] == symbol@);
            return true;
        }
        i += 1;
    }
    false
}

/// The identifier of the first key of the layout that produces `symbol`:
/// keys that the finger table does not hold are passed over.
pub fn key_in_keymap<'a>(layout: &'a Layout, symbol: &str) -> (key: Option<&'a str>)
    ensures
        match key {
            Some(k) => direct_key(layout@.keymap, symbol@) == Some(k@),
            None => direct_key(layout@.keymap, symbol@) is None,
        },
{
    let mut i: usize = 0;
    while i < layout.keymap.len()
        invariant
            i <= layout.keymap.len(),
            forall|j: int| 0 <= j < i ==> !produces(#[trigger] layout@.keymap[j], symbol@),
        decreases layout.keymap.len() - i,
    {
        if lists_symbol(&layout.keymap[i].symbols, symbol) && Finger::from_scan_code(
            layout.keymap[i].key.as_str(),
        ).is_some() {
            proof {
                lemma_direct_key_first(layout@.keymap, symbol@, i as int);
            }
            return Some(layout.keymap[i].key.as_str());
        }
        i += 1;
    }
    proof {
        lemma_direct_key_none(layout@.keymap, symbol@);
    }
    None
}

/// The finger of the first key of the layout that produces `symbol`.
pub fn finger_in_keymap(layout: &Layout, symbol: &str) -> (finger: Option<Finger>)
    ensures
        finger == direct_finger(layout@.keymap, symbol@),
{
    match key_in_keymap(layout, symbol) {
        Some(key) => Finger::from_scan_code(key),
        None => None,
    }
}

/// The primitive symbol of the dead key's first composition that yields
/// `symbol`.
pub fn find_primitive<'a>(dead_key: &'a DeadKey, symbol: &str) -> (primitive: Option<&'a str>)
    ensures
        match primitive {
            Some(p) => primitive_of(dead_key@, symbol@) == Some(p@),
            None => primitive_of(dead_key@, symbol@) is None,
        },
{
    let mut c: usize = 0;
    while c < dead_key.compositions.len()
        invariant
            c <= dead_key.compositions.len(),
            forall|j: int|
                0 <= j < c ==> (#[trigger] dead_key@.compositions[j]).composed != symbol@,
        decreases dead_key.compositions.len() - c,
    {
        if same_text(dead_key.compositions[c].composed.as_str(), symbol) {
            proof {
                lemma_primitive_first(dead_key@, symbol@, c as int);
            }
            return Some(dead_key.compositions[c].primitive.as_str());
        }
        c += 1;
    }
    proof {
        lemma_primitive_none(dead_key@, symbol@);
    }
    None
}

/// The first dead key of the layout that composes `symbol`, with the
/// primitive symbol to strike after it: dead keys that the finger table does
/// not hold are passed over.
pub fn find_composition<'a>(layout: &'a Layout, symbol: &str) -> (found: Option<(&'a str, &'a str)>)
    ensures
        match found {
            Some((dead_key, primitive)) => composition_of(layout@.deadkeys, symbol@) == Some(
                (dead_key@, primitive@),
            ),
            None => composition_of(layout@.deadkeys, symbol@) is None,
        },
{
    let mut d: usize = 0;
    while d < layout.deadkeys.len()
        invariant
            d <= layout.deadkeys.len(),
            forall|j: int| 0 <= j < d ==> !composes(#[trigger] layout@.deadkeys[j], symbol@),
        decreases layout.deadkeys.len() - d,
    {
        if Finger::from_scan_code(layout.deadkeys[d].key.as_str()).is_some() {
            if let Some(primitive) = find_primitive(&layout.deadkeys[d], symbol) {
                proof {
                    lemma_composition_first(layout@.deadkeys, symbol@, d as int);
                }
                return Some((layout.deadkeys[d].key.as_str(), primitive));
            }
        }
        d += 1;
    }
    proof {
        lemma_composition_none(layout@.deadkeys, symbol@);
    }
    None
}

impl Fingering {
    /// The fingering of `symbol` on `layout`, or `None` where the layout
    /// cannot produce the symbol by one key or by one dead key and one key.
    pub fn from_symbol_in_layout(layout: &Layout, symbol: &str) -> (fingering: Option<Fingering>)
        ensures
            fingering == fingering_of(layout@, symbol@),
    {
        if let Some(finger) = finger_in_keymap(layout, symbol) {
            return Some(Fingering::Unigram(finger));
        }
        match find_composition(layout, symbol) {
            Some((dead_key, primitive)) => {
                match (Finger::from_scan_code(dead_key), finger_in_keymap(layout, primitive)) {
                    (Some(first), Some(second)) => Some(Fingering::Bigram(first, second)),
                    _ => None,
                }
            },
            None => None,
        }
    }
}

/// A symbol that some key produces is typed with one finger, the finger of
/// the first key that produces it. The dead keys play no part: the claim
/// holds whatever they compose.
pub proof fn lemma_direct_symbol_is_unigram(
    layout: LayoutView,
    symbol: Seq<char>,
    i: int,
    finger: Finger,
)
    requires
        is_first_binding(layout.keymap, symbol, i),
        finger_for_key(layout.keymap[i].key) == Some(finger),
    ensures
        fingering_of(layout, symbol) == Some(Fingering::Unigram(finger)),
{
    lemma_direct_key_first(layout.keymap, symbol, i);
}

/// A symbol that any key with a finger lists is typed with one finger, and
/// that finger is the one of a key that lists it, at or before the given
/// one. Keys without a finger that list the symbol too, and dead keys that
/// compose it, change nothing.
pub proof fn lemma_listed_symbol_is_unigram(layout: LayoutView, symbol: Seq<char>, i: int)
    requires
        0 <= i < layout.keymap.len(),
        lists(layout.keymap[i], symbol),
        finger_for_key(layout.keymap[i].key) is Some,
    ensures
        exists|k: int|
            0 <= k <= i && is_first_binding(layout.keymap, symbol, k) && fingering_of(
                layout,
                symbol,
            ) == Some(Fingering::Unigram(finger_for_key(layout.keymap[k].key)->0)),
{
    lemma_first_binding_exists(layout.keymap, symbol, i);
    let k = choose|k: int| 0 <= k <= i && is_first_binding(layout.keymap, symbol, k);
    lemma_direct_symbol_is_unigram(layout, symbol, k, finger_for_key(layout.keymap[k].key)->0);
}

/// A symbol that no key produces, and that dead key `d` is the first to
/// compose, from the primitive of its composition `c`, is typed with two
/// fingers: the dead key's own, then the finger of the first key `p` that
/// produces the primitive.
pub proof fn lemma_composed_symbol_is_bigram(
    layout: LayoutView,
    symbol: Seq<char>,
    d: int,
    c: int,
    p: int,
    first: Finger,
    second: Finger,
)
    requires
        forall|j: int|
            0 <= j < layout.keymap.len() ==> !produces(#[trigger] layout.keymap[j], symbol),
        is_first_dead_key(layout.deadkeys, symbol, d),
        is_first_composition(layout.deadkeys[d].compositions, symbol, c),
        finger_for_key(layout.deadkeys[d].key) == Some(first),
        is_first_binding(layout.keymap, layout.deadkeys[d].compositions[c].primitive, p),
        finger_for_key(layout.keymap[p].key) == Some(second),
    ensures
        fingering_of(layout, symbol) == Some(Fingering::Bigram(first, second)),
{
    lemma_direct_key_none(layout.keymap, symbol);
    lemma_composition_first(layout.deadkeys, symbol, d);
    lemma_primitive_first(layout.deadkeys[d], symbol, c);
    lemma_direct_key_first(layout.keymap, layout.deadkeys[d].compositions[c].primitive, p);
}

/// A symbol that no key lists and no dead key composes has no fingering.
pub proof fn lemma_absent_symbol_is_unresolved(layout: LayoutView, symbol: Seq<char>)
    requires
        forall|j: int| 0 <= j < layout.keymap.len() ==> !lists(#[trigger] layout.keymap[j], symbol),
        forall|d: int, c: int|
            0 <= d < layout.deadkeys.len() && 0 <= c < layout.deadkeys[d].compositions.len()
                ==> (#[trigger] layout.deadkeys[d].compositions[c]).composed != symbol,
    ensures
        fingering_of(layout, symbol) is None,
{
    lemma_direct_key_none(layout.keymap, symbol);
    assert forall|d: int| 0 <= d < layout.deadkeys.len() implies !composes(
        #[trigger] layout.deadkeys[d],
        symbol,
    ) by {
        lemma_primitive_none(layout.deadkeys[d], symbol);
    }
    lemma_composition_none(layout.deadkeys, symbol);
}

/// Keys and dead keys without a finger count for nothing: a symbol that
/// only such keys list, and only such dead keys compose, has no fingering.
pub proof fn lemma_fingerless_keys_are_absent(layout: LayoutView, symbol: Seq<char>)
    requires
        forall|j: int|
            0 <= j < layout.keymap.len() && lists(#[trigger] layout.keymap[j], symbol)
                ==> finger_for_key(layout.keymap[j].key) is None,
        forall|d: int|
            0 <= d < layout.deadkeys.len() && primitive_of(#[trigger] layout.deadkeys[d], symbol)
                is Some ==> finger_for_key(layout.deadkeys[d].key) is None,
    ensures
        fingering_of(layout, symbol) is None,
{
    lemma_direct_key_none(layout.keymap, symbol);
    lemma_composition_none(layout.deadkeys, symbol);
}

/// Only the first dead key that composes a symbol is tried: where no key
/// produces the primitive of its composition, the symbol has no fingering,
/// even where a later dead key would do.
pub proof fn lemma_unproduced_primitive_is_unresolved(
    layout: LayoutView,
    symbol: Seq<char>,
    d: int,
)
    requires
        direct_finger(layout.keymap, symbol) is None,
        is_first_dead_key(layout.deadkeys, symbol, d),
        direct_finger(layout.keymap, primitive_of(layout.deadkeys[d], symbol)->0) is None,
    ensures
        fingering_of(layout, symbol) is None,
{
    lemma_composition_first(layout.deadkeys, symbol, d);
}

/// What a fingering tells of the layout. One finger: it is the finger of
/// the first key that produces the symbol. Two fingers: no key produces the
/// symbol; the first is the finger of the first dead key that composes it,
/// and the second is the finger of the first key that produces the
/// primitive of that dead key's first composition for it.
pub proof fn lemma_fingering_is_grounded(layout: LayoutView, symbol: Seq<char>)
    ensures
        match fingering_of(layout, symbol) {
            Some(Fingering::Unigram(finger)) => exists|i: int|
                is_first_binding(layout.keymap, symbol, i) && finger_for_key(layout.keymap[i].key)
                    == Some(finger),
            Some(Fingering::Bigram(first, second)) => {
                &&& forall|j: int|
                    0 <= j < layout.keymap.len() ==> !produces(#[trigger] layout.keymap[j], symbol)
                &&& exists|d: int, c: int, p: int|
                    {
                        &&& is_first_dead_key(layout.deadkeys, symbol, d)
                        &&& is_first_composition(layout.deadkeys[d].compositions, symbol, c)
                        &&& finger_for_key(layout.deadkeys[d].key) == Some(first)
                        &&& is_first_binding(
                            layout.keymap,
                            layout.deadkeys[d].compositions[c].primitive,
                            p,
                        )
                        &&& finger_for_key(layout.keymap[p].key) == Some(second)
                    }
            },
            None => true,
        },
{
    match fingering_of(layout, symbol) {
        Some(Fingering::Unigram(finger)) => {
            let i = choose|i: int| is_first_binding(layout.keymap, symbol, i);
            assert(is_first_binding(layout.keymap, symbol, i));
        },
        Some(Fingering::Bigram(first, second)) => {
            assert forall|j: int| 0 <= j < layout.keymap.len() implies !produces(
                #[trigger] layout.keymap[j],
                symbol,
            ) by {
                if produces(layout.keymap[j], symbol) {
                    lemma_first_binding_exists(layout.keymap, symbol, j);
                    let k = choose|k: int| 0 <= k <= j && is_first_binding(layout.keymap, symbol, k);
                    lemma_direct_key_first(layout.keymap, symbol, k);
                }
            }
            let d = choose|d: int| is_first_dead_key(layout.deadkeys, symbol, d);
            let compositions = layout.deadkeys[d].compositions;
            let c = choose|c: int| is_first_composition(compositions, symbol, c);
            let primitive = compositions[c].primitive;
            let p = choose|p: int| is_first_binding(layout.keymap, primitive, p);
            assert(is_first_dead_key(layout.deadkeys, symbol, d));
            assert(is_first_composition(compositions, symbol, c));
            assert(is_first_binding(layout.keymap, primitive, p));
        },
        None => {},
    }
}

} // verus!

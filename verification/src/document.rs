//! Layouts and corpora as JSON documents.
//!
//! A layout document is an object with the field `keymap`, an object from
//! key identifiers to arrays of symbols, and optionally the field
//! `deadkeys`, an object from key identifiers to objects from primitive to
//! composed symbols. A corpus document is an object with the field
//! `symbols`, an object from symbols to frequencies.
//!
//! The `json` crate parses; what is read off the parsed value, and what is
//! refused, is decided here.

use vstd::prelude::*;
use vstd::utf8::encode_utf8;
use json::JsonValue;
use crate::json_value::{
    array_members, items_view, json_array, json_document, json_number, json_object, json_text,
    number_parts, object_entries, pairs_view, PARSER_DIGIT_LIMIT,
};
use crate::layout::{
    bindings_view, compositions_view, dead_keys_view, texts, Composition, CompositionView, DeadKey,
    DeadKeyView, KeyBinding, KeyBindingView, Layout, LayoutView,
};
use crate::load::{lemma_sum_of_next, lemma_sum_of_prefix, total_weight, Corpus, EntryView};
use crate::text::{digit_runs_within, has_digit_runs_within, same_text};
use crate::weight::{decimal_units, units_from_decimal, MAX_TOTAL_WEIGHT};

verus! {

/// The part of a document that an error speaks of.
#[derive(Clone, Copy, Debug, PartialEq, Eq, Structural)]
pub enum Field {
    /// The document as a whole.
    Document,
    /// The field `keymap` of a layout.
    Keymap,
    /// The field `deadkeys` of a layout.
    Deadkeys,
    /// The field `symbols` of a corpus.
    Symbols,
}

/// Why a document was refused.
#[derive(Clone, Copy, Debug, PartialEq, Eq, Structural)]
pub enum DocumentError {
    /// The text holds more digits in a row than the parser takes.
    LongNumber,
    /// The parser does not take the text as JSON.
    Syntax,
    /// The document lacks a field that it must have.
    MissingField(Field),
    /// The part, or a value inside it, is of the wrong JSON type.
    WrongType(Field),
    /// A frequency is negative or takes more than 64 bits as a weight, or
    /// the corpus weighs more than `MAX_TOTAL_WEIGHT`.
    BadWeight,
}

/// Whether `i` is the first pair of `pairs` with the key `name`.
pub open spec fn is_first_field(pairs: Seq<(Seq<char>, JsonValue)>, name: Seq<char>, i: int) -> bool {
    &&& 0 <= i < pairs.len()
    &&& pairs[i].0 == name
    &&& forall|j: int| 0 <= j < i ==> (#[trigger] pairs[j]).0 != name
}

/// The value of the first pair with the key `name`, if there is one.
pub open spec fn field_of(pairs: Seq<(Seq<char>, JsonValue)>, name: Seq<char>) -> Option<JsonValue> {
    if exists|i: int| is_first_field(pairs, name, i) {
        Some(pairs[choose|i: int| is_first_field(pairs, name, i)].1)
    } else {
        None
    }
}

/// Whether the value is an array of strings.
pub open spec fn is_symbol_list(value: JsonValue) -> bool {
    &&& json_array(value) is Some
    &&& forall|i: int|
        0 <= i < json_array(value)->0.len() ==> json_text(#[trigger] json_array(value)->0[i]) is Some
}

/// The strings of an array of strings.
pub open spec fn symbols_of(value: JsonValue) -> Seq<Seq<char>> {
    json_array(value)->0.map_values(|member: JsonValue| json_text(member)->0)
}

/// Whether the value is an object of arrays of strings.
pub open spec fn is_keymap(value: JsonValue) -> bool {
    &&& json_object(value) is Some
    &&& forall|i: int|
        0 <= i < json_object(value)->0.len() ==> is_symbol_list(
            (#[trigger] json_object(value)->0[i]).1,
        )
}

/// The bindings of a keymap, in the order of the object.
pub open spec fn keymap_of(value: JsonValue) -> Seq<KeyBindingView> {
    json_object(value)->0.map_values(
        |pair: (Seq<char>, JsonValue)| KeyBindingView { key: pair.0, symbols: symbols_of(pair.1) },
    )
}

/// Whether the value is an object of strings.
pub open spec fn is_composition_table(value: JsonValue) -> bool {
    &&& json_object(value) is Some
    &&& forall|i: int|
        0 <= i < json_object(value)->0.len() ==> json_text(
            (#[trigger] json_object(value)->0[i]).1,
        ) is Some
}

/// The compositions of one dead key, in the order of the object.
pub open spec fn compositions_of(value: JsonValue) -> Seq<CompositionView> {
    json_object(value)->0.map_values(
        |pair: (Seq<char>, JsonValue)|
            CompositionView { primitive: pair.0, composed: json_text(pair.1)->0 },
    )
}

/// Whether the value is an object of objects of strings.
pub open spec fn is_dead_key_table(value: JsonValue) -> bool {
    &&& json_object(value) is Some
    &&& forall|i: int|
        0 <= i < json_object(value)->0.len() ==> is_composition_table(
            (#[trigger] json_object(value)->0[i]).1,
        )
}

/// The dead keys of a dead key table, in the order of the object.
pub open spec fn dead_keys_of(value: JsonValue) -> Seq<DeadKeyView> {
    json_object(value)->0.map_values(
        |pair: (Seq<char>, JsonValue)|
            DeadKeyView { key: pair.0, compositions: compositions_of(pair.1) },
    )
}

/// What a document is as a layout: the layout, or why there is none.
pub open spec fn layout_of(document: JsonValue) -> Result<LayoutView, DocumentError> {
    match json_object(document) {
        None => Err(DocumentError::WrongType(Field::Document)),
        Some(fields) => match field_of(fields, "keymap"@) {
            None => Err(DocumentError::MissingField(Field::Keymap)),
            Some(keymap) => if !is_keymap(keymap) {
                Err(DocumentError::WrongType(Field::Keymap))
            } else {
                match field_of(fields, "deadkeys"@) {
                    None => Ok(
                        LayoutView { keymap: keymap_of(keymap), deadkeys: Seq::empty() },
                    ),
                    Some(deadkeys) => if !is_dead_key_table(deadkeys) {
                        Err(DocumentError::WrongType(Field::Deadkeys))
                    } else {
                        Ok(
                            LayoutView {
                                keymap: keymap_of(keymap),
                                deadkeys: dead_keys_of(deadkeys),
                            },
                        )
                    },
                }
            },
        },
    }
}

/// What a text is as a document: the parsed value, or why there is none.
/// A text with more than `PARSER_DIGIT_LIMIT` digits in a row is not handed
/// to the parser.
pub open spec fn document_of_text(text: Seq<char>) -> Result<JsonValue, DocumentError> {
    if !digit_runs_within(encode_utf8(text), PARSER_DIGIT_LIMIT as int) {
        Err(DocumentError::LongNumber)
    } else {
        match json_document(text) {
            Some(document) => Ok(document),
            None => Err(DocumentError::Syntax),
        }
    }
}

/// What a text is as a layout document.
pub open spec fn layout_of_text(text: Seq<char>) -> Result<LayoutView, DocumentError> {
    match document_of_text(text) {
        Ok(document) => layout_of(document),
        Err(error) => Err(error),
    }
}

/// Parses a JSON text, unless it holds more digits in a row than the parser
/// takes.
pub fn parse_document(text: &str) -> (document: Result<JsonValue, DocumentError>)
    ensures
        match document {
            Ok(d) => document_of_text(text@) == Ok::<JsonValue, DocumentError>(d),
            Err(e) => document_of_text(text@) == Err::<JsonValue, DocumentError>(e),
        },
{
    if !has_digit_runs_within(text, PARSER_DIGIT_LIMIT) {
        return Err(DocumentError::LongNumber);
    }
    match json::parse(text) {
        Ok(document) => Ok(document),
        Err(_) => Err(DocumentError::Syntax),
    }
}

/// The first pair with a given key is the one `field_of` speaks of.
pub proof fn lemma_field_first(pairs: Seq<(Seq<char>, JsonValue)>, name: Seq<char>, i: int)
    requires
        is_first_field(pairs, name, i),
    ensures
        field_of(pairs, name) == Some(pairs[i].1),
{
    let k = choose|k: int| is_first_field(pairs, name, k);
    assert(is_first_field(pairs, name, k));
    if k < i {
        assert(pairs[k].0 != name);
    } else if i < k {
        assert(pairs[i].0 != name);
    }
}

/// The value of the first of `pairs` whose key is `name`.
pub fn field<'a>(pairs: &Vec<(&'a str, &'a JsonValue)>, name: &str) -> (value: Option<
    &'a JsonValue,
>)
    ensures
        match value {
            Some(v) => field_of(pairs_view(pairs@), name@) == Some(*v),
            None => field_of(pairs_view(pairs@), name@) is None,
        },
{
    let mut i: usize = 0;
    while i < pairs.len()
        invariant
            i <= pairs.len(),
            forall|j: int| 0 <= j < i ==> (#[trigger] pairs_view(pairs@)[j]).0 != name@,
        decreases pairs.len() - i,
    {
        if same_text(pairs[i].0, name) {
            proof {
                lemma_field_first(pairs_view(pairs@), name@, i as int);
            }
            return Some(pairs[i].1);
        }
        i += 1;
    }
    None
}

/// The strings of an array of strings; `None` for any other value.
pub fn symbols_from(value: &JsonValue) -> (symbols: Option<Vec<String>>)
    ensures
        symbols is Some == is_symbol_list(*value),
        symbols matches Some(s) ==> texts(s@) == symbols_of(*value),
{
    let members = match array_members(value) {
        Some(members) => members,
        None => return None,
    };
    let mut symbols: Vec<String> = Vec::new();
    let mut i: usize = 0;
    while i < members.len()
        invariant
            json_array(*value) == Some(items_view(members@)),
            i <= members.len(),
            symbols.len() == i,
            forall|j: int|
                0 <= j < i ==> json_text(#[trigger] items_view(members@)[j]) == Some(symbols@[j]@),
        decreases members.len() - i,
    {
        match members[i].as_str() {
            Some(text) => symbols.push(text.to_owned()),
            None => {
                assert(json_text(items_view(members@)[i as int]) is None);
                return None;
            },
        }
        i += 1;
    }
    assert(texts(symbols@) =~= symbols_of(*value));
    Some(symbols)
}

/// The bindings of an object of arrays of strings; `None` for any other
/// value.
pub fn keymap_from(value: &JsonValue) -> (keymap: Option<Vec<KeyBinding>>)
    ensures
        keymap is Some == is_keymap(*value),
        keymap matches Some(k) ==> bindings_view(k@) == keymap_of(*value),
{
    let pairs = match object_entries(value) {
        Some(pairs) => pairs,
        None => return None,
    };
    let mut keymap: Vec<KeyBinding> = Vec::new();
    let mut i: usize = 0;
    while i < pairs.len()
        invariant
            json_object(*value) == Some(pairs_view(pairs@)),
            i <= pairs.len(),
            keymap.len() == i,
            forall|j: int| 0 <= j < i ==> is_symbol_list((#[trigger] pairs_view(pairs@)[j]).1),
            forall|j: int|
                0 <= j < i ==> (#[trigger] keymap@[j])@ == (KeyBindingView {
                    key: pairs_view(pairs@)[j].0,
                    symbols: symbols_of(pairs_view(pairs@)[j].1),
                }),
        decreases pairs.len() - i,
    {
        match symbols_from(pairs[i].1) {
            Some(symbols) => keymap.push(KeyBinding { key: pairs[i].0.to_owned(), symbols }),
            None => {
                assert(!is_symbol_list(json_object(*value)->0[i as int].1));
                return None;
            },
        }
        i += 1;
    }
    assert(bindings_view(keymap@) =~= keymap_of(*value));
    Some(keymap)
}

/// The compositions of an object of strings; `None` for any other value.
pub fn compositions_from(value: &JsonValue) -> (compositions: Option<Vec<Composition>>)
    ensures
        compositions is Some == is_composition_table(*value),
        compositions matches Some(c) ==> compositions_view(c@) == compositions_of(*value),
{
    let pairs = match object_entries(value) {
        Some(pairs) => pairs,
        None => return None,
    };
    let mut compositions: Vec<Composition> = Vec::new();
    let mut i: usize = 0;
    while i < pairs.len()
        invariant
            json_object(*value) == Some(pairs_view(pairs@)),
            i <= pairs.len(),
            compositions.len() == i,
            forall|j: int| 0 <= j < i ==> json_text((#[trigger] pairs_view(pairs@)[j]).1) is Some,
            forall|j: int|
                0 <= j < i ==> (#[trigger] compositions@[j])@ == (CompositionView {
                    primitive: pairs_view(pairs@)[j].0,
                    composed: json_text(pairs_view(pairs@)[j].1)->0,
                }),
        decreases pairs.len() - i,
    {
        match pairs[i].1.as_str() {
            Some(composed) => compositions.push(
                Composition { primitive: pairs[i].0.to_owned(), composed: composed.to_owned() },
            ),
            None => {
                assert(json_text(pairs_view(pairs@)[i as int].1) is None);
                return None;
            },
        }
        i += 1;
    }
    assert(compositions_view(compositions@) =~= compositions_of(*value));
    Some(compositions)
}

/// The dead keys of an object of objects of strings; `None` for any other
/// value.
pub fn dead_keys_from(value: &JsonValue) -> (dead_keys: Option<Vec<DeadKey>>)
    ensures
        dead_keys is Some == is_dead_key_table(*value),
        dead_keys matches Some(d) ==> dead_keys_view(d@) == dead_keys_of(*value),
{
    let pairs = match object_entries(value) {
        Some(pairs) => pairs,
        None => return None,
    };
    let mut dead_keys: Vec<DeadKey> = Vec::new();
    let mut i: usize = 0;
    while i < pairs.len()
        invariant
            json_object(*value) == Some(pairs_view(pairs@)),
            i <= pairs.len(),
            dead_keys.len() == i,
            forall|j: int|
                0 <= j < i ==> is_composition_table((#[trigger] pairs_view(pairs@)[j]).1),
            forall|j: int|
                0 <= j < i ==> (#[trigger] dead_keys@[j])@ == (DeadKeyView {
                    key: pairs_view(pairs@)[j].0,
                    compositions: compositions_of(pairs_view(pairs@)[j].1),
                }),
        decreases pairs.len() - i,
    {
        match compositions_from(pairs[i].1) {
            Some(compositions) => dead_keys.push(
                DeadKey { key: pairs[i].0.to_owned(), compositions },
            ),
            None => {
                assert(!is_composition_table(json_object(*value)->0[i as int].1));
                return None;
            },
        }
        i += 1;
    }
    assert(dead_keys_view(dead_keys@) =~= dead_keys_of(*value));
    Some(dead_keys)
}

impl Layout {
    /// The layout that a parsed document describes, or why it describes
    /// none. A document without `deadkeys` is a layout without dead keys.
    pub fn from_json(document: &JsonValue) -> (layout: Result<Layout, DocumentError>)
        ensures
            match layout {
                Ok(l) => layout_of(*document) == Ok::<LayoutView, DocumentError>(l@),
                Err(e) => layout_of(*document) == Err::<LayoutView, DocumentError>(e),
            },
    {
        let fields = match object_entries(document) {
            Some(fields) => fields,
            None => return Err(DocumentError::WrongType(Field::Document)),
        };
        let keymap = match field(&fields, "keymap") {
            Some(value) => match keymap_from(value) {
                Some(keymap) => keymap,
                None => return Err(DocumentError::WrongType(Field::Keymap)),
            },
            None => return Err(DocumentError::MissingField(Field::Keymap)),
        };
        let deadkeys = match field(&fields, "deadkeys") {
            Some(value) => match dead_keys_from(value) {
                Some(deadkeys) => deadkeys,
                None => return Err(DocumentError::WrongType(Field::Deadkeys)),
            },
            None => {
                let none: Vec<DeadKey> = Vec::new();
                assert(dead_keys_view(none@) =~= Seq::<DeadKeyView>::empty());
                none
            },
        };
        Ok(Layout { keymap, deadkeys })
    }

    /// The layout that a JSON text describes, or why it describes none.
    pub fn parse(text: &str) -> (layout: Result<Layout, DocumentError>)
        ensures
            match layout {
                Ok(l) => layout_of_text(text@) == Ok::<LayoutView, DocumentError>(l@),
                Err(e) => layout_of_text(text@) == Err::<LayoutView, DocumentError>(e),
            },
    {
        match parse_document(text) {
            Ok(document) => Layout::from_json(&document),
            Err(error) => Err(error),
        }
    }
}

/// Whether the value is an object of numbers.
pub open spec fn is_weight_table(value: JsonValue) -> bool {
    &&& json_object(value) is Some
    &&& forall|i: int|
        0 <= i < json_object(value)->0.len() ==> json_number(
            (#[trigger] json_object(value)->0[i]).1,
        ) is Some
}

/// Whether a number, given by its sign, mantissa and exponent, can be a
/// weight: it is not negative, and its units fit in 64 bits.
pub open spec fn has_weight(parts: (bool, u64, i16)) -> bool {
    &&& parts.0 || parts.1 == 0
    &&& decimal_units(parts.1 as nat, parts.2 as int) <= u64::MAX
}

/// The entry that a pair of a symbol and a number stands for.
pub open spec fn entry_of(pair: (Seq<char>, JsonValue)) -> EntryView {
    let parts = json_number(pair.1)->0;
    EntryView { symbol: pair.0, weight: decimal_units(parts.1 as nat, parts.2 as int) }
}

/// The entries of an object of numbers, in the order of the object.
pub open spec fn entries_of(value: JsonValue) -> Seq<EntryView> {
    json_object(value)->0.map_values(|pair: (Seq<char>, JsonValue)| entry_of(pair))
}

/// Whether every number of an object of numbers can be a weight, and all of
/// them together weigh no more than a corpus may.
pub open spec fn weights_fit(value: JsonValue) -> bool {
    &&& forall|i: int|
        0 <= i < json_object(value)->0.len() ==> has_weight(
            json_number((#[trigger] json_object(value)->0[i]).1)->0,
        )
    &&& total_weight(entries_of(value)) <= MAX_TOTAL_WEIGHT
}

/// What a document is as a corpus: the entries, or why there are none.
pub open spec fn corpus_of(document: JsonValue) -> Result<Seq<EntryView>, DocumentError> {
    match json_object(document) {
        None => Err(DocumentError::WrongType(Field::Document)),
        Some(fields) => match field_of(fields, "symbols"@) {
            None => Err(DocumentError::MissingField(Field::Symbols)),
            Some(symbols) => if !is_weight_table(symbols) {
                Err(DocumentError::WrongType(Field::Symbols))
            } else if !weights_fit(symbols) {
                Err(DocumentError::BadWeight)
            } else {
                Ok(entries_of(symbols))
            },
        },
    }
}

/// What a text is as a corpus document.
pub open spec fn corpus_of_text(text: Seq<char>) -> Result<Seq<EntryView>, DocumentError> {
    match document_of_text(text) {
        Ok(document) => corpus_of(document),
        Err(error) => Err(error),
    }
}

/// The weight of a number given by its sign, mantissa and exponent; `None`
/// where it is negative or takes more than 64 bits.
pub fn weight_from(parts: (bool, u64, i16)) -> (weight: Option<u64>)
    ensures
        weight is Some == has_weight(parts),
        weight matches Some(units) ==> units == decimal_units(parts.1 as nat, parts.2 as int),
{
    if !parts.0 && parts.1 != 0 {
        None
    } else {
        units_from_decimal(parts.1, parts.2)
    }
}

/// The numbers of an object of numbers, each by its sign, mantissa and
/// exponent; `None` where a value of the object is no number.
pub fn numbers_from(pairs: &Vec<(&str, &JsonValue)>) -> (numbers: Option<Vec<(bool, u64, i16)>>)
    ensures
        numbers is Some == (forall|i: int|
            0 <= i < pairs@.len() ==> json_number((#[trigger] pairs_view(pairs@)[i]).1) is Some),
        numbers matches Some(n) ==> n@.len() == pairs@.len() && forall|i: int|
            0 <= i < pairs@.len() ==> json_number((#[trigger] pairs_view(pairs@)[i]).1) == Some(
                n@[i],
            ),
{
    let mut numbers: Vec<(bool, u64, i16)> = Vec::new();
    let mut i: usize = 0;
    while i < pairs.len()
        invariant
            i <= pairs.len(),
            numbers.len() == i,
            forall|j: int|
                0 <= j < i ==> json_number((#[trigger] pairs_view(pairs@)[j]).1) == Some(
                    numbers@[j],
                ),
        decreases pairs.len() - i,
    {
        match number_parts(pairs[i].1) {
            Some(parts) => numbers.push(parts),
            None => {
                assert(json_number(pairs_view(pairs@)[i as int].1) is None);
                return None;
            },
        }
        i += 1;
    }
    Some(numbers)
}

impl Corpus {
    /// The corpus that a parsed document describes, or why it describes
    /// none. Types are looked at first: a value that is no number is
    /// named even where a number before it cannot be a weight.
    pub fn from_json(document: &JsonValue) -> (corpus: Result<Corpus, DocumentError>)
        ensures
            match corpus {
                Ok(c) => c.wf() && corpus_of(*document) == Ok::<Seq<EntryView>, DocumentError>(c@),
                Err(e) => corpus_of(*document) == Err::<Seq<EntryView>, DocumentError>(e),
            },
    {
        let fields = match object_entries(document) {
            Some(fields) => fields,
            None => return Err(DocumentError::WrongType(Field::Document)),
        };
        let symbols = match field(&fields, "symbols") {
            Some(symbols) => symbols,
            None => return Err(DocumentError::MissingField(Field::Symbols)),
        };
        let pairs = match object_entries(symbols) {
            Some(pairs) => pairs,
            None => return Err(DocumentError::WrongType(Field::Symbols)),
        };
        let numbers = match numbers_from(&pairs) {
            Some(numbers) => numbers,
            None => return Err(DocumentError::WrongType(Field::Symbols)),
        };
        let ghost entries = entries_of(*symbols);
        let mut corpus = Corpus::new();
        let mut i: usize = 0;
        assert(entries.take(0) =~= Seq::<EntryView>::empty());
        assert(is_weight_table(*symbols));
        while i < pairs.len()
            invariant
                corpus_of(*document) == (if weights_fit(*symbols) {
                    Ok::<Seq<EntryView>, DocumentError>(entries)
                } else {
                    Err::<Seq<EntryView>, DocumentError>(DocumentError::BadWeight)
                }),
                json_object(*symbols) == Some(pairs_view(pairs@)),
                entries == entries_of(*symbols),
                numbers@.len() == pairs@.len(),
                forall|j: int|
                    0 <= j < pairs@.len() ==> json_number((#[trigger] pairs_view(pairs@)[j]).1)
                        == Some(numbers@[j]),
                i <= pairs.len(),
                corpus.wf(),
                corpus@ == entries.take(i as int),
                forall|j: int| 0 <= j < i ==> has_weight(#[trigger] numbers@[j]),
            decreases pairs.len() - i,
        {
            let ghost pair = json_object(*symbols)->0[i as int];
            assert(json_number(pair.1) == Some(numbers@[i as int]));
            let weight = match weight_from(numbers[i]) {
                Some(weight) => weight,
                None => return Err(DocumentError::BadWeight),
            };
            proof {
                assert(entries[i as int] == entry_of(pair));
                lemma_sum_of_next(entries, |e: EntryView| e.weight, i as int);
                lemma_sum_of_prefix(entries, |e: EntryView| e.weight, i + 1);
            }
            if !corpus.push(pairs[i].0.to_owned(), weight) {
                return Err(DocumentError::BadWeight);
            }
            assert(corpus@ =~= entries.take(i + 1));
            i += 1;
        }
        assert(entries.take(i as int) =~= entries);
        assert forall|j: int| 0 <= j < json_object(*symbols)->0.len() implies has_weight(
            json_number((#[trigger] json_object(*symbols)->0[j]).1)->0,
        ) by {
            assert(has_weight(numbers@[j]));
        }
        proof {
            corpus.lemma_total_within_limit();
        }
        Ok(corpus)
    }

    /// The corpus that a JSON text describes, or why it describes none.
    pub fn parse(text: &str) -> (corpus: Result<Corpus, DocumentError>)
        ensures
            match corpus {
                Ok(c) => c.wf() && corpus_of_text(text@) == Ok::<Seq<EntryView>, DocumentError>(
                    c@,
                ),
                Err(e) => corpus_of_text(text@) == Err::<Seq<EntryView>, DocumentError>(e),
            },
    {
        match parse_document(text) {
            Ok(document) => Corpus::from_json(&document),
            Err(error) => Err(error),
        }
    }
}

} // verus!

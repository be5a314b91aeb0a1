//! The load that a corpus puts on each finger.
//!
//! Every symbol of the corpus is resolved on the layout. Its weight goes to
//! the finger that types it; for a composition it goes to both fingers, and
//! is noted as excess; for a symbol that cannot be typed it is noted as
//! ignored. The per-finger sums are then scaled down to make up for the
//! weight that compositions counted twice.

use vstd::prelude::*;
use vstd::seq_lib::{to_multiset_build, to_multiset_contains, to_multiset_len, to_multiset_remove};
use crate::finger::FINGER_COUNT;
use crate::fingering::{fingering_of, Fingering};
use crate::layout::{Layout, LayoutView};
use crate::weight::{FULL_SCALE, MAX_TOTAL_WEIGHT};

verus! {

/// One symbol of a corpus with its weight.
pub struct CorpusEntry {
    pub symbol: String,
    pub weight: u64,
}

/// A corpus entry as plain values.
pub struct EntryView {
    pub symbol: Seq<char>,
    pub weight: nat,
}

impl View for CorpusEntry {
    type V = EntryView;

    open spec fn view(&self) -> EntryView {
        EntryView { symbol: self.symbol@, weight: self.weight as nat }
    }
}

/// The sum over `entries` of what `share` makes of each.
pub open spec fn sum_of(entries: Seq<EntryView>, share: spec_fn(EntryView) -> nat) -> nat
    decreases entries.len(),
{
    if entries.len() == 0 {
        0
    } else {
        sum_of(entries.drop_last(), share) + share(entries.last())
    }
}

/// The weight of all entries together.
pub open spec fn total_weight(entries: Seq<EntryView>) -> nat {
    sum_of(entries, |e: EntryView| e.weight)
}

/// What a symbol of the given fingering and weight adds to the finger at
/// position `k`: its weight for each stroke of that finger.
pub open spec fn finger_share(fingering: Option<Fingering>, weight: nat, k: int) -> nat {
    match fingering {
        Some(Fingering::Unigram(finger)) => if finger.ordinal() == k {
            weight
        } else {
            0
        },
        Some(Fingering::Bigram(first, second)) => (if first.ordinal() == k {
            weight
        } else {
            0nat
        }) + (if second.ordinal() == k {
            weight
        } else {
            0nat
        }),
        None => 0,
    }
}

/// What a symbol adds to the ignored weight: its weight where it has no
/// fingering.
pub open spec fn ignored_share(fingering: Option<Fingering>, weight: nat) -> nat {
    if fingering is None {
        weight
    } else {
        0
    }
}

/// What a symbol adds to the excess: its weight where it takes two strokes.
pub open spec fn excess_share(fingering: Option<Fingering>, weight: nat) -> nat {
    match fingering {
        Some(Fingering::Bigram(_, _)) => weight,
        _ => 0,
    }
}

/// The weight that the entries put on the finger at position `k`, before
/// scaling.
pub open spec fn finger_load(layout: LayoutView, entries: Seq<EntryView>, k: int) -> nat {
    sum_of(entries, |e: EntryView| finger_share(fingering_of(layout, e.symbol), e.weight, k))
}

/// The weight of the entries whose symbol the layout cannot produce.
pub open spec fn ignored_weight(layout: LayoutView, entries: Seq<EntryView>) -> nat {
    sum_of(entries, |e: EntryView| ignored_share(fingering_of(layout, e.symbol), e.weight))
}

/// The weight of the entries whose symbol takes two strokes.
pub open spec fn excess_weight(layout: LayoutView, entries: Seq<EntryView>) -> nat {
    sum_of(entries, |e: EntryView| excess_share(fingering_of(layout, e.symbol), e.weight))
}

/// The weight that the entries put on all nine fingers together.
pub open spec fn fingers_weight(layout: LayoutView, entries: Seq<EntryView>) -> nat {
    finger_load(layout, entries, 0) + finger_load(layout, entries, 1) + finger_load(
        layout,
        entries,
        2,
    ) + finger_load(layout, entries, 3) + finger_load(layout, entries, 4) + finger_load(
        layout,
        entries,
        5,
    ) + finger_load(layout, entries, 6) + finger_load(layout, entries, 7) + finger_load(
        layout,
        entries,
        8,
    )
}

/// A load scaled by `FULL_SCALE / (excess + FULL_SCALE)`, rounded down to
/// whole units.
pub open spec fn normalized(load: nat, excess: nat) -> nat {
    load * (FULL_SCALE as nat) / (excess + FULL_SCALE as nat)
}

/// The scaled loads of all nine fingers together.
pub open spec fn normalized_weight(layout: LayoutView, entries: Seq<EntryView>) -> nat {
    let e = excess_weight(layout, entries);
    normalized(finger_load(layout, entries, 0), e) + normalized(finger_load(layout, entries, 1), e)
        + normalized(finger_load(layout, entries, 2), e) + normalized(
        finger_load(layout, entries, 3),
        e,
    ) + normalized(finger_load(layout, entries, 4), e) + normalized(
        finger_load(layout, entries, 5),
        e,
    ) + normalized(finger_load(layout, entries, 6), e) + normalized(
        finger_load(layout, entries, 7),
        e,
    ) + normalized(finger_load(layout, entries, 8), e)
}

/// A sum grows by the share of each further entry.
pub proof fn lemma_sum_of_next(entries: Seq<EntryView>, share: spec_fn(EntryView) -> nat, i: int)
    requires
        0 <= i < entries.len(),
    ensures
        sum_of(entries.take(i + 1), share) == sum_of(entries.take(i), share) + share(entries[i]),
{
    assert(entries.take(i + 1).drop_last() =~= entries.take(i));
}

/// The sum over the first entries is at most the sum over all.
pub proof fn lemma_sum_of_prefix(entries: Seq<EntryView>, share: spec_fn(EntryView) -> nat, i: int)
    requires
        0 <= i <= entries.len(),
    ensures
        sum_of(entries.take(i), share) <= sum_of(entries, share),
    decreases entries.len() - i,
{
    if i == entries.len() {
        assert(entries.take(i) =~= entries);
    } else {
        lemma_sum_of_next(entries, share, i);
        lemma_sum_of_prefix(entries, share, i + 1);
    }
}

/// Taking one entry out takes its share out of the sum.
pub proof fn lemma_sum_of_remove(entries: Seq<EntryView>, share: spec_fn(EntryView) -> nat, i: int)
    requires
        0 <= i < entries.len(),
    ensures
        sum_of(entries, share) == sum_of(entries.remove(i), share) + share(entries[i]),
    decreases entries.len(),
{
    if i == entries.len() - 1 {
        assert(entries.remove(i) =~= entries.drop_last());
    } else {
        lemma_sum_of_remove(entries.drop_last(), share, i);
        assert(entries.remove(i).drop_last() =~= entries.drop_last().remove(i));
        assert(entries.remove(i).last() == entries.last());
    }
}

/// A sum does not depend on the order of the entries.
pub proof fn lemma_sum_of_reordered(
    a: Seq<EntryView>,
    b: Seq<EntryView>,
    share: spec_fn(EntryView) -> nat,
)
    requires
        a.to_multiset() == b.to_multiset(),
    ensures
        sum_of(a, share) == sum_of(b, share),
    decreases a.len(),
{
    to_multiset_len(a);
    to_multiset_len(b);
    if a.len() > 0 {
        let x = a.last();
        let rest = a.drop_last();
        assert(a =~= rest.push(x));
        to_multiset_build(rest, x);
        to_multiset_contains(b, x);
        assert(b.to_multiset().count(x) > 0);
        let j = choose|j: int| 0 <= j < b.len() && b[j] == x;
        to_multiset_remove(b, j);
        assert(rest.to_multiset() =~= b.remove(j).to_multiset());
        lemma_sum_of_reordered(rest, b.remove(j), share);
        lemma_sum_of_remove(b, share, j);
    }
}

/// What one symbol adds to the nine fingers and to the ignored weight is its
/// weight, once more where it is counted as excess.
pub proof fn lemma_shares_balance(fingering: Option<Fingering>, weight: nat)
    ensures
        finger_share(fingering, weight, 0) + finger_share(fingering, weight, 1) + finger_share(
            fingering,
            weight,
            2,
        ) + finger_share(fingering, weight, 3) + finger_share(fingering, weight, 4) + finger_share(
            fingering,
            weight,
            5,
        ) + finger_share(fingering, weight, 6) + finger_share(fingering, weight, 7) + finger_share(
            fingering,
            weight,
            8,
        ) + ignored_share(fingering, weight) == weight + excess_share(fingering, weight),
        forall|k: int| #[trigger] finger_share(fingering, weight, k) <= 2 * weight,
        ignored_share(fingering, weight) <= weight,
        excess_share(fingering, weight) <= weight,
{
}

/// Nothing is lost in aggregation: the loads of the nine fingers and the
/// ignored weight together are the weight of the corpus plus the excess.
pub proof fn lemma_load_balance(layout: LayoutView, entries: Seq<EntryView>)
    ensures
        fingers_weight(layout, entries) + ignored_weight(layout, entries) == total_weight(entries)
            + excess_weight(layout, entries),
    decreases entries.len(),
{
    if entries.len() > 0 {
        let last = entries.last();
        lemma_load_balance(layout, entries.drop_last());
        lemma_shares_balance(fingering_of(layout, last.symbol), last.weight);
    }
}

/// No finger carries more than twice the weight of the corpus, and neither
/// the ignored weight nor the excess is more than the weight of the corpus.
pub proof fn lemma_load_bounds(layout: LayoutView, entries: Seq<EntryView>, k: int)
    ensures
        finger_load(layout, entries, k) <= 2 * total_weight(entries),
        ignored_weight(layout, entries) <= total_weight(entries),
        excess_weight(layout, entries) <= total_weight(entries),
    decreases entries.len(),
{
    if entries.len() > 0 {
        let last = entries.last();
        lemma_load_bounds(layout, entries.drop_last(), k);
        lemma_shares_balance(fingering_of(layout, last.symbol), last.weight);
    }
}

/// The loads do not depend on the order in which the corpus lists its
/// symbols: two corpora with the same entries, each as often in one as in
/// the other, give every finger the same load, and the same ignored weight
/// and excess.
pub proof fn lemma_aggregate_order_independent(
    layout: LayoutView,
    a: Seq<EntryView>,
    b: Seq<EntryView>,
)
    requires
        a.to_multiset() == b.to_multiset(),
    ensures
        forall|k: int| #[trigger] finger_load(layout, a, k) == finger_load(layout, b, k),
        ignored_weight(layout, a) == ignored_weight(layout, b),
        excess_weight(layout, a) == excess_weight(layout, b),
        total_weight(a) == total_weight(b),
{
    assert forall|k: int| #[trigger] finger_load(layout, a, k) == finger_load(layout, b, k) by {
        lemma_sum_of_reordered(
            a,
            b,
            |e: EntryView| finger_share(fingering_of(layout, e.symbol), e.weight, k),
        );
    }
    lemma_sum_of_reordered(
        a,
        b,
        |e: EntryView| ignored_share(fingering_of(layout, e.symbol), e.weight),
    );
    lemma_sum_of_reordered(
        a,
        b,
        |e: EntryView| excess_share(fingering_of(layout, e.symbol), e.weight),
    );
    lemma_sum_of_reordered(a, b, |e: EntryView| e.weight);
}

/// A corpus: symbols with their weights, in the order in which they were
/// added. Its total weight is at most `MAX_TOTAL_WEIGHT`.
pub struct Corpus {
    entries: Vec<CorpusEntry>,
    total: u64,
}

impl View for Corpus {
    type V = Seq<EntryView>;

    closed spec fn view(&self) -> Seq<EntryView> {
        self.entries@.map_values(|e: CorpusEntry| e@)
    }
}

impl Corpus {
    /// The invariant of a corpus: its total weight is within the limit, and
    /// the corpus knows it.
    pub closed spec fn wf(&self) -> bool {
        &&& self.total == total_weight(self@)
        &&& self.total <= MAX_TOTAL_WEIGHT
    }

    /// The total weight of a corpus is within the limit.
    pub proof fn lemma_total_within_limit(&self)
        requires
            self.wf(),
        ensures
            total_weight(self@) <= MAX_TOTAL_WEIGHT,
    {
    }

    /// A corpus without entries.
    pub fn new() -> (corpus: Corpus)
        ensures
            corpus.wf(),
            corpus@ == Seq::<EntryView>::empty(),
    {
        let corpus = Corpus { entries: Vec::new(), total: 0 };
        assert(corpus@ =~= Seq::<EntryView>::empty());
        corpus
    }

    /// Adds a symbol with its weight at the end, unless the total weight
    /// would pass `MAX_TOTAL_WEIGHT`: then the corpus stays as it is and the
    /// answer is `false`.
    pub fn push(&mut self, symbol: String, weight: u64) -> (added: bool)
        requires
            old(self).wf(),
        ensures
            final(self).wf(),
            added == (total_weight(old(self)@) + weight <= MAX_TOTAL_WEIGHT),
            added ==> final(self)@ == old(self)@.push(
                (EntryView { symbol: symbol@, weight: weight as nat }),
            ),
            !added ==> final(self)@ == old(self)@,
    {
        if weight > MAX_TOTAL_WEIGHT - self.total {
            return false;
        }
        let ghost before = self@;
        let ghost entry = EntryView { symbol: symbol@, weight: weight as nat };
        self.entries.push(CorpusEntry { symbol, weight });
        self.total = self.total + weight;
        proof {
            assert(self@ =~= before.push(entry));
            assert(self@.drop_last() =~= before);
        }
        true
    }

    /// The number of entries.
    pub fn len(&self) -> (n: usize)
        ensures
            n == self@.len(),
    {
        self.entries.len()
    }

    /// The weight of all entries together.
    pub fn total(&self) -> (total: u64)
        requires
            self.wf(),
        ensures
            total == total_weight(self@),
    {
        self.total
    }

    /// The entry at position `i`.
    pub fn entry(&self, i: usize) -> (entry: &CorpusEntry)
        requires
            i < self@.len(),
        ensures
            entry@ == self@[i as int],
    {
        &self.entries[i]
    }
}

/// The outcome of aggregation: the load of each finger by its position, the
/// weight that was ignored, and the weight that was counted twice.
pub struct LoadVector {
    pub fingers: [u64; 9],
    pub ignored: u64,
    pub excess: u64,
}

/// Resolves every symbol of the corpus on the layout and sums the weights:
/// per finger, of the symbols without a fingering, and of the compositions.
pub fn aggregate(layout: &Layout, corpus: &Corpus) -> (load: LoadVector)
    requires
        corpus.wf(),
    ensures
        forall|k: int|
            0 <= k < FINGER_COUNT ==> load.fingers[k] == #[trigger] finger_load(
                layout@,
                corpus@,
                k,
            ),
        load.ignored == ignored_weight(layout@, corpus@),
        load.excess == excess_weight(layout@, corpus@),
{
    let mut fingers: [u64; 9] = [0; 9];
    let mut ignored: u64 = 0;
    let mut excess: u64 = 0;
    let mut i: usize = 0;
    assert(corpus@.take(0) =~= Seq::<EntryView>::empty());
    while i < corpus.entries.len()
        invariant
            i <= corpus@.len(),
            corpus@.len() == corpus.entries@.len(),
            corpus.wf(),
            forall|k: int|
                0 <= k < 9 ==> fingers[k] == #[trigger] finger_load(layout@, corpus@.take(i as int), k),
            ignored == ignored_weight(layout@, corpus@.take(i as int)),
            excess == excess_weight(layout@, corpus@.take(i as int)),
        decreases corpus@.len() - i,
    {
        let entry = &corpus.entries[i];
        let weight = entry.weight;
        let ghost seen = corpus@.take(i as int);
        let ghost next = corpus@.take(i + 1);
        let ghost fingering = fingering_of(layout@, entry@.symbol);
        proof {
            assert(corpus@[i as int] == entry@);
            lemma_sum_of_next(corpus@, |e: EntryView| e.weight, i as int);
            lemma_sum_of_prefix(corpus@, |e: EntryView| e.weight, i + 1);
            lemma_sum_of_next(
                corpus@,
                |e: EntryView| ignored_share(fingering_of(layout@, e.symbol), e.weight),
                i as int,
            );
            lemma_sum_of_next(
                corpus@,
                |e: EntryView| excess_share(fingering_of(layout@, e.symbol), e.weight),
                i as int,
            );
            assert forall|k: int| 0 <= k < 9 implies #[trigger] finger_load(layout@, next, k)
                == finger_load(layout@, seen, k) + finger_share(fingering, weight as nat, k)
                && finger_load(layout@, next, k) <= 2 * MAX_TOTAL_WEIGHT by {
                lemma_sum_of_next(
                    corpus@,
                    |e: EntryView| finger_share(fingering_of(layout@, e.symbol), e.weight, k),
                    i as int,
                );
                lemma_load_bounds(layout@, next, k);
            }
            lemma_load_bounds(layout@, next, 0);
        }
        match Fingering::from_symbol_in_layout(layout, entry.symbol.as_str()) {
            None => {
                ignored = ignored + weight;
            },
            Some(Fingering::Unigram(finger)) => {
                let k = finger.as_usize();
                assert(finger_load(layout@, next, k as int) == fingers[k as int] + weight);
                fingers[k] = fingers[k] + weight;
            },
            Some(Fingering::Bigram(first, second)) => {
                excess = excess + weight;
                let a = first.as_usize();
                let b = second.as_usize();
                assert(finger_load(layout@, next, a as int) >= fingers[a as int] + weight);
                fingers[a] = fingers[a] + weight;
                assert(finger_load(layout@, next, b as int) >= fingers[b as int] + weight);
                fingers[b] = fingers[b] + weight;
            },
        }
        i += 1;
    }
    assert(corpus@.take(i as int) =~= corpus@);
    LoadVector { fingers, ignored, excess }
}

/// Scales the load of each finger by `FULL_SCALE / (excess + FULL_SCALE)`,
/// rounding down to whole units: the share of a corpus in percent that falls
/// on the finger once the second strokes of compositions are made up for.
/// The scaling is approximate; the scaled loads need not add up to the
/// weight of the corpus.
pub fn normalize(fingers: &[u64; 9], excess: u64) -> (scaled: [u64; 9])
    ensures
        forall|k: int|
            0 <= k < FINGER_COUNT ==> #[trigger] scaled[k] == normalized(
                fingers[k] as nat,
                excess as nat,
            ),
{
    let mut scaled: [u64; 9] = [0; 9];
    let divisor: u128 = excess as u128 + FULL_SCALE as u128;
    let mut k: usize = 0;
    while k < 9
        invariant
            k <= 9,
            divisor == excess + FULL_SCALE,
            forall|j: int|
                0 <= j < k ==> #[trigger] scaled[j] == normalized(fingers[j] as nat, excess as nat),
        decreases 9 - k,
    {
        let load = fingers[k];
        proof {
            lemma_normalized_at_most(load as nat, excess as nat);
            assert(load * FULL_SCALE <= u64::MAX * FULL_SCALE) by (nonlinear_arith)
                requires
                    load <= u64::MAX,
                    FULL_SCALE >= 0,
            ;
        }
        let product: u128 = load as u128 * FULL_SCALE as u128;
        let quotient: u128 = product / divisor;
        scaled[k] = quotient as u64;
        k += 1;
    }
    scaled
}

/// The report of a corpus on a layout: the scaled load of each finger by its
/// position, scaled by the excess of this same corpus, and the weight that
/// was ignored.
pub fn finger_report(layout: &Layout, corpus: &Corpus) -> (report: ([u64; 9], u64))
    requires
        corpus.wf(),
    ensures
        forall|k: int|
            0 <= k < FINGER_COUNT ==> #[trigger] report.0[k] == normalized(
                finger_load(layout@, corpus@, k),
                excess_weight(layout@, corpus@),
            ),
        report.1 == ignored_weight(layout@, corpus@),
{
    let load = aggregate(layout, corpus);
    let scaled = normalize(&load.fingers, load.excess);
    assert forall|k: int| 0 <= k < FINGER_COUNT implies #[trigger] scaled[k] == normalized(
        finger_load(layout@, corpus@, k),
        excess_weight(layout@, corpus@),
    ) by {
        assert(load.fingers[k] == finger_load(layout@, corpus@, k));
    }
    (scaled, load.ignored)
}

/// Scaling never raises a load.
pub proof fn lemma_normalized_at_most(load: nat, excess: nat)
    ensures
        normalized(load, excess) <= load,
{
    let f = FULL_SCALE as nat;
    let d = excess + f;
    assert(load * f / d <= load) by (nonlinear_arith)
        requires
            0 < f <= d,
    ;
}

/// Without excess the scaling changes nothing.
pub proof fn lemma_normalized_without_excess(load: nat)
    ensures
        normalized(load, 0) == load,
{
    let f = FULL_SCALE as nat;
    assert(load * f / f == load) by (nonlinear_arith)
        requires
            0 < f,
    ;
}

/// A quotient rounded down, times the divisor, is at most the dividend and
/// less than one divisor short of it.
pub proof fn lemma_quotient_bracket(x: nat, d: nat)
    requires
        d > 0,
    ensures
        (x / d) * d <= x < (x / d + 1) * d,
{
    vstd::arithmetic::div_mod::lemma_fundamental_div_mod(x as int, d as int);
    vstd::arithmetic::div_mod::lemma_mod_bound(x as int, d as int);
    let q = x as int / d as int;
    assert(d * q == q * d) by (nonlinear_arith);
    assert((q + 1) * d == q * d + d) by (nonlinear_arith);
}

/// The scaled loads of the nine fingers together, against the unscaled: with
/// `d` for `excess + FULL_SCALE`, their sum times `d` is at most the
/// unscaled sum times `FULL_SCALE`, and rounding loses less than one unit
/// for each finger.
pub proof fn lemma_normalized_bracket(layout: LayoutView, entries: Seq<EntryView>)
    ensures
        normalized_weight(layout, entries) * (excess_weight(layout, entries) + FULL_SCALE)
            <= fingers_weight(layout, entries) * FULL_SCALE,
        fingers_weight(layout, entries) * FULL_SCALE < (normalized_weight(layout, entries) + 9) * (
        excess_weight(layout, entries) + FULL_SCALE),
{
    let f = FULL_SCALE as nat;
    let e = excess_weight(layout, entries);
    let d = e + f;
    let a0 = finger_load(layout, entries, 0);
    let a1 = finger_load(layout, entries, 1);
    let a2 = finger_load(layout, entries, 2);
    let a3 = finger_load(layout, entries, 3);
    let a4 = finger_load(layout, entries, 4);
    let a5 = finger_load(layout, entries, 5);
    let a6 = finger_load(layout, entries, 6);
    let a7 = finger_load(layout, entries, 7);
    let a8 = finger_load(layout, entries, 8);
    let q0 = normalized(a0, e);
    let q1 = normalized(a1, e);
    let q2 = normalized(a2, e);
    let q3 = normalized(a3, e);
    let q4 = normalized(a4, e);
    let q5 = normalized(a5, e);
    let q6 = normalized(a6, e);
    let q7 = normalized(a7, e);
    let q8 = normalized(a8, e);
    lemma_quotient_bracket(a0 * f, d);
    lemma_quotient_bracket(a1 * f, d);
    lemma_quotient_bracket(a2 * f, d);
    lemma_quotient_bracket(a3 * f, d);
    lemma_quotient_bracket(a4 * f, d);
    lemma_quotient_bracket(a5 * f, d);
    lemma_quotient_bracket(a6 * f, d);
    lemma_quotient_bracket(a7 * f, d);
    lemma_quotient_bracket(a8 * f, d);
    let n = q0 + q1 + q2 + q3 + q4 + q5 + q6 + q7 + q8;
    let s = a0 + a1 + a2 + a3 + a4 + a5 + a6 + a7 + a8;
    assert(n * d == q0 * d + q1 * d + q2 * d + q3 * d + q4 * d + q5 * d + q6 * d + q7 * d + q8
        * d) by (nonlinear_arith)
        requires
            n == q0 + q1 + q2 + q3 + q4 + q5 + q6 + q7 + q8,
    ;
    assert((n + 9) * d == (q0 + 1) * d + (q1 + 1) * d + (q2 + 1) * d + (q3 + 1) * d + (q4 + 1)
        * d + (q5 + 1) * d + (q6 + 1) * d + (q7 + 1) * d + (q8 + 1) * d) by (nonlinear_arith)
        requires
            n == q0 + q1 + q2 + q3 + q4 + q5 + q6 + q7 + q8,
    ;
    assert(s * f == a0 * f + a1 * f + a2 * f + a3 * f + a4 * f + a5 * f + a6 * f + a7 * f + a8
        * f) by (nonlinear_arith)
        requires
            s == a0 + a1 + a2 + a3 + a4 + a5 + a6 + a7 + a8,
    ;
}

/// Where no symbol of the corpus is a composition, scaling changes nothing:
/// the scaled loads and the ignored weight together are the weight of the
/// corpus.
pub proof fn lemma_normalized_without_compositions(layout: LayoutView, entries: Seq<EntryView>)
    requires
        excess_weight(layout, entries) == 0,
    ensures
        normalized_weight(layout, entries) + ignored_weight(layout, entries) == total_weight(
            entries,
        ),
{
    lemma_load_balance(layout, entries);
    lemma_normalized_without_excess(finger_load(layout, entries, 0));
    lemma_normalized_without_excess(finger_load(layout, entries, 1));
    lemma_normalized_without_excess(finger_load(layout, entries, 2));
    lemma_normalized_without_excess(finger_load(layout, entries, 3));
    lemma_normalized_without_excess(finger_load(layout, entries, 4));
    lemma_normalized_without_excess(finger_load(layout, entries, 5));
    lemma_normalized_without_excess(finger_load(layout, entries, 6));
    lemma_normalized_without_excess(finger_load(layout, entries, 7));
    lemma_normalized_without_excess(finger_load(layout, entries, 8));
}

/// For a corpus that weighs `FULL_SCALE` and that the layout types
/// entirely, the scaled loads add up to `FULL_SCALE` whatever the excess,
/// short of what rounding down loses: less than one unit for each finger.
pub proof fn lemma_normalized_full_corpus(layout: LayoutView, entries: Seq<EntryView>)
    requires
        total_weight(entries) == FULL_SCALE,
        ignored_weight(layout, entries) == 0,
    ensures
        FULL_SCALE - 9 < normalized_weight(layout, entries) <= FULL_SCALE,
{
    lemma_load_balance(layout, entries);
    lemma_normalized_bracket(layout, entries);
    let f = FULL_SCALE as nat;
    let d = excess_weight(layout, entries) + f;
    let n = normalized_weight(layout, entries);
    assert(fingers_weight(layout, entries) == d);
    assert(n <= f) by (nonlinear_arith)
        requires
            n * d <= d * f,
            d > 0,
    ;
    assert(f < n + 9) by (nonlinear_arith)
        requires
            d * f < (n + 9) * d,
            d > 0,
    ;
}

} // verus!

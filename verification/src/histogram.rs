//! Bars to draw, gathered by the field that they belong to.

use crate::float::Float64;
use crate::floats::{compute, computes_purely, float_result, FloatOp};
use crate::parser::same_text;
use vstd::prelude::*;
use vstd::utf8::encode_utf8;

verus! {

/// How many columns of a terminal a text takes, as the `unicode-width` crate
/// counts them.
pub uninterp spec fn display_width(text: Seq<char>) -> nat;

/// `UnicodeWidthStr::width`: the displayed width of a text in columns.
#[verifier::external_body]
fn text_width(text: &str) -> (width: usize)
    ensures
        width == display_width(text@),
{
    unicode_width::UnicodeWidthStr::width(text)
}

/// Whether the bytes `a` come before the bytes `b` in the order of a
/// dictionary: at the first place where the two differ `a` has the lesser
/// byte, or `a` ends there and `b` goes on.
pub open spec fn precedes(a: Seq<u8>, b: Seq<u8>) -> bool
    decreases a.len(),
{
    if b.len() == 0 {
        false
    } else if a.len() == 0 {
        true
    } else if a[0] != b[0] {
        a[0] < b[0]
    } else {
        precedes(a.drop_first(), b.drop_first())
    }
}

/// Of two runs of bytes one comes before the other, or they are the same.
pub proof fn lemma_precedes_is_total(a: Seq<u8>, b: Seq<u8>)
    ensures
        precedes(a, b) || a == b || precedes(b, a),
        !(precedes(a, b) && precedes(b, a)),
        !precedes(a, a),
    decreases a.len(),
{
    if a.len() > 0 && b.len() > 0 && a[0] == b[0] {
        lemma_precedes_is_total(a.drop_first(), b.drop_first());
        if a.drop_first() == b.drop_first() {
            assert(a =~= seq![a[0]] + a.drop_first());
            assert(b =~= seq![b[0]] + b.drop_first());
        }
    } else if a.len() == 0 && b.len() == 0 {
        assert(a =~= b);
    }
    if a.len() > 0 {
        lemma_precedes_is_total(a.drop_first(), a.drop_first());
    }
}

/// What comes before something that comes before a third comes before the
/// third.
pub proof fn lemma_precedes_is_transitive(a: Seq<u8>, b: Seq<u8>, c: Seq<u8>)
    requires
        precedes(a, b),
        precedes(b, c),
    ensures
        precedes(a, c),
    decreases a.len(),
{
    if a.len() > 0 && a[0] == b[0] && b[0] == c[0] {
        lemma_precedes_is_transitive(a.drop_first(), b.drop_first(), c.drop_first());
    }
}

/// Whether the bytes `a` come before the bytes `b` in the order of a
/// dictionary.
pub fn come_before(a: &[u8], b: &[u8]) -> (r: bool)
    ensures
        r == precedes(a@, b@),
{
    let mut i: usize = 0;
    assert(a@.skip(0) =~= a@);
    assert(b@.skip(0) =~= b@);
    loop
        invariant
            i <= a@.len(),
            i <= b@.len(),
            precedes(a@, b@) == precedes(a@.skip(i as int), b@.skip(i as int)),
        decreases a@.len() - i,
    {
        if i >= b.len() {
            return false;
        }
        if i >= a.len() {
            return true;
        }
        if a[i] != b[i] {
            return a[i] < b[i];
        }
        assert(a@.skip(i as int).drop_first() =~= a@.skip(i + 1));
        assert(b@.skip(i as int).drop_first() =~= b@.skip(i + 1));
        i = i + 1;
    }
}

/// One bar: what it stands for, and how much of it there is.
#[derive(Debug)]
pub struct Bar {
    pub label: String,
    pub value: Float64,
}

/// A bar as plain values.
pub struct BarView {
    pub label: Seq<char>,
    pub value: Float64,
}

impl View for Bar {
    type V = BarView;

    open spec fn view(&self) -> BarView {
        BarView { label: self.label@, value: self.value }
    }
}

/// What each bar is.
pub open spec fn bar_views(bars: Seq<Bar>) -> Seq<BarView> {
    Seq::new(bars.len(), |i: int| bars[i]@)
}

/// The bars of one field, in the order in which they came.
#[derive(Debug)]
pub struct Histogram {
    pub field: String,
    pub bars: Vec<Bar>,
}

/// A histogram as plain values.
pub struct HistogramView {
    pub field: Seq<char>,
    pub bars: Seq<BarView>,
}

impl View for Histogram {
    type V = HistogramView;

    open spec fn view(&self) -> HistogramView {
        HistogramView { field: self.field@, bars: bar_views(self.bars@) }
    }
}

/// The greater of two numbers; of a number and not-a-number, the number.
pub open spec fn greater_of(a: Float64, b: Float64) -> Float64 {
    if a.is_nan() {
        b
    } else if b.is_nan() {
        a
    } else if a.below(b) {
        b
    } else {
        a
    }
}

/// The greatest value among the first `upto` bars, `None` for no bars.
pub open spec fn greatest(bars: Seq<BarView>, upto: int) -> Option<Float64>
    decreases upto,
{
    if upto <= 0 {
        None
    } else {
        match greatest(bars, upto - 1) {
            None => Some(bars[upto - 1].value),
            Some(m) => Some(greater_of(bars[upto - 1].value, m)),
        }
    }
}

/// The sum of the values of the first `upto` bars, added from left to right
/// to zero with what `arithmetic` gives as a sum.
pub open spec fn total<A: Fn(FloatOp, Float64, Float64) -> Float64>(
    bars: Seq<BarView>,
    upto: int,
    arithmetic: &A,
) -> Float64
    decreases upto,
{
    if upto <= 0 {
        Float64(0)
    } else {
        float_result(arithmetic, FloatOp::Add, total(bars, upto - 1, arithmetic), bars[upto - 1].value)
    }
}

/// The greatest displayed width among the labels of the first `upto` bars,
/// `None` for no bars.
pub open spec fn widest_label(bars: Seq<BarView>, upto: int) -> Option<nat>
    decreases upto,
{
    if upto <= 0 {
        None
    } else {
        let width = display_width(bars[upto - 1].label);
        match widest_label(bars, upto - 1) {
            None => Some(width),
            Some(m) => Some(
                if width > m {
                    width
                } else {
                    m
                },
            ),
        }
    }
}

impl Histogram {
    /// How many bars there are.
    pub fn len(&self) -> (n: usize)
        ensures
            n == self@.bars.len(),
    {
        self.bars.len()
    }

    /// The bars, in the order in which they came.
    pub fn bars(&self) -> (bars: &Vec<Bar>)
        ensures
            bar_views(bars@) == self@.bars,
    {
        &self.bars
    }

    /// The greatest value among the bars, `None` where there is no bar.
    pub fn max(&self) -> (r: Option<Float64>)
        ensures
            r == greatest(self@.bars, self@.bars.len() as int),
    {
        let mut max: Option<Float64> = None;
        let mut i: usize = 0;
        while i < self.bars.len()
            invariant
                i <= self.bars@.len(),
                max == greatest(self@.bars, i as int),
            decreases self.bars@.len() - i,
        {
            let n = self.bars[i].value;
            max = match max {
                None => Some(n),
                Some(m) => Some(
                    if n.is_not_a_number() {
                        m
                    } else if m.is_not_a_number() {
                        n
                    } else if n.less_than(m) {
                        m
                    } else {
                        n
                    },
                ),
            };
            i = i + 1;
        }
        max
    }

    /// The sum of the values of the bars, added from left to right with what
    /// `arithmetic` gives as a sum.
    pub fn sum<A: Fn(FloatOp, Float64, Float64) -> Float64>(&self, arithmetic: &A) -> (r: Float64)
        requires
            computes_purely(arithmetic),
        ensures
            r == total(self@.bars, self@.bars.len() as int, arithmetic),
    {
        let mut sum = Float64::zero();
        let mut i: usize = 0;
        while i < self.bars.len()
            invariant
                computes_purely(arithmetic),
                i <= self.bars@.len(),
                sum == total(self@.bars, i as int, arithmetic),
            decreases self.bars@.len() - i,
        {
            sum = compute(arithmetic, FloatOp::Add, sum, self.bars[i].value);
            i = i + 1;
        }
        sum
    }

    /// The greatest displayed width among the labels of the bars, `None`
    /// where there is no bar.
    pub fn label_max_width(&self) -> (r: Option<usize>)
        ensures
            match widest_label(self@.bars, self@.bars.len() as int) {
                Some(width) => r == Some(width as usize),
                None => r is None,
            },
    {
        let mut widest: Option<usize> = None;
        let mut i: usize = 0;
        while i < self.bars.len()
            invariant
                i <= self.bars@.len(),
                match widest_label(self@.bars, i as int) {
                    Some(width) => widest == Some(width as usize) && width <= usize::MAX,
                    None => widest is None,
                },
            decreases self.bars@.len() - i,
        {
            let width = text_width(self.bars[i].label.as_str());
            widest = match widest {
                None => Some(width),
                Some(m) => Some(
                    if width > m {
                        width
                    } else {
                        m
                    },
                ),
            };
            i = i + 1;
        }
        widest
    }
}

/// The bars of every field, gathered by field, the fields in the order of a
/// dictionary.
#[derive(Debug)]
pub struct Histograms {
    histograms: Vec<Histogram>,
}

/// What each histogram is.
pub open spec fn histogram_views(histograms: Seq<Histogram>) -> Seq<HistogramView> {
    Seq::new(histograms.len(), |i: int| histograms[i]@)
}

/// Whether the histograms stand in the order of their fields, no field
/// twice.
pub open spec fn in_order(histograms: Seq<HistogramView>) -> bool {
    forall|i: int, j: int|
        0 <= i < j < histograms.len() ==> precedes(
            encode_utf8(#[trigger] histograms[i].field),
            encode_utf8(#[trigger] histograms[j].field),
        )
}

/// The bars that are held for a field: those of its histogram, and none
/// where the field has no histogram.
pub open spec fn bars_of(histograms: Seq<HistogramView>, field: Seq<char>) -> Seq<BarView> {
    if exists|i: int| 0 <= i < histograms.len() && #[trigger] histograms[i].field == field {
        let i = choose|i: int| 0 <= i < histograms.len() && #[trigger] histograms[i].field == field;
        histograms[i].bars
    } else {
        Seq::empty()
    }
}

impl View for Histograms {
    type V = Seq<HistogramView>;

    closed spec fn view(&self) -> Seq<HistogramView> {
        histogram_views(self.histograms@)
    }
}

/// Two different texts are different bytes.
proof fn lemma_fields_differ(a: Seq<char>, b: Seq<char>)
    requires
        encode_utf8(a) == encode_utf8(b),
    ensures
        a == b,
{
    vstd::utf8::encode_utf8_decode_utf8(a);
    vstd::utf8::encode_utf8_decode_utf8(b);
}

/// In histograms that stand in order, a field has one histogram at most.
pub proof fn lemma_one_histogram_per_field(histograms: Seq<HistogramView>, i: int, j: int)
    requires
        in_order(histograms),
        0 <= i < histograms.len(),
        0 <= j < histograms.len(),
        histograms[i].field == histograms[j].field,
    ensures
        i == j,
{
    lemma_precedes_is_total(encode_utf8(histograms[i].field), encode_utf8(histograms[j].field));
}

impl Histograms {
    /// Whether the histograms stand in the order of their fields, no field
    /// twice, and none is without a bar.
    pub open spec fn wf(&self) -> bool {
        in_order(self@) && forall|i: int| 0 <= i < self@.len() ==> (#[trigger] self@[i]).bars.len() > 0
    }

    /// No histogram yet.
    pub fn new() -> (r: Self)
        ensures
            r.wf(),
            r@.len() == 0,
    {
        Histograms { histograms: Vec::new() }
    }

    /// Adds a bar to the histogram of `field`, after the bars that it has;
    /// a field that has no histogram yet gets one, at its place among the
    /// others.
    pub fn add(&mut self, field: String, label: String, value: Float64)
        requires
            old(self).wf(),
        ensures
            final(self).wf(),
            forall|other: Seq<char>|
                #![trigger bars_of(final(self)@, other)]
                bars_of(final(self)@, other) == (if other == field@ {
                    bars_of(old(self)@, other).push(BarView { label: label@, value })
                } else {
                    bars_of(old(self)@, other)
                }),
    {
        let ghost before = self@;
        let ghost bar = BarView { label: label@, value };
        let mut i: usize = 0;
        while i < self.histograms.len() && come_before(
            self.histograms[i].field.as_str().as_bytes(),
            field.as_str().as_bytes(),
        )
            invariant
                self@ == before,
                i <= self.histograms@.len(),
                forall|j: int|
                    0 <= j < i ==> precedes(
                        encode_utf8((#[trigger] before[j]).field),
                        encode_utf8(field@),
                    ),
            decreases self.histograms@.len() - i,
        {
            i = i + 1;
        }
        if i < self.histograms.len() && same_text(
            self.histograms[i].field.as_str(),
            field.as_str(),
        ) {
            let mut histogram = self.histograms.remove(i);
            let ghost bars = bar_views(histogram.bars@);
            histogram.bars.push(Bar { label, value });
            assert(bar_views(histogram.bars@) =~= bars.push(bar));
            self.histograms.insert(i, histogram);
            proof {
                let after = self@;
                assert(after.len() == before.len());
                assert forall|j: int| 0 <= j < after.len() implies (#[trigger] after[j]).field
                    == before[j].field && after[j].bars == (if j == i {
                    before[j].bars.push(bar)
                } else {
                    before[j].bars
                }) by {}
                assert(in_order(after)) by {
                    assert forall|j: int, k: int| 0 <= j < k < after.len() implies precedes(
                        encode_utf8(#[trigger] after[j].field),
                        encode_utf8(#[trigger] after[k].field),
                    ) by {
                        assert(precedes(
                            encode_utf8(before[j].field),
                            encode_utf8(before[k].field),
                        ));
                    }
                }
                assert forall|other: Seq<char>| #![trigger bars_of(after, other)]
                    bars_of(after, other) == (if other == field@ {
                        bars_of(before, other).push(bar)
                    } else {
                        bars_of(before, other)
                    }) by {
                    lemma_bars_of_at(before, after, other);
                    if other == field@ {
                        lemma_bars_at(before, i as int);
                        lemma_bars_at(after, i as int);
                    }
                }
            }
        } else {
            let mut bars: Vec<Bar> = Vec::new();
            bars.push(Bar { label, value });
            assert(bar_views(bars@) =~= seq![bar]);
            let histogram = Histogram { field, bars };
            let ghost added = histogram@;
            self.histograms.insert(i, histogram);
            proof {
                let after = self@;
                assert(after =~= before.insert(i as int, added));
                if i < before.len() {
                    lemma_precedes_is_total(
                        encode_utf8(before[i as int].field),
                        encode_utf8(added.field),
                    );
                    if encode_utf8(before[i as int].field) == encode_utf8(added.field) {
                        lemma_fields_differ(before[i as int].field, added.field);
                    }
                }
                assert(in_order(after)) by {
                    assert forall|j: int, k: int| 0 <= j < k < after.len() implies precedes(
                        encode_utf8(#[trigger] after[j].field),
                        encode_utf8(#[trigger] after[k].field),
                    ) by {
                        if k < i {
                            assert(precedes(
                                encode_utf8(before[j].field),
                                encode_utf8(before[k].field),
                            ));
                        } else if k == i {
                            assert(precedes(encode_utf8(before[j].field), encode_utf8(field@)));
                        } else if j == i {
                            if k - 1 > i {
                                assert(precedes(
                                    encode_utf8(before[i as int].field),
                                    encode_utf8(before[k - 1].field),
                                ));
                                lemma_precedes_is_transitive(
                                    encode_utf8(added.field),
                                    encode_utf8(before[i as int].field),
                                    encode_utf8(before[k - 1].field),
                                );
                            }
                        } else if j < i {
                            assert(precedes(
                                encode_utf8(before[j].field),
                                encode_utf8(before[k - 1].field),
                            ));
                        } else {
                            assert(precedes(
                                encode_utf8(before[j - 1].field),
                                encode_utf8(before[k - 1].field),
                            ));
                        }
                    }
                }
                assert forall|j: int| 0 <= j < before.len() implies (#[trigger] before[j]).field
                    != field@ by {
                    if before[j].field == field@ {
                        if j < i {
                            lemma_precedes_is_total(encode_utf8(field@), encode_utf8(field@));
                        } else if j > i {
                            assert(precedes(
                                encode_utf8(before[i as int].field),
                                encode_utf8(before[j].field),
                            ));
                            lemma_precedes_is_total(
                                encode_utf8(before[i as int].field),
                                encode_utf8(field@),
                            );
                        }
                    }
                }
                assert forall|other: Seq<char>| #![trigger bars_of(after, other)]
                    bars_of(after, other) == (if other == field@ {
                        bars_of(before, other).push(bar)
                    } else {
                        bars_of(before, other)
                    }) by {
                    if other == field@ {
                        assert(after[i as int].field == other);
                        lemma_bars_at(after, i as int);
                        assert(bars_of(before, other) =~= Seq::<BarView>::empty());
                        assert(seq![bar] =~= Seq::<BarView>::empty().push(bar));
                    } else if exists|j: int|
                        0 <= j < before.len() && #[trigger] before[j].field == other {
                        let j = choose|j: int|
                            0 <= j < before.len() && #[trigger] before[j].field == other;
                        lemma_bars_at(before, j);
                        let moved = if j < i {
                            j
                        } else {
                            j + 1
                        };
                        assert(after[moved] == before[j]);
                        lemma_bars_at(after, moved);
                    } else {
                        assert forall|j: int| 0 <= j < after.len() implies (#[trigger] after[j]).field
                            != other by {
                            if j < i {
                                assert(after[j] == before[j]);
                            } else if j > i {
                                assert(after[j] == before[j - 1]);
                            }
                        }
                    }
                }
            }
        }
    }

    /// The histograms, in the order of their fields.
    pub fn iter(&self) -> (histograms: &Vec<Histogram>)
        ensures
            histogram_views(histograms@) == self@,
    {
        &self.histograms
    }
}

/// The bars of a field are those of the histogram that has the field.
proof fn lemma_bars_at(histograms: Seq<HistogramView>, i: int)
    requires
        in_order(histograms),
        0 <= i < histograms.len(),
    ensures
        bars_of(histograms, histograms[i].field) == histograms[i].bars,
{
    let field = histograms[i].field;
    let chosen = choose|j: int| 0 <= j < histograms.len() && #[trigger] histograms[j].field == field;
    lemma_one_histogram_per_field(histograms, i, chosen);
}

/// Histograms with the same fields at the same places hold, for a field
/// that is at none of the places where their bars differ, the same bars.
proof fn lemma_bars_of_at(before: Seq<HistogramView>, after: Seq<HistogramView>, field: Seq<char>)
    requires
        in_order(before),
        in_order(after),
        before.len() == after.len(),
        forall|j: int| 0 <= j < after.len() ==> (#[trigger] after[j]).field == before[j].field,
    ensures
        forall|j: int|
            0 <= j < after.len() && (#[trigger] after[j]).field == field ==> bars_of(after, field)
                == after[j].bars && bars_of(before, field) == before[j].bars,
        (forall|j: int| 0 <= j < after.len() ==> (#[trigger] after[j]).field != field)
            ==> bars_of(after, field) == bars_of(before, field),
{
    assert forall|j: int| 0 <= j < after.len() && (#[trigger] after[j]).field == field implies bars_of(
        after,
        field,
    ) == after[j].bars && bars_of(before, field) == before[j].bars by {
        lemma_bars_at(after, j);
        lemma_bars_at(before, j);
    }
    if forall|j: int| 0 <= j < after.len() ==> (#[trigger] after[j]).field != field {
        assert(!exists|j: int| 0 <= j < before.len() && #[trigger] before[j].field == field) by {
            if exists|j: int| 0 <= j < before.len() && #[trigger] before[j].field == field {
                let j = choose|j: int| 0 <= j < before.len() && #[trigger] before[j].field == field;
                assert(after[j].field == field);
            }
        }
    }
}

/// The text of a bar: `full` times the character that fills a column, then
/// the one for a column filled in part, if there is such a column.
pub open spec fn bar_text(filled: Seq<char>, full: nat, partial: Seq<char>) -> Seq<char>
    decreases full,
{
    if full == 0 {
        partial
    } else {
        filled + bar_text(filled, (full - 1) as nat, partial)
    }
}

/// Draws a bar: `full` times `filled`, then `partial`.
pub fn compose_bar(filled: &str, full: usize, partial: &str) -> (bar: String)
    ensures
        bar@ == bar_text(filled@, full as nat, partial@),
    decreases full,
{
    if full == 0 {
        partial.to_owned()
    } else {
        let rest = compose_bar(filled, full - 1, partial);
        filled.to_owned().concat(rest.as_str())
    }
}

} // verus!

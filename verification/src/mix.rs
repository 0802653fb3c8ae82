//! Mix weights: the fraction of each track's sound that reaches the output.

use crate::keyed::keys;
use crate::keyed::named;
use crate::keyed::names_of;
use crate::text::Decimal;
use vstd::prelude::*;

verus! {

/// A mix weight: the fraction `num / den` of a track's sound that reaches
/// the output.
#[derive(Debug, Clone, Copy, PartialEq, Eq, Structural)]
pub struct Weight {
    pub num: u64,
    pub den: u128,
}

impl View for Weight {
    type V = Weight;

    open spec fn view(&self) -> Weight {
        *self
    }
}

/// The sum of the numerators of a list of weights.
pub open spec fn weight_sum(mix: Seq<(String, Weight)>) -> nat
    decreases mix.len(),
{
    if mix.len() == 0 {
        0
    } else {
        weight_sum(mix.drop_last()) + mix.last().1.num as nat
    }
}

/// The sum of a list of raw weights, in millionths.
pub open spec fn raw_sum(mix: Seq<(Seq<char>, Decimal)>) -> nat
    decreases mix.len(),
{
    if mix.len() == 0 {
        0
    } else {
        raw_sum(mix.drop_last()) + mix.last().1.micros as nat
    }
}

/// Whether `mix` is `raw` rescaled to sum to one: the same names in the same
/// order, each weight the raw weight over the sum of all raw weights.
pub open spec fn rescaled(raw: Seq<(Seq<char>, Decimal)>, mix: Seq<(String, Weight)>) -> bool {
    &&& mix.len() == raw.len()
    &&& forall|i: int|
        0 <= i < raw.len() ==> {
            &&& (#[trigger] mix[i]).0@ == raw[i].0
            &&& mix[i].1 == Weight { num: raw[i].1.micros, den: raw_sum(raw) as u128 }
        }
}

/// Whether the weights of a mix sum to one: all have the same, positive
/// denominator, and the numerators sum to it.
pub open spec fn sums_to_one(mix: Seq<(String, Weight)>) -> bool {
    &&& mix.len() > 0
    &&& mix[0].1.den > 0
    &&& forall|i: int| 0 <= i < mix.len() ==> (#[trigger] mix[i]).1.den == mix[0].1.den
    &&& weight_sum(mix) == mix[0].1.den
}

/// The sum of raw weights fits 128 bits, however many there are.
pub proof fn lemma_raw_sum_bound(raw: Seq<(Seq<char>, Decimal)>)
    ensures
        raw_sum(raw) <= raw.len() * 0xffff_ffff_ffff_ffff,
    decreases raw.len(),
{
    if raw.len() > 0 {
        lemma_raw_sum_bound(raw.drop_last());
        assert((raw.len() - 1) * 0xffff_ffff_ffff_ffff + 0xffff_ffff_ffff_ffff == raw.len()
            * 0xffff_ffff_ffff_ffff) by (nonlinear_arith);
    }
}

/// Rescales raw mix weights so that they sum to one: each becomes the
/// fraction of its raw weight over the sum of all.
pub fn rescale_mix(raw: &Vec<(String, Decimal)>) -> (mix: Vec<(String, Weight)>)
    ensures
        rescaled(named(raw@), mix@),
{
    let ghost model = named(raw@);
    let mut total: u128 = 0;
    let mut i: usize = 0;
    while i < raw.len()
        invariant
            i <= raw.len(),
            model == named(raw@),
            total == raw_sum(model.take(i as int)),
        decreases raw.len() - i,
    {
        proof {
            assert(model.take(i + 1).drop_last() =~= model.take(i as int));
            assert(model.take(i + 1).last().1 == raw@[i as int].1);
            lemma_raw_sum_bound(model.take(i + 1));
            assert((i + 1) * 0xffff_ffff_ffff_ffff <= 0xffff_ffff_ffff_ffff * 0xffff_ffff_ffff_ffff)
                by (nonlinear_arith)
                requires
                    i + 1 <= 0xffff_ffff_ffff_ffff,
            ;
        }
        total = total + raw[i].1.micros as u128;
        i += 1;
    }
    assert(model.take(i as int) =~= model);
    let mut mix: Vec<(String, Weight)> = Vec::new();
    let mut k: usize = 0;
    while k < raw.len()
        invariant
            k <= raw.len(),
            model == named(raw@),
            total == raw_sum(model),
            mix@.len() == k,
            forall|j: int|
                0 <= j < k ==> {
                    &&& (#[trigger] mix@[j]).0@ == model[j].0
                    &&& mix@[j].1 == Weight { num: model[j].1.micros, den: total }
                },
        decreases raw.len() - k,
    {
        mix.push((raw[k].0.clone(), Weight { num: raw[k].1.micros, den: total }));
        k += 1;
    }
    mix
}

/// The numerators of rescaled weights sum to the sum of the raw weights.
pub proof fn lemma_rescaled_sum(raw: Seq<(Seq<char>, Decimal)>, mix: Seq<(String, Weight)>)
    requires
        mix.len() == raw.len(),
        forall|i: int| 0 <= i < raw.len() ==> (#[trigger] mix[i]).1.num == raw[i].1.micros,
    ensures
        weight_sum(mix) == raw_sum(raw),
    decreases raw.len(),
{
    if raw.len() > 0 {
        assert forall|i: int| 0 <= i < raw.len() - 1 implies (#[trigger] mix.drop_last()[i]).1.num
            == raw.drop_last()[i].1.micros by {
            assert(mix.drop_last()[i] == mix[i]);
        }
        lemma_rescaled_sum(raw.drop_last(), mix.drop_last());
        assert(mix.last().1.num == raw.last().1.micros) by {
            assert(mix[raw.len() - 1].1.num == raw[raw.len() - 1].1.micros);
        }
    }
}

/// Rescaled weights are fractions of their sum.
pub proof fn lemma_rescaled_normalised(raw: Seq<(Seq<char>, Decimal)>, mix: Seq<(String, Weight)>)
    requires
        rescaled(raw, mix),
        raw.len() <= usize::MAX,
    ensures
        normalised(mix),
        weight_sum(mix) == raw_sum(raw),
        names_of(mix) == keys(raw),
{
    lemma_raw_sum_bound(raw);
    assert(raw.len() * 0xffff_ffff_ffff_ffff <= 0xffff_ffff_ffff_ffff * 0xffff_ffff_ffff_ffff)
        by (nonlinear_arith)
        requires
            raw.len() <= 0xffff_ffff_ffff_ffff,
    ;
    assert forall|i: int| 0 <= i < raw.len() implies (#[trigger] mix[i]).1.num
        == raw[i].1.micros && mix[i].1.den == raw_sum(raw) && mix[i].0@ == raw[i].0 by {}
    lemma_rescaled_sum(raw, mix);
    assert(names_of(mix) =~= keys(raw));
}

/// After rescaling, the mix weights sum to one: whatever the raw weights
/// were, as long as they are not all zero, the rescaled weights share one
/// denominator and their numerators add up to it.
pub proof fn lemma_mix_sums_to_one(raw: Seq<(Seq<char>, Decimal)>, mix: Seq<(String, Weight)>)
    requires
        rescaled(raw, mix),
        raw_sum(raw) > 0,
        raw.len() <= usize::MAX,
    ensures
        sums_to_one(mix),
{
    lemma_rescaled_normalised(raw, mix);
}

/// Whether the weights of a mix are fractions of their sum: every
/// denominator is the sum of all numerators.
pub open spec fn normalised(mix: Seq<(String, Weight)>) -> bool {
    forall|i: int| 0 <= i < mix.len() ==> (#[trigger] mix[i]).1.den == weight_sum(mix)
}

/// The mix of a well-formed pipeline sums to one, unless every weight is
/// zero: fractions of a positive sum add up to the whole.
pub proof fn lemma_normalised_sums_to_one(mix: Seq<(String, Weight)>)
    requires
        normalised(mix),
        weight_sum(mix) > 0,
    ensures
        sums_to_one(mix),
{
    assert(mix[0].1.den == weight_sum(mix));
    assert(weight_sum(mix) <= u128::MAX);
}

} // verus!

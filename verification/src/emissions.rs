//! The deterministic emission calculation.
//!
//! For every transport chain element the matching operation category is
//! looked up by exact id, the leading decimal token of its well-to-wheel
//! intensity is read as the emission factor, and the element's emissions are
//! `mass x factor x distance.actual` for a transport leg or `mass x factor`
//! for a hub visit. The elements are folded in their given order into an
//! accumulator that starts at the caller's initial value.

use vstd::prelude::*;
use crate::amount::{
    Amount,
    MICROS_PER_UNIT,
    decimal_value,
    find_char,
    lemma_mul_fixed_nonneg,
    mul_fixed,
    char_pos,
};
use crate::errors::PipelineError;
use crate::hoc_toc_data::{HocData, TocData};
use crate::product_footprint::{LegReference, TCE};

verus! {

/// The leading whitespace-delimited token of an intensity string.
pub open spec fn first_token(s: Seq<char>) -> Seq<char> {
    s.take(char_pos(s, ' '))
}

/// The first record of the table whose id matches exactly, if any.
pub open spec fn toc_lookup(tocs: Seq<TocData>, id: Seq<char>) -> Option<TocData>
    decreases tocs.len(),
{
    if tocs.len() == 0 {
        None
    } else if tocs[0].tocId@ == id {
        Some(tocs[0])
    } else {
        toc_lookup(tocs.drop_first(), id)
    }
}

/// The first record of the table whose id matches exactly, if any.
pub open spec fn hoc_lookup(hocs: Seq<HocData>, id: Seq<char>) -> Option<HocData>
    decreases hocs.len(),
{
    if hocs.len() == 0 {
        None
    } else if hocs[0].hocId@ == id {
        Some(hocs[0])
    } else {
        hoc_lookup(hocs.drop_first(), id)
    }
}

/// The emissions of one chain element, in millionths, before the
/// representable-range check; or the error the element raises.
pub open spec fn tce_emission(tce: TCE, tocs: Seq<TocData>, hocs: Seq<HocData>) -> Result<
    int,
    PipelineError,
> {
    match tce.leg {
        LegReference::Transport(id) => match toc_lookup(tocs, id@) {
            Option::None => Err(PipelineError::LookupError),
            Option::Some(t) => match decimal_value(first_token(t.co2eIntensityWTW@)) {
                Option::None => Err(PipelineError::FactorParseError),
                Option::Some(f) => match tce.distance {
                    Option::None => Err(PipelineError::MissingDistanceError),
                    Option::Some(d) => Ok(
                        mul_fixed(mul_fixed(tce.mass.as_int(), f), d.actual.as_int()),
                    ),
                },
            },
        },
        LegReference::Hub(id) => match hoc_lookup(hocs, id@) {
            Option::None => Err(PipelineError::LookupError),
            Option::Some(h) => match decimal_value(first_token(h.co2eIntensityWTW@)) {
                Option::None => Err(PipelineError::FactorParseError),
                Option::Some(f) => Ok(mul_fixed(tce.mass.as_int(), f)),
            },
        },
    }
}

/// The whole calculation: the chain elements folded in order onto `init`,
/// stopping at the first element that raises an error or leaves the
/// representable range.
pub open spec fn emissions_total(
    tces: Seq<TCE>,
    tocs: Seq<TocData>,
    hocs: Seq<HocData>,
    init: int,
) -> Result<int, PipelineError>
    decreases tces.len(),
{
    if tces.len() == 0 {
        Ok(init)
    } else {
        match tce_emission(tces[0], tocs, hocs) {
            Err(e) => Err(e),
            Ok(em) => if em > u64::MAX || init + em > u64::MAX {
                Err(PipelineError::ValueOverflowError)
            } else {
                emissions_total(tces.drop_first(), tocs, hocs, init + em)
            },
        }
    }
}

fn find_toc_index(toc_data: &Vec<TocData>, toc_id: &String) -> (r: Option<usize>)
    ensures
        match r {
            Some(i) => i < toc_data@.len() && toc_lookup(toc_data@, toc_id@) == Some(
                toc_data@[i as int],
            ),
            None => toc_lookup(toc_data@, toc_id@) is None,
        },
{
    let n = toc_data.len();
    let mut i: usize = 0;
    proof {
        assert(toc_data@.skip(0) =~= toc_data@);
    }
    while i < n
        invariant
            0 <= i <= n,
            n == toc_data@.len(),
            toc_lookup(toc_data@, toc_id@) == toc_lookup(toc_data@.skip(i as int), toc_id@),
        decreases n - i,
    {
        proof {
            assert(toc_data@.skip(i as int)[0] == toc_data@[i as int]);
            assert(toc_data@.skip(i as int).drop_first() =~= toc_data@.skip(i + 1));
        }
        if toc_data[i].tocId == *toc_id {
            return Some(i);
        }
        i = i + 1;
    }
    None
}

fn find_hoc_index(hoc_data: &Vec<HocData>, hoc_id: &String) -> (r: Option<usize>)
    ensures
        match r {
            Some(i) => i < hoc_data@.len() && hoc_lookup(hoc_data@, hoc_id@) == Some(
                hoc_data@[i as int],
            ),
            None => hoc_lookup(hoc_data@, hoc_id@) is None,
        },
{
    let n = hoc_data.len();
    let mut i: usize = 0;
    proof {
        assert(hoc_data@.skip(0) =~= hoc_data@);
    }
    while i < n
        invariant
            0 <= i <= n,
            n == hoc_data@.len(),
            hoc_lookup(hoc_data@, hoc_id@) == hoc_lookup(hoc_data@.skip(i as int), hoc_id@),
        decreases n - i,
    {
        proof {
            assert(hoc_data@.skip(i as int)[0] == hoc_data@[i as int]);
            assert(hoc_data@.skip(i as int).drop_first() =~= hoc_data@.skip(i + 1));
        }
        if hoc_data[i].hocId == *hoc_id {
            return Some(i);
        }
        i = i + 1;
    }
    None
}

/// Reads the emission factor off the front of an intensity string: its
/// leading token as a decimal quantity. A token that is no valid decimal, or
/// one too large to represent, is a malformed factor.
pub fn parse_factor(intensity: &String) -> (r: Result<Amount, PipelineError>)
    ensures
        match decimal_value(first_token(intensity@)) {
            Option::Some(v) => r == Ok::<Amount, PipelineError>(Amount { micros: v as u64 }),
            Option::None => r == Err::<Amount, PipelineError>(PipelineError::FactorParseError),
        },
{
    let s = intensity.as_str();
    let j = find_char(s, ' ');
    let token = s.substring_char(0, j);
    proof {
        assert(token@ =~= first_token(intensity@));
    }
    match Amount::parse_decimal(token) {
        Some(a) => Ok(a),
        None => Err(PipelineError::FactorParseError),
    }
}

/// The emission factor of the transport operation category `toc_id`:
/// the leading decimal of its well-to-wheel intensity.
pub fn emission_factor_toc(toc_data: &Vec<TocData>, toc_id: &String) -> (r: Result<
    Amount,
    PipelineError,
>)
    ensures
        match toc_lookup(toc_data@, toc_id@) {
            Option::None => r == Err::<Amount, PipelineError>(PipelineError::LookupError),
            Option::Some(t) => match decimal_value(first_token(t.co2eIntensityWTW@)) {
                Option::Some(v) => r == Ok::<Amount, PipelineError>(Amount { micros: v as u64 }),
                Option::None => r == Err::<Amount, PipelineError>(PipelineError::FactorParseError),
            },
        },
{
    match find_toc_index(toc_data, toc_id) {
        Some(i) => parse_factor(&toc_data[i].co2eIntensityWTW),
        None => Err(PipelineError::LookupError),
    }
}

/// The emission factor of the hub operation category `hoc_id`.
pub fn emission_factor_hoc(hoc_data: &Vec<HocData>, hoc_id: &String) -> (r: Result<
    Amount,
    PipelineError,
>)
    ensures
        match hoc_lookup(hoc_data@, hoc_id@) {
            Option::None => r == Err::<Amount, PipelineError>(PipelineError::LookupError),
            Option::Some(h) => match decimal_value(first_token(h.co2eIntensityWTW@)) {
                Option::Some(v) => r == Ok::<Amount, PipelineError>(Amount { micros: v as u64 }),
                Option::None => r == Err::<Amount, PipelineError>(PipelineError::FactorParseError),
            },
        },
{
    match find_hoc_index(hoc_data, hoc_id) {
        Some(i) => parse_factor(&hoc_data[i].co2eIntensityWTW),
        None => Err(PipelineError::LookupError),
    }
}

/// Changing the initial accumulator shifts a successful calculation's
/// result by exactly that much: the chain's own contribution is fixed.
pub proof fn lemma_emissions_shift(
    tces: Seq<TCE>,
    tocs: Seq<TocData>,
    hocs: Seq<HocData>,
    x: int,
    y: int,
    tx: int,
    ty: int,
)
    requires
        emissions_total(tces, tocs, hocs, x) == Ok::<int, PipelineError>(tx),
        emissions_total(tces, tocs, hocs, y) == Ok::<int, PipelineError>(ty),
    ensures
        tx - x == ty - y,
    decreases tces.len(),
{
    if tces.len() > 0 {
        match tce_emission(tces[0], tocs, hocs) {
            Ok(em) => {
                lemma_emissions_shift(tces.drop_first(), tocs, hocs, x + em, y + em, tx, ty);
            },
            Err(_) => {},
        }
    }
}

/// An element's emissions are never negative: every factor, mass and
/// distance is a non-negative quantity.
pub proof fn lemma_tce_emission_nonneg(tce: TCE, tocs: Seq<TocData>, hocs: Seq<HocData>)
    ensures
        tce_emission(tce, tocs, hocs) matches Ok(em) ==> em >= 0,
{
    match tce.leg {
        LegReference::Transport(id) => {
            if let Option::Some(t) = toc_lookup(tocs, id@) {
                if let Option::Some(f) = decimal_value(first_token(t.co2eIntensityWTW@)) {
                    if let Option::Some(d) = tce.distance {
                        lemma_mul_fixed_nonneg(tce.mass.as_int(), f);
                        lemma_mul_fixed_nonneg(
                            mul_fixed(tce.mass.as_int(), f),
                            d.actual.as_int(),
                        );
                    }
                }
            }
        },
        LegReference::Hub(id) => {
            if let Option::Some(h) = hoc_lookup(hocs, id@) {
                if let Option::Some(f) = decimal_value(first_token(h.co2eIntensityWTW@)) {
                    lemma_mul_fixed_nonneg(tce.mass.as_int(), f);
                }
            }
        },
    }
}

proof fn lemma_mul_div_gt(q: int, d: int, m: int)
    requires
        1 <= d,
        0 <= m,
        q > m / d,
    ensures
        q * d > m,
{
    vstd::arithmetic::div_mod::lemma_fundamental_div_mod(m, d);
    assert(q * d >= (m / d + 1) * d) by (nonlinear_arith)
        requires
            q >= m / d + 1,
            d >= 1,
    ;
    assert((m / d + 1) * d == d * (m / d) + d) by (nonlinear_arith);
    assert(m % d < d);
}

/// Emissions of one transport leg: mass times factor times actual distance,
/// truncated to millionths at each step.
fn leg_emission(mass: Amount, factor: Amount, dist: Amount) -> (r: Result<Amount, PipelineError>)
    ensures
        ({
            let em = mul_fixed(mul_fixed(mass.as_int(), factor.as_int()), dist.as_int());
            &&& em <= u64::MAX ==> r == Ok::<Amount, PipelineError>(Amount { micros: em as u64 })
            &&& em > u64::MAX ==> r == Err::<Amount, PipelineError>(
                PipelineError::ValueOverflowError,
            )
        }),
{
    let ghost inner = mul_fixed(mass.as_int(), factor.as_int());
    let ghost em = mul_fixed(inner, dist.as_int());
    let m = mass.micros as u128;
    let f = factor.micros as u128;
    let d = dist.micros as u128;
    proof {
        assert(m * f <= u64::MAX * u64::MAX) by (nonlinear_arith)
            requires
                0 <= m <= u64::MAX,
                0 <= f <= u64::MAX,
        ;
        assert(u64::MAX * u64::MAX < u128::MAX);
    }
    let q1: u128 = (m * f) / (MICROS_PER_UNIT as u128);
    proof {
        assert(q1 == inner);
        vstd::arithmetic::div_mod::lemma_div_is_ordered(0, m as int * f as int, MICROS_PER_UNIT as int);
    }
    if d == 0 {
        proof {
            assert(inner * 0 == 0) by (nonlinear_arith);
        }
        return Ok(Amount { micros: 0 });
    }
    let lim: u128 = ((u64::MAX as u128) + 1) * (MICROS_PER_UNIT as u128);
    if q1 > (lim - 1) / d {
        proof {
            lemma_mul_div_gt(q1 as int, d as int, lim as int - 1);
            assert(inner * d as int == q1 as int * d as int);
            vstd::arithmetic::div_mod::lemma_div_is_ordered(
                lim as int,
                inner * d as int,
                MICROS_PER_UNIT as int,
            );
            vstd::arithmetic::div_mod::lemma_div_by_multiple(
                u64::MAX as int + 1,
                MICROS_PER_UNIT as int,
            );
            assert(em > u64::MAX);
        }
        Err(PipelineError::ValueOverflowError)
    } else {
        proof {
            vstd::arithmetic::div_mod::lemma_fundamental_div_mod(lim as int - 1, d as int);
            assert(q1 as int * d as int <= ((lim as int - 1) / d as int) * d as int)
                by (nonlinear_arith)
                requires
                    q1 as int <= (lim as int - 1) / d as int,
                    d as int >= 1,
            ;
            assert(((lim as int - 1) / d as int) * d as int <= lim as int - 1) by (nonlinear_arith)
                requires
                    d as int >= 1,
                    lim as int - 1 >= 0,
                    (lim as int - 1) == d as int * ((lim as int - 1) / d as int) + (lim as int - 1)
                        % d as int,
                    (lim as int - 1) % d as int >= 0,
            ;
        }
        let p: u128 = q1 * d;
        let em_wide: u128 = p / (MICROS_PER_UNIT as u128);
        proof {
            assert(em_wide == em);
            vstd::arithmetic::div_mod::lemma_div_is_ordered(
                p as int,
                lim as int - 1,
                MICROS_PER_UNIT as int,
            );
            vstd::arithmetic::div_mod::lemma_fundamental_div_mod_converse(
                lim as int - 1,
                MICROS_PER_UNIT as int,
                u64::MAX as int,
                MICROS_PER_UNIT as int - 1,
            );
            assert(em <= u64::MAX);
        }
        Ok(Amount { micros: em_wide as u64 })
    }
}

/// The emissions of one chain element, or the error it raises; an element
/// whose emissions leave the representable range raises the overflow error.
pub fn tce_emissions(tce: &TCE, toc_data: &Vec<TocData>, hoc_data: &Vec<HocData>) -> (r: Result<
    Amount,
    PipelineError,
>)
    ensures
        match tce_emission(*tce, toc_data@, hoc_data@) {
            Ok(em) => if em <= u64::MAX {
                r == Ok::<Amount, PipelineError>(Amount { micros: em as u64 })
            } else {
                r == Err::<Amount, PipelineError>(PipelineError::ValueOverflowError)
            },
            Err(e) => r == Err::<Amount, PipelineError>(e),
        },
{
    match &tce.leg {
        LegReference::Transport(id) => {
            let factor = match emission_factor_toc(toc_data, id) {
                Ok(a) => a,
                Err(e) => {
                    return Err(e);
                },
            };
            let dist = match &tce.distance {
                Some(d) => d.actual,
                None => {
                    return Err(PipelineError::MissingDistanceError);
                },
            };
            leg_emission(tce.mass, factor, dist)
        },
        LegReference::Hub(id) => {
            let factor = match emission_factor_hoc(hoc_data, id) {
                Ok(a) => a,
                Err(e) => {
                    return Err(e);
                },
            };
            match tce.mass.checked_mul(factor) {
                Some(a) => Ok(a),
                None => Err(PipelineError::ValueOverflowError),
            }
        },
    }
}

/// The whole emission calculation of a footprint's chain, folded in the
/// chain's given order onto `init`.
///
/// The contract equates the result with [`emissions_total`], a function of
/// the inputs alone; independent re-executions over the same document
/// therefore return bit-identical values, which lets any party re-verify
/// the computation.
pub fn calculate_emissions(
    tces: &Vec<TCE>,
    toc_data: &Vec<TocData>,
    hoc_data: &Vec<HocData>,
    init: Amount,
) -> (r: Result<Amount, PipelineError>)
    ensures
        match r {
            Ok(a) => emissions_total(tces@, toc_data@, hoc_data@, init.as_int()) == Ok::<
                int,
                PipelineError,
            >(a.as_int()),
            Err(e) => emissions_total(tces@, toc_data@, hoc_data@, init.as_int()) == Err::<
                int,
                PipelineError,
            >(e),
        },
{
    let n = tces.len();
    let mut acc = init;
    let mut i: usize = 0;
    proof {
        assert(tces@.skip(0) =~= tces@);
    }
    while i < n
        invariant
            0 <= i <= n,
            n == tces@.len(),
            emissions_total(tces@, toc_data@, hoc_data@, init.as_int()) == emissions_total(
                tces@.skip(i as int),
                toc_data@,
                hoc_data@,
                acc.as_int(),
            ),
        decreases n - i,
    {
        proof {
            assert(tces@.skip(i as int)[0] == tces@[i as int]);
            assert(tces@.skip(i as int).drop_first() =~= tces@.skip(i + 1));
            lemma_tce_emission_nonneg(tces@[i as int], toc_data@, hoc_data@);
        }
        let em = match tce_emissions(&tces[i], toc_data, hoc_data) {
            Ok(a) => a,
            Err(e) => {
                return Err(e);
            },
        };
        acc = match acc.checked_add(em) {
            Some(a) => a,
            None => {
                return Err(PipelineError::ValueOverflowError);
            },
        };
        i = i + 1;
    }
    proof {
        assert(tces@.skip(n as int) =~= Seq::<TCE>::empty());
    }
    Ok(acc)
}

} // verus!

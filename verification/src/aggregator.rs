use vstd::prelude::*;
use crate::{CollectorError, PricePoint, PriceSource};

verus! {

/// The combined price when both sources answered: the arithmetic mean of the
/// two prices (truncated to the 1e-8 grid), stamped with the combination time.
pub open spec fn mean_sample(p: PricePoint, s: PricePoint, now_secs: int) -> PricePoint {
    PricePoint {
        timestamp_secs: now_secs as i64,
        price_e8: ((p.price_e8 + s.price_e8) / 2) as u64,
        source: PriceSource::Aggregated,
    }
}

/// The availability-favoring combination policy over the two fetch outcomes:
/// - no secondary source configured: the primary's outcome, unchanged;
/// - both succeed: the mean sample;
/// - exactly one succeeds: that sample, verbatim;
/// - both fail: the primary's error.
pub open spec fn spec_combine(
    primary: Result<PricePoint, CollectorError>,
    secondary: Option<Result<PricePoint, CollectorError>>,
    now_secs: int,
) -> Result<PricePoint, CollectorError> {
    match secondary {
        None => primary,
        Some(sec) => match (primary, sec) {
            (Ok(p), Ok(s)) => Ok(mean_sample(p, s, now_secs)),
            (Err(_), Ok(s)) => Ok(s),
            (Ok(p), Err(_)) => Ok(p),
            (Err(e), Err(_)) => Err(e),
        },
    }
}

/// Combines the outcomes of querying the primary and, when configured, the
/// secondary collector, exactly as `spec_combine` says. Any one live source is
/// enough to produce an answer; only the primary's error ever propagates.
pub fn combine_fetches(
    primary: Result<PricePoint, CollectorError>,
    secondary: Option<Result<PricePoint, CollectorError>>,
    now_secs: i64,
) -> (r: Result<PricePoint, CollectorError>)
    requires
        primary matches Ok(p) ==> p.valid(),
        secondary matches Some(s) ==> (s matches Ok(sp) ==> sp.valid()),
    ensures
        r == spec_combine(primary, secondary, now_secs as int),
        r matches Ok(pp) ==> pp.valid(),
{
    match secondary {
        None => primary,
        Some(sec) => match (primary, sec) {
            (Ok(p), Ok(s)) => {
                let sum: u128 = p.price_e8 as u128 + s.price_e8 as u128;
                let mean: u64 = (sum / 2) as u64;
                Ok(PricePoint {
                    timestamp_secs: now_secs,
                    price_e8: mean,
                    source: PriceSource::Aggregated,
                })
            },
            (Err(_), Ok(s)) => Ok(s),
            (Ok(p), Err(_)) => Ok(p),
            (Err(e), Err(_)) => Err(e),
        },
    }
}

/// Fallback law: with a secondary configured, a failed primary and a live
/// secondary yield the secondary's sample unchanged, and two failures
/// propagate the primary's error unchanged.
pub proof fn lemma_fallback(
    e: CollectorError,
    sec: Result<PricePoint, CollectorError>,
    now_secs: int,
)
    ensures
        sec matches Ok(s) ==> spec_combine(Err(e), Some(sec), now_secs) == Ok::<
            PricePoint,
            CollectorError,
        >(s),
        sec matches Err(_) ==> spec_combine(Err(e), Some(sec), now_secs) == Err::<
            PricePoint,
            CollectorError,
        >(e),
{
}

} // verus!

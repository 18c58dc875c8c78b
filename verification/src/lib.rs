#![verifier::loop_isolation(false)]
pub mod auth;
pub mod config;
pub mod entitlement;
pub mod error;
pub mod export;
pub mod json;
pub mod limiter;
pub mod pagination;
pub mod records;
pub mod schema;
pub mod search;

use vstd::prelude::*;

verus! {

/// Ceiling division: the number of pages of size `size` needed to hold
/// `count` items.
pub open spec fn spec_div_ceil(count: nat, size: nat) -> nat
    recommends
        size > 0,
{
    ((count + size - 1) / size as int) as nat
}

/// Ceiling division over machine integers.
pub fn div_ceil_u64(count: u64, size: u64) -> (r: u64)
    requires
        size > 0,
    ensures
        r == spec_div_ceil(count as nat, size as nat),
        r * size >= count,
{
    let whole: u64 = count / size;
    let rem: u64 = count % size;
    if rem == 0 {
        assert(whole * size == count) by (nonlinear_arith)
            requires
                size > 0 && count % size == 0 && whole == count / size,
        ;
        assert(whole == spec_div_ceil(count as nat, size as nat)) by (nonlinear_arith)
            requires
                size > 0 && count % size == 0 && whole == count / size,
        ;
        whole
    } else {
        assert(whole < u64::MAX) by (nonlinear_arith)
            requires
                size > 0 && whole == count / size && count % size != 0 && count <= u64::MAX,
        ;
        assert((whole + 1) * size >= count && whole + 1 == spec_div_ceil(
            count as nat,
            size as nat,
        )) by (nonlinear_arith)
            requires
                size > 0 && whole == count / size && count % size == rem && rem != 0,
        ;
        whole + 1
    }
}

} // verus!

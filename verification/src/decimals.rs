use vstd::prelude::*;
use vstd::arithmetic::power::pow;

verus! {

/// The number of minimal units in one whole token with `decimals` decimal places.
pub open spec fn unit_scale(decimals: nat) -> int {
    pow(10, decimals)
}

/// Computes `10^decimals`, or `None` where it does not fit in a `u128`.
pub fn pow10(decimals: u32) -> (r: Option<u128>)
    ensures
        match r {
            Some(v) => v == unit_scale(decimals as nat),
            None => unit_scale(decimals as nat) > u128::MAX,
        },
{
    let mut acc: u128 = 1;
    let mut i: u32 = 0;
    proof {
        vstd::arithmetic::power::lemma_pow0(10);
    }
    while i < decimals
        invariant
            i <= decimals,
            acc == pow(10, i as nat),
        decreases decimals - i,
    {
        proof {
            vstd::arithmetic::power::lemma_pow_adds(10, i as nat, 1);
            vstd::arithmetic::power::lemma_pow1(10);
        }
        match acc.checked_mul(10) {
            Some(next) => {
                acc = next;
                i = i + 1;
            },
            None => {
                proof {
                    vstd::arithmetic::power::lemma_pow_increases(10, (i + 1) as nat, decimals as nat);
                }
                return None;
            },
        }
    }
    Some(acc)
}

} // verus!

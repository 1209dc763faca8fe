//! Integer square roots.
//!
//! The scalar helpers of the library's integer kernel: the square root of a
//! value rounded down (`Sqrt`) and rounded up (`ISqrt`), with their exact
//! characterizations.

use vstd::prelude::*;

verus! {

/// Square root rounded down.
pub trait Sqrt: Sized {
    /// Largest value whose square does not exceed `self`.
    fn sqrt(&self) -> Self;
}

/// Square root rounded up.
pub trait ISqrt: Sqrt {
    /// Smallest value whose square is at least `self`.
    fn isqrt(&self) -> Self;
}

impl Sqrt for u64 {
    fn sqrt(&self) -> (r: u64)
        ensures
            r * r <= *self < (r + 1) * (r + 1),
    {
        let n = *self;
        let mut lo: u64 = 0;
        let mut hi: u64 = 0x1_0000_0000;
        while lo + 1 < hi
            invariant
                lo < hi <= 0x1_0000_0000,
                lo * lo <= n,
                n < hi * hi,
            decreases hi - lo,
        {
            let mid = lo + (hi - lo) / 2;
            proof {
                assert(lo < mid < hi);
                assert((mid as u128) * (mid as u128) <= 0x1_0000_0000_0000_0000u128)
                    by (nonlinear_arith)
                    requires
                        mid <= 0x1_0000_0000u64,
                ;
            }
            if (mid as u128) * (mid as u128) <= n as u128 {
                proof {
                    assert((mid as u128) * (mid as u128) == mid * mid) by (nonlinear_arith);
                }
                lo = mid;
            } else {
                proof {
                    assert((mid as u128) * (mid as u128) == mid * mid) by (nonlinear_arith);
                }
                hi = mid;
            }
        }
        proof {
            assert(lo + 1 == hi);
        }
        lo
    }
}

impl ISqrt for u64 {
    fn isqrt(&self) -> (r: u64)
        ensures
            *self <= r * r,
            r >= 1 ==> (r - 1) * (r - 1) < *self,
    {
        let n = *self;
        let root = n.sqrt();
        proof {
            assert(root <= 0xFFFF_FFFFu64) by {
                if root >= 0x1_0000_0000 {
                    assert(root * root >= 0x1_0000_0000u64 * 0x1_0000_0000u64)
                        by (nonlinear_arith)
                        requires
                            root >= 0x1_0000_0000u64,
                    ;
                }
            }
        }
        if (root as u128) * (root as u128) == n as u128 {
            proof {
                assert((root as u128) * (root as u128) == root * root) by (nonlinear_arith);
                assert(root >= 1 ==> (root - 1) * (root - 1) < root * root) by (nonlinear_arith);
            }
            root
        } else {
            proof {
                assert((root as u128) * (root as u128) == root * root) by (nonlinear_arith);
            }
            root + 1
        }
    }
}

} // verus!

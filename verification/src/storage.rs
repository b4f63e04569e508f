//! Voxel storage: a sparse mapping from lattice position to voxel value with
//! an ambient default, chunked internally for memory locality.

use vstd::prelude::*;

pub mod chunk_map;

verus! {

use vstd::arithmetic::div_mod::lemma_fundamental_div_mod;
use vstd::arithmetic::div_mod::lemma_fundamental_div_mod_converse;

/// Euclidean division and remainder of `a` by a positive divisor `b`: the
/// quotient is floored, the remainder lies in `[0, b)`.
pub fn euclid_div_mod_i32(a: i32, b: i32) -> (qr: (i32, i32))
    requires
        b > 0,
    ensures
        qr.0 == (a as int) / (b as int),
        qr.1 == (a as int) % (b as int),
        0 <= qr.1 < b,
        a as int == (b as int) * (qr.0 as int) + (qr.1 as int),
    {
    proof {
        lemma_fundamental_div_mod(a as int, b as int);
    }
    if a >= 0 {
        proof {
            vstd::arithmetic::div_mod::lemma_div_pos_is_pos(a as int, b as int);
            assert((a as int) / (b as int) <= a as int) by {
                vstd::arithmetic::div_mod::lemma_div_is_ordered_by_denominator(a as int, 1, b as int);
            }
        }
        let q = ((a as u64) / (b as u64)) as i32;
        let r = ((a as u64) % (b as u64)) as i32;
        (q, r)
    } else {
        let m = (-(a as i64)) as u64;
        let q0 = m / (b as u64);
        let r0 = m % (b as u64);
        proof {
            lemma_fundamental_div_mod(m as int, b as int);
            vstd::arithmetic::div_mod::lemma_div_pos_is_pos(m as int, b as int);
            assert((m as int) / (b as int) <= m as int) by {
                vstd::arithmetic::div_mod::lemma_div_is_ordered_by_denominator(m as int, 1, b as int);
            }
        }
        if r0 == 0 {
            proof {
                assert(a as int == (-(q0 as int)) * (b as int) + 0) by (nonlinear_arith)
                    requires
                        m as int == (b as int) * ((m as int) / (b as int)) + (m as int) % (b as int),
                        q0 as int == (m as int) / (b as int),
                        (m as int) % (b as int) == 0,
                        a as int == -(m as int),
                ;
                lemma_fundamental_div_mod_converse(a as int, b as int, -(q0 as int), 0);
            }
            ((-(q0 as i64)) as i32, 0)
        } else {
            proof {
                assert(a as int == (-(q0 as int) - 1) * (b as int) + ((b as int) - (r0 as int)))
                    by (nonlinear_arith)
                    requires
                        m as int == (b as int) * ((m as int) / (b as int)) + (m as int) % (b as int),
                        q0 as int == (m as int) / (b as int),
                        r0 as int == (m as int) % (b as int),
                        0 < (r0 as int) < (b as int),
                        a as int == -(m as int),
                ;
                lemma_fundamental_div_mod_converse(
                    a as int,
                    b as int,
                    -(q0 as int) - 1,
                    (b as int) - (r0 as int),
                );
                assert(-(q0 as int) - 1 >= i32::MIN) by (nonlinear_arith)
                    requires
                        q0 as int == (m as int) / (b as int),
                        m as int == (b as int) * ((m as int) / (b as int)) + (m as int) % (b as int),
                        0 <= ((m as int) % (b as int)) < (b as int),
                        0 < (b as int),
                        0 < (m as int) <= 0x8000_0000,
                        (m as int) % (b as int) != 0,
                ;
            }
            (((-(q0 as i64)) - 1) as i32, b - (r0 as i32))
        }
    }
}

} // verus!

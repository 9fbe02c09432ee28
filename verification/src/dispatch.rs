//! The runtime side: mapping element types to the kernel's numeric tags
//! and padding the hidden dimension for vectorized access.
use crate::errors::Error;
use vstd::prelude::*;

verus! {

/// Element precision/format a tensor can declare.
#[derive(Clone, Copy, Debug, PartialEq, Eq, Structural)]
pub enum ElementType {
    /// Half-precision float.
    F16,
    /// Brain-float16.
    BF16,
    /// Single-precision float.
    F32,
    /// Double-precision float.
    F64,
    /// 8-bit float with a 4-bit exponent and 3-bit mantissa.
    F8E4M3,
    /// Unsigned 8-bit integer.
    U8,
    /// Unsigned 32-bit integer.
    U32,
    /// Signed 16-bit integer.
    I16,
    /// Signed 32-bit integer.
    I32,
    /// Signed 64-bit integer.
    I64,
}

/// The kernel's numeric tag for an element type; `None` for every type
/// the kernel does not take.
pub open spec fn spec_internal_type(t: ElementType) -> Option<u32> {
    match t {
        ElementType::F16 => Some(0u32),
        ElementType::BF16 => Some(1u32),
        ElementType::F32 => Some(2u32),
        _ => None,
    }
}

/// Map an element type to the kernel's numeric tag; every element type
/// outside the supported three fails closed with `UnsupportedType`.
pub fn layer_norm_internal_type(dtype: ElementType) -> (r: Result<u32, Error>)
    ensures
        match r {
            Ok(tag) => spec_internal_type(dtype) == Some(tag),
            Err(e) => spec_internal_type(dtype) is None && e == Error::UnsupportedType(dtype),
        },
{
    match dtype {
        ElementType::F16 => Ok(0),
        ElementType::BF16 => Ok(1),
        ElementType::F32 => Ok(2),
        _ => Err(Error::UnsupportedType(dtype)),
    }
}

/// The tag mapping is total over the three supported element types.
pub proof fn lemma_internal_type_total()
    ensures
        spec_internal_type(ElementType::F16) is Some,
        spec_internal_type(ElementType::BF16) is Some,
        spec_internal_type(ElementType::F32) is Some,
{
}

/// The tag mapping is injective: two element types with the same tag are
/// the same type.
pub proof fn lemma_internal_type_injective(a: ElementType, b: ElementType)
    requires
        spec_internal_type(a) is Some,
        spec_internal_type(a) == spec_internal_type(b),
    ensures
        a == b,
{
}

/// Smallest multiple of `m` that is at least `x`.
pub fn round_multiple(x: usize, m: usize) -> (r: usize)
    requires
        m >= 1,
        x + m - 1 <= usize::MAX,
    ensures
        r as int % m as int == 0,
        x <= r,
        r < x + m,
        forall|k: int| #[trigger] (k % m as int) == 0 && x <= k ==> r <= k,
{
    if x == 0 {
        proof {
            vstd::arithmetic::div_mod::lemma_mod_multiples_basic(0, m as int);
        }
        0
    } else {
        let ghost xi: int = x as int;
        let ghost mi: int = m as int;
        proof {
            vstd::arithmetic::div_mod::lemma_fundamental_div_mod(xi - 1, mi);
            vstd::arithmetic::div_mod::lemma_mod_division_less_than_divisor(xi - 1, mi);
            let qi: int = (xi - 1) / mi;
            let rem: int = (xi - 1) % mi;
            assert(mi * qi == xi - 1 - rem);
            assert(qi >= 0 && qi <= mi * qi) by (nonlinear_arith)
                requires
                    mi >= 1,
                    mi * qi >= 0,
            ;
            assert((qi + 1) * mi == mi * qi + mi) by (nonlinear_arith);
        }
        let q = (x - 1) / m;
        let r = (q + 1) * m;
        proof {
            let qi: int = (xi - 1) / mi;
            vstd::arithmetic::div_mod::lemma_mod_multiples_basic(qi + 1, mi);
            assert((qi + 1) * mi == mi * qi + mi) by (nonlinear_arith);
            assert(r as int == (qi + 1) * mi);
            assert(r as int % mi == 0);
            assert forall|k: int| #[trigger] (k % mi) == 0 && x <= k implies r <= k by {
                if k < r {
                    vstd::arithmetic::div_mod::lemma_sub_mod_noop(r as int, k, mi);
                    assert((r - k) % mi == 0);
                    vstd::arithmetic::div_mod::lemma_small_mod((r - k) as nat, m as nat);
                }
            }
        }
        r
    }
}

} // verus!

//! Payload field extraction and the brand-dependent checksum of the 64-bit
//! framed payload.
//!
//! The division XORs the shifted divisor on every iteration, without looking
//! at the current leading bit. That degenerate form is kept deliberately: it
//! is what deployed receivers of this family check against, so a remainder
//! here means the same thing it means over the air.

use vstd::prelude::*;

verus! {

/// Mask of the sync word in the 64-bit frame register.
pub const SYNC_MASK: u64 = 0xFFFF_0000_0000_0000;

/// The sync pattern that delimits a complete payload.
pub const SYNC_PATTERN: u64 = 0xFFFE_0000_0000_0000;

/// Checksum polynomial for the 2GIG sensor brand.
pub const POLY_2GIG: u64 = 0x18050;

/// Checksum polynomial for the other brands.
pub const POLY_DEFAULT: u64 = 0x18005;

/// Start-of-frame / brand code: bits 44..=47 of the payload.
pub open spec fn sof_of(payload: u64) -> u64 {
    (payload & 0xF000_0000_0000) >> 44
}

/// Serial number: bits 24..=43 of the payload.
pub open spec fn serial_of(payload: u64) -> u64 {
    (payload & 0x0FFF_FF00_0000) >> 24
}

/// Status byte: bits 16..=23 of the payload.
pub open spec fn status_of(payload: u64) -> u64 {
    (payload & 0x0000_00FF_0000) >> 16
}

/// The polynomial selected by a brand code.
pub open spec fn poly_for(sof: u64) -> u64 {
    if sof == 2 || sof == 10 {
        POLY_2GIG
    } else {
        POLY_DEFAULT
    }
}

/// The division loop folded over shift positions `k, k-1, ..., 0`: at each
/// position the shifted polynomial is XORed into the running sum.
pub open spec fn rem_fold(sum: u64, poly: u64, k: int) -> u64
    decreases k + 1,
{
    if k < 0 {
        sum
    } else {
        rem_fold(sum ^ (poly << k as u64), poly, k - 1)
    }
}

/// The division remainder of a payload's non-sync bits against its selected
/// polynomial, aligned to the most significant relevant bit.
pub open spec fn crc_remainder(payload: u64) -> u64 {
    rem_fold(payload & !SYNC_MASK, poly_for(sof_of(payload)), 31)
}

/// A payload is valid exactly when its remainder is zero.
pub open spec fn payload_valid(payload: u64) -> bool {
    crc_remainder(payload) == 0
}

/// Extracted fields of one framed payload.
#[derive(Clone, Copy, PartialEq, Eq, Structural, Debug)]
pub struct PayloadFields {
    pub sof: u64,
    pub serial: u32,
    pub status: u8,
    pub valid: bool,
}

/// Folding XOR steps into the sum commutes with XORing the whole remainder of
/// zero afterwards: the degenerate division is linear in its input.
pub proof fn lemma_rem_fold_linear(sum: u64, poly: u64, k: int)
    ensures
        rem_fold(sum, poly, k) == sum ^ rem_fold(0, poly, k),
    decreases k + 1,
{
    if k < 0 {
        assert(sum ^ 0u64 == sum) by (bit_vector);
    } else {
        let d = (poly << k as u64);
        lemma_rem_fold_linear(sum ^ d, poly, k - 1);
        lemma_rem_fold_linear(0u64 ^ d, poly, k - 1);
        let r = rem_fold(0, poly, k - 1);
        assert((sum ^ d) ^ r == sum ^ ((0u64 ^ d) ^ r)) by (bit_vector);
    }
}

/// A payload is valid exactly when its non-sync bits equal the one fixed
/// 48-bit word whose division by the selected polynomial leaves zero.
pub proof fn lemma_valid_iff_constant(payload: u64)
    ensures
        payload_valid(payload) <==> (payload & !SYNC_MASK) == rem_fold(
            0,
            poly_for(sof_of(payload)),
            31,
        ),
{
    let sum = payload & !SYNC_MASK;
    let poly = poly_for(sof_of(payload));
    lemma_rem_fold_linear(sum, poly, 31);
    let c = rem_fold(0, poly, 31);
    assert(sum ^ c == 0 <==> sum == c) by (bit_vector);
}

/// Flipping any single serial or status bit of a valid payload, while leaving
/// the checksum field unchanged, makes it invalid: those bits sit below the
/// brand code, so the same polynomial is selected, and the non-sync bits no
/// longer equal the one word that divides to zero.
pub proof fn lemma_bit_flip_invalidates(p1: u64, p2: u64, i: u64)
    requires
        16 <= i < 44,
        p2 == p1 ^ (1u64 << i),
        payload_valid(p1),
    ensures
        !payload_valid(p2),
{
    assert((p2 & 0xF000_0000_0000) >> 44 == (p1 & 0xF000_0000_0000) >> 44 && (p2 & !0xFFFF_0000_0000_0000u64)
        != (p1 & !0xFFFF_0000_0000_0000u64)) by (bit_vector)
        requires
            16 <= i < 44u64,
            p2 == p1 ^ (1u64 << i),
    ;
    lemma_valid_iff_constant(p1);
    lemma_valid_iff_constant(p2);
}

/// Validate a framed payload and extract its fields.
///
/// The brand code selects the polynomial; the payload's non-sync bits are
/// divided by repeated XOR of the shifted polynomial, and the payload is
/// valid exactly when the remainder is zero.
pub fn validate_payload(payload: u64) -> (fields: PayloadFields)
    ensures
        fields.sof == sof_of(payload),
        fields.serial == serial_of(payload),
        fields.status == status_of(payload),
        fields.valid == payload_valid(payload),
{
    let sof = (payload & 0xF000_0000_0000) >> 44;
    let serial = ((payload & 0x0FFF_FF00_0000) >> 24) as u32;
    let status = ((payload & 0x0000_00FF_0000) >> 16) as u8;
    assert(((payload & 0x0FFF_FF00_0000) >> 24) as u32 == (payload & 0x0FFF_FF00_0000) >> 24
        && ((payload & 0x0000_00FF_0000) >> 16) as u8 == (payload & 0x0000_00FF_0000) >> 16)
        by (bit_vector);

    let polynomial: u64 = if sof == 2 || sof == 10 {
        POLY_2GIG
    } else {
        POLY_DEFAULT
    };

    let mut sum: u64 = payload & !SYNC_MASK;
    let ghost sum0: u64 = sum;
    let mut current_divisor: u64 = polynomial << 31;
    let ghost mut k: int = 31;

    assert(polynomial << 31u64 == polynomial << 31int as u64) by (bit_vector);

    while current_divisor >= polynomial
        invariant
            polynomial == poly_for(sof_of(payload)),
            -1 <= k <= 31,
            k >= 0 ==> current_divisor == polynomial << k as u64,
            k == -1 ==> current_divisor < polynomial,
            rem_fold(sum0, polynomial, 31) == rem_fold(sum, polynomial, k),
        decreases k + 1,
    {
        proof {
            assert(k >= 0) by {
                if k == -1 {
                    assert(false);
                }
            };
        }
        sum = sum ^ current_divisor;
        current_divisor = current_divisor >> 1;
        proof {
            let kk = k as u64;
            assert(kk >= 1 ==> (polynomial << kk) >> 1u64 == polynomial << (kk - 1) as u64)
                by (bit_vector)
                requires
                    polynomial == 0x18050u64 || polynomial == 0x18005u64,
                    kk <= 31u64,
            ;
            assert(kk == 0 ==> (polynomial << kk) >> 1u64 < polynomial) by (bit_vector)
                requires
                    polynomial == 0x18050u64 || polynomial == 0x18005u64,
            ;
            k = k - 1;
        }
    }
    proof {
        if k >= 0 {
            let kk = k as u64;
            assert(polynomial << kk >= polynomial) by (bit_vector)
                requires
                    polynomial == 0x18050u64 || polynomial == 0x18005u64,
                    kk <= 31u64,
            ;
            assert(false);
        }
    }

    PayloadFields { sof, serial, status, valid: sum == 0 }
}

} // verus!

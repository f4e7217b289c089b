//! How many framing units a payload needs, and the arithmetic facts about
//! that count which the writer and the reader rely on.

use vstd::prelude::*;

verus! {

/// The largest number of framing units one stream may have: the count is a
/// single byte on the wire.
pub const MAX_FRAGMENTS: usize = 255;

/// Number of frame-sized pieces needed to carry `len` bytes, that is
/// `len / max_frame_size` rounded up.
pub open spec fn fragments_needed(len: nat, max_frame_size: nat) -> nat
    recommends
        max_frame_size > 0,
{
    ((len + max_frame_size - 1) / (max_frame_size as int)) as nat
}

/// `fragments_needed` is the least count whose frames hold `len` bytes.
pub proof fn lemma_fragments_needed_bounds(len: nat, max_frame_size: nat)
    requires
        max_frame_size > 0,
    ensures
        fragments_needed(len, max_frame_size) * max_frame_size >= len,
        len > 0 ==> (fragments_needed(len, max_frame_size) - 1) * max_frame_size < len,
        len == 0 <==> fragments_needed(len, max_frame_size) == 0,
        0 < len <= max_frame_size ==> fragments_needed(len, max_frame_size) == 1,
        len > max_frame_size ==> fragments_needed(len, max_frame_size) >= 2,
{
    let m = max_frame_size as int;
    let x = len + m - 1;
    let q = x / m;
    assert(x == m * q + x % m && 0 <= x % m < m) by (nonlinear_arith)
        requires
            m > 0,
            q == x / m,
    ;
    assert(q >= 0) by (nonlinear_arith)
        requires
            m > 0,
            x >= 0,
            q == x / m,
    ;
    assert(q * m == m * q) by (nonlinear_arith);
    assert((q - 1) * m == m * q - m) by (nonlinear_arith);
    if len == 0 {
        assert(q == 0) by (nonlinear_arith)
            requires
                m > 0,
                x == m * q + x % m,
                0 <= x % m < m,
                x == m - 1,
        ;
    }
    if 0 < len <= max_frame_size {
        assert(q == 1) by (nonlinear_arith)
            requires
                m > 0,
                x == m * q + x % m,
                0 <= x % m < m,
                m <= x <= 2 * m - 1,
        ;
    }
    if len > max_frame_size {
        assert(q >= 2) by (nonlinear_arith)
            requires
                m > 0,
                x == m * q + x % m,
                0 <= x % m < m,
                x >= 2 * m,
        ;
    }
    if len > 0 {
        assert(q >= 1) by (nonlinear_arith)
            requires
                m > 0,
                x == m * q + x % m,
                0 <= x % m < m,
                x >= m,
        ;
    }
}

/// Taking one full frame off a payload that does not fit in one frame
/// leaves a payload that needs one framing unit fewer.
pub proof fn lemma_fragments_needed_step(len: nat, max_frame_size: nat)
    requires
        max_frame_size > 0,
        len > max_frame_size,
    ensures
        fragments_needed((len - max_frame_size) as nat, max_frame_size) + 1 == fragments_needed(
            len,
            max_frame_size,
        ),
{
    let m = max_frame_size as int;
    let x = len + m - 1;
    assert((x - m) / m == x / m - 1) by (nonlinear_arith)
        requires
            m > 0,
            x >= m,
    ;
}

/// Computes `fragments_needed`.
pub fn count_fragments(len: usize, max_frame_size: usize) -> (count: usize)
    requires
        max_frame_size > 0,
    ensures
        count == fragments_needed(len as nat, max_frame_size as nat),
{
    let whole: usize = len / max_frame_size;
    let left: usize = len % max_frame_size;
    proof {
        let m = max_frame_size as int;
        let l = len as int;
        assert(l == m * (l / m) + l % m && 0 <= l % m < m) by (nonlinear_arith)
            requires
                m > 0,
        ;
        if l % m == 0 {
            assert((l + m - 1) / m == l / m) by (nonlinear_arith)
                requires
                    m > 0,
                    l == m * (l / m),
            ;
        } else {
            assert((l + m - 1) / m == l / m + 1) by (nonlinear_arith)
                requires
                    m > 0,
                    l == m * (l / m) + l % m,
                    0 < l % m < m,
            ;
            assert(l / m < l) by (nonlinear_arith)
                requires
                    m > 0,
                    l == m * (l / m) + l % m,
                    0 < l % m < m,
                    l >= 0,
            ;
        }
    }
    if left == 0 {
        whole
    } else {
        whole + 1
    }
}

} // verus!

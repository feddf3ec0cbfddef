//! Layout of the analytic-signal FIR filter.
//!
//! The filter has `n` taps (odd) centred on `mid = (n - 1) / 2` and is padded
//! with zeros to the FFT length `m`. Taps at an even distance from the
//! centre are real (they remove DC and Nyquist); taps at an odd distance are
//! imaginary, positive after the centre and negative before it (they shift
//! the phase by 90 degrees). Each side tap is then scaled by a Hamming
//! window of its distance; that arithmetic, and the FFT of the taps, are
//! floating point and stand outside this library.
use vstd::prelude::*;

verus! {

/// What one filter coefficient is, before the window is applied.
#[derive(Debug, Clone, Copy, PartialEq, Eq, Structural)]
pub enum Tap {
    /// Zero padding beyond the filter.
    Zero,
    /// The centre tap, `1`.
    Center,
    /// A real tap at an even distance `offset` from the centre.
    Real { offset: usize },
    /// An imaginary tap at an odd distance `offset` from the centre, negative
    /// before the centre.
    Imag { offset: usize, negative: bool },
}

/// Index of the centre tap of an `n`-tap filter.
pub open spec fn center(n: nat) -> nat {
    ((n - 1) / 2) as nat
}

/// Distance of tap `j` from the centre.
pub open spec fn distance(n: nat, j: nat) -> nat {
    if j >= center(n) {
        (j - center(n)) as nat
    } else {
        (center(n) - j) as nat
    }
}

/// The coefficient at index `j` of an `n`-tap filter padded with zeros.
pub open spec fn tap_at(n: nat, j: nat) -> Tap {
    if j == center(n) {
        Tap::Center
    } else if j < n {
        if distance(n, j) % 2 == 0 {
            Tap::Real { offset: distance(n, j) as usize }
        } else {
            Tap::Imag { offset: distance(n, j) as usize, negative: j < center(n) }
        }
    } else {
        Tap::Zero
    }
}

/// The `m` coefficients of the `n`-tap analytic filter, zero-padded.
pub fn analytic_taps(n: usize, m: usize) -> (taps: Vec<Tap>)
    requires
        n % 2 == 1,
        n <= m,
    ensures
        taps@.len() == m,
        forall|j: int| 0 <= j < m ==> #[trigger] taps@[j] == tap_at(n as nat, j as nat),
{
    let mid = (n - 1) / 2;
    let mut taps: Vec<Tap> = Vec::new();
    let mut j: usize = 0;
    while j < m
        invariant
            n % 2 == 1,
            n <= m,
            mid == center(n as nat),
            j <= m,
            taps@.len() == j,
            forall|k: int| 0 <= k < j ==> #[trigger] taps@[k] == tap_at(n as nat, k as nat),
        decreases m - j,
    {
        let t = if j == mid {
            Tap::Center
        } else if j < n {
            let i = if j >= mid {
                j - mid
            } else {
                mid - j
            };
            if i % 2 == 0 {
                Tap::Real { offset: i }
            } else {
                Tap::Imag { offset: i, negative: j < mid }
            }
        } else {
            Tap::Zero
        };
        taps.push(t);
        j = j + 1;
    }
    taps
}

/// The filter is symmetric about its centre: the taps at `mid + i` and
/// `mid - i` have the same distance `i`; the real ones are equal and the
/// imaginary ones are opposite (positive after the centre, negative before).
/// Nothing beyond the `n` taps is non-zero, and only the centre is `Center`.
pub proof fn lemma_taps_antisymmetric(n: nat, i: nat)
    requires
        n % 2 == 1,
        1 <= i <= center(n),
    ensures
        i % 2 == 0 ==> tap_at(n, center(n) + i) == (Tap::Real { offset: i as usize })
            && tap_at(n, (center(n) - i) as nat) == (Tap::Real { offset: i as usize }),
        i % 2 == 1 ==> tap_at(n, center(n) + i) == (Tap::Imag {
            offset: i as usize,
            negative: false,
        }) && tap_at(n, (center(n) - i) as nat) == (Tap::Imag {
            offset: i as usize,
            negative: true,
        }),
{
}

/// Taps from `n` on are zero padding, and the centre is the only `Center`.
pub proof fn lemma_taps_padding(n: nat, j: nat)
    requires
        n % 2 == 1,
    ensures
        j >= n ==> tap_at(n, j) == Tap::Zero,
        tap_at(n, j) == Tap::Center <==> j == center(n),
{
}

} // verus!

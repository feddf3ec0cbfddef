//! The audio pipeline's sizes, checked once so that every later index stays
//! in bounds.
use vstd::prelude::*;
use vstd::arithmetic::power2::{pow2, lemma_pow2_unfold};
use vstd::arithmetic::power::lemma_pow0;

verus! {

/// `x` is a power of two (1, 2, 4, ...).
pub open spec fn is_pow2(x: nat) -> bool
    decreases x,
{
    if x == 1 {
        true
    } else if x == 0 || x % 2 == 1 {
        false
    } else {
        is_pow2(x / 2)
    }
}

/// The sizes with which the capture callback and the analytic filter never
/// index out of bounds and the FFT planner accepts the window:
/// - at least one frame buffer (the producer and the drawer cycle through them);
/// - the window is at least three samples longer than a block, so that the
///   filter length (see `filter_len`) is an odd number of at least three;
/// - blocks tile the window, so a block never straddles its end;
/// - the window is a power of two (the radix-4 FFT requires it);
/// - twice the window fits in memory indices (the sample ring holds it twice).
pub open spec fn settings_ok(buffer_size: nat, fft_size: nat, num_buffers: nat) -> bool {
    &&& num_buffers > 0
    &&& buffer_size + 3 <= fft_size
    &&& (buffer_size == 0 || fft_size % buffer_size == 0)
    &&& is_pow2(fft_size)
    &&& fft_size <= usize::MAX / 2
}

/// Length of the analytic FIR filter: the part of the window not taken by a
/// block, made odd by dropping one tap when it is even.
pub open spec fn filter_len(buffer_size: nat, fft_size: nat) -> int {
    let n = fft_size - buffer_size;
    if n % 2 == 0 {
        n - 1
    } else {
        n
    }
}

/// `is_pow2` holds exactly of the powers of two: `x == 2^k` for some `k`.
pub proof fn lemma_is_pow2_iff_power(x: nat)
    ensures
        is_pow2(x) <==> exists|k: nat| x == pow2(k),
    decreases x,
{
    if is_pow2(x) {
        lemma_is_pow2_gives_exponent(x);
    }
    if exists|k: nat| x == pow2(k) {
        let k = choose|k: nat| x == pow2(k);
        lemma_power_is_pow2(k);
    }
}

/// Every number that `is_pow2` accepts is `2^k` for some `k`.
proof fn lemma_is_pow2_gives_exponent(x: nat)
    requires
        is_pow2(x),
    ensures
        exists|k: nat| x == pow2(k),
    decreases x,
{
    if x == 1 {
        lemma_pow0(2);
        assert(x == pow2(0));
    } else {
        lemma_is_pow2_gives_exponent(x / 2);
        let k = choose|k: nat| x / 2 == pow2(k);
        lemma_pow2_unfold(k + 1);
        assert(x == pow2(k + 1));
    }
}

/// `is_pow2` accepts every `2^k`.
proof fn lemma_power_is_pow2(k: nat)
    ensures
        is_pow2(pow2(k)),
    decreases k,
{
    if k == 0 {
        lemma_pow0(2);
    } else {
        lemma_pow2_unfold(k);
        lemma_power_is_pow2((k - 1) as nat);
        let x = pow2(k);
        assert(x / 2 == pow2((k - 1) as nat));
        assert(x % 2 == 0);
    }
}

/// Halving and doubling: an even number above one is a power of two exactly
/// when its half is, `2x` is a power of two exactly when `x` is, and no odd
/// number above one is a power of two.
pub proof fn lemma_is_pow2_halving(x: nat)
    ensures
        is_pow2(x) && x > 1 ==> x % 2 == 0 && is_pow2(x / 2),
        is_pow2(2 * x) == is_pow2(x),
        x > 1 && x % 2 == 1 ==> !is_pow2(x),
{
    lemma_is_pow2_iff_power(x);
    lemma_is_pow2_iff_power(2 * x);
    lemma_is_pow2_iff_power(x / 2);
    if exists|k: nat| 2 * x == pow2(k) {
        let k = choose|k: nat| 2 * x == pow2(k);
        if k == 0 {
            lemma_pow0(2);
        } else {
            lemma_pow2_unfold(k);
            assert(x == pow2((k - 1) as nat));
        }
    }
    if exists|k: nat| x == pow2(k) {
        let k = choose|k: nat| x == pow2(k);
        lemma_pow2_unfold(k + 1);
        assert(2 * x == pow2(k + 1));
        if x > 1 {
            if k == 0 {
                lemma_pow0(2);
            } else {
                lemma_pow2_unfold(k);
                assert(x / 2 == pow2((k - 1) as nat));
            }
        }
    }
}

/// The filter is as long as it can be: the largest odd number not above
/// `fft_size - buffer_size` (that gap itself, or one less when it is even).
pub proof fn lemma_filter_len_largest_odd(buffer_size: nat, fft_size: nat)
    requires
        buffer_size + 3 <= fft_size,
    ensures
        filter_len(buffer_size, fft_size) % 2 == 1,
        filter_len(buffer_size, fft_size) <= fft_size - buffer_size,
        filter_len(buffer_size, fft_size) + 1 >= fft_size - buffer_size,
        filter_len(buffer_size, fft_size) == fft_size - buffer_size || filter_len(
            buffer_size,
            fft_size,
        ) == fft_size - buffer_size - 1,
{
}

/// Why a set of sizes was refused; checked in the order of the variants.
#[derive(Debug, Clone, Copy, PartialEq, Eq, Structural)]
pub enum SettingsError {
    /// `num_buffers` is zero.
    NoBuffers,
    /// `fft_size` is less than `buffer_size + 3`.
    WindowTooShort,
    /// `buffer_size` is not zero and does not divide `fft_size`.
    BlockDoesNotDivide,
    /// `fft_size` is not a power of two.
    NotPowerOfTwo,
    /// `2 * fft_size` would not fit in a `usize`.
    TooLarge,
}

/// Audio sizes that satisfy `settings_ok`.
pub struct AudioSettings {
    buffer_size: usize,
    fft_size: usize,
    num_buffers: usize,
}

/// Whether `x` is a power of two.
pub fn is_power_of_two(x: usize) -> (r: bool)
    ensures
        r == is_pow2(x as nat),
        r <==> exists|k: nat| x == pow2(k),
{
    proof {
        lemma_is_pow2_iff_power(x as nat);
    }
    let mut y = x;
    while y > 1 && y % 2 == 0
        invariant
            is_pow2(y as nat) == is_pow2(x as nat),
        decreases y,
    {
        y = y / 2;
    }
    y == 1
}

impl AudioSettings {
    #[verifier::type_invariant]
    spec fn inv(self) -> bool {
        settings_ok(self.buffer_size as nat, self.fft_size as nat, self.num_buffers as nat)
    }

    /// Samples per channel in one capture block.
    pub closed spec fn spec_buffer_size(self) -> nat {
        self.buffer_size as nat
    }

    /// Samples in the analysis window.
    pub closed spec fn spec_fft_size(self) -> nat {
        self.fft_size as nat
    }

    /// Frame buffers between the producer and the drawer.
    pub closed spec fn spec_num_buffers(self) -> nat {
        self.num_buffers as nat
    }

    /// Checks the sizes; refuses them with the first error that applies.
    pub fn new(buffer_size: usize, fft_size: usize, num_buffers: usize) -> (r: Result<
        AudioSettings,
        SettingsError,
    >)
        ensures
            r is Ok <==> settings_ok(buffer_size as nat, fft_size as nat, num_buffers as nat),
            r is Ok ==> exists|k: nat| fft_size == pow2(k),
            r matches Ok(s) ==> s.spec_buffer_size() == buffer_size && s.spec_fft_size()
                == fft_size && s.spec_num_buffers() == num_buffers,
            r == Err::<AudioSettings, SettingsError>(SettingsError::NoBuffers) <==> num_buffers
                == 0,
            r == Err::<AudioSettings, SettingsError>(SettingsError::WindowTooShort) <==> (
            num_buffers > 0 && buffer_size + 3 > fft_size),
            r == Err::<AudioSettings, SettingsError>(SettingsError::BlockDoesNotDivide) <==> (
            num_buffers > 0 && buffer_size + 3 <= fft_size && buffer_size != 0 && fft_size
                % buffer_size != 0),
            r == Err::<AudioSettings, SettingsError>(SettingsError::NotPowerOfTwo) <==> (
            num_buffers > 0 && buffer_size + 3 <= fft_size && (buffer_size == 0 || fft_size
                % buffer_size == 0) && !is_pow2(fft_size as nat)),
            r == Err::<AudioSettings, SettingsError>(SettingsError::TooLarge) <==> (num_buffers
                > 0 && buffer_size + 3 <= fft_size && (buffer_size == 0 || fft_size % buffer_size
                == 0) && is_pow2(fft_size as nat) && fft_size > usize::MAX / 2),
    {
        if num_buffers == 0 {
            return Err(SettingsError::NoBuffers);
        }
        if fft_size < 3 || fft_size - 3 < buffer_size {
            return Err(SettingsError::WindowTooShort);
        }
        if buffer_size != 0 && fft_size % buffer_size != 0 {
            return Err(SettingsError::BlockDoesNotDivide);
        }
        if !is_power_of_two(fft_size) {
            return Err(SettingsError::NotPowerOfTwo);
        }
        if fft_size > usize::MAX / 2 {
            return Err(SettingsError::TooLarge);
        }
        proof {
            lemma_is_pow2_iff_power(fft_size as nat);
        }
        Ok(AudioSettings { buffer_size, fft_size, num_buffers })
    }

    /// Samples per channel in one capture block.
    pub fn buffer_size(&self) -> (r: usize)
        ensures
            r == self.spec_buffer_size(),
            settings_ok(self.spec_buffer_size(), self.spec_fft_size(), self.spec_num_buffers()),
    {
        proof {
            use_type_invariant(self);
        }
        self.buffer_size
    }

    /// Samples in the analysis window (and the FFT length).
    pub fn fft_size(&self) -> (r: usize)
        ensures
            r == self.spec_fft_size(),
            settings_ok(self.spec_buffer_size(), self.spec_fft_size(), self.spec_num_buffers()),
    {
        proof {
            use_type_invariant(self);
        }
        self.fft_size
    }

    /// Frame buffers between the producer and the drawer.
    pub fn num_buffers(&self) -> (r: usize)
        ensures
            r == self.spec_num_buffers(),
            settings_ok(self.spec_buffer_size(), self.spec_fft_size(), self.spec_num_buffers()),
    {
        proof {
            use_type_invariant(self);
        }
        self.num_buffers
    }

    /// Length of the analytic filter: `fft_size - buffer_size`, less one when
    /// that is even. It is odd, at least three, and fits in the window.
    pub fn filter_length(&self) -> (n: usize)
        ensures
            n == filter_len(self.spec_buffer_size(), self.spec_fft_size()),
            n % 2 == 1,
            3 <= n <= self.spec_fft_size() - self.spec_buffer_size(),
            n + 1 >= self.spec_fft_size() - self.spec_buffer_size(),
    {
        proof {
            use_type_invariant(self);
        }
        let gap = self.fft_size - self.buffer_size;
        assert(gap >= 3);
        let n = if gap % 2 == 0 {
            gap - 1
        } else {
            gap
        };
        assert(n + 1 >= gap);
        n
    }

    /// Points in one drawn frame: a block plus the three carried over from
    /// the previous frame.
    pub fn frame_len(&self) -> (r: usize)
        ensures
            r == self.spec_buffer_size() + 3,
    {
        proof {
            use_type_invariant(self);
        }
        self.buffer_size + 3
    }
}

} // verus!

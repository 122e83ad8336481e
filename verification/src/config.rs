//! Validation of the render configuration.
//!
//! A render is described by pixel bounds (width, height), a plane region and
//! a worker count. A zero pixel dimension or a worker count of zero is a
//! fatal configuration error and must be rejected before any work starts:
//! the coordinate mapping divides by the bounds, and the band split divides
//! by the worker count.

use vstd::prelude::*;

verus! {

/// Why a render configuration was rejected.
#[derive(Clone, Copy, Debug, PartialEq, Eq, Structural)]
pub enum ConfigError {
    /// The pixel width is zero.
    ZeroWidth,
    /// The pixel height is zero.
    ZeroHeight,
    /// The worker count is zero.
    ZeroWorkers,
    /// `width * height` does not fit in `usize`, so no pixel buffer of that
    /// shape can exist.
    BufferTooLarge,
}

/// Whether a configuration is acceptable: both pixel dimensions and the
/// worker count are positive, and the pixel buffer length fits in `usize`.
pub open spec fn config_ok(width: usize, height: usize, workers: u8) -> bool {
    width > 0 && height > 0 && workers > 0 && width * height <= usize::MAX
}

/// Rejects invalid render configurations before any work is dispatched.
///
/// Returns `Ok` exactly on the configurations that the renderer accepts,
/// and otherwise says which requirement failed, checked in the order
/// width, height, workers, buffer size.
pub fn check_config(width: usize, height: usize, workers: u8) -> (r: Result<(), ConfigError>)
    ensures
        r is Ok <==> config_ok(width, height, workers),
        width == 0 ==> r == Err::<(), ConfigError>(ConfigError::ZeroWidth),
        width > 0 && height == 0 ==> r == Err::<(), ConfigError>(ConfigError::ZeroHeight),
        width > 0 && height > 0 && workers == 0 ==> r == Err::<(), ConfigError>(
            ConfigError::ZeroWorkers,
        ),
        width > 0 && height > 0 && workers > 0 && width * height > usize::MAX ==> r == Err::<
            (),
            ConfigError,
        >(ConfigError::BufferTooLarge),
{
    if width == 0 {
        Err(ConfigError::ZeroWidth)
    } else if height == 0 {
        Err(ConfigError::ZeroHeight)
    } else if workers == 0 {
        Err(ConfigError::ZeroWorkers)
    } else if width > usize::MAX / height {
        proof {
            let q = usize::MAX as int / height as int;
            vstd::arithmetic::mul::lemma_mul_inequality(q + 1, width as int, height as int);
            vstd::arithmetic::mul::lemma_mul_is_distributive_add_other_way(
                height as int,
                q,
                1,
            );
            vstd::arithmetic::div_mod::lemma_remainder_upper(usize::MAX as int, height as int);
        }
        Err(ConfigError::BufferTooLarge)
    } else {
        proof {
            vstd::arithmetic::mul::lemma_mul_inequality(
                width as int,
                usize::MAX as int / height as int,
                height as int,
            );
            vstd::arithmetic::div_mod::lemma_remainder_lower(usize::MAX as int, height as int);
        }
        Ok(())
    }
}

/// The length of the pixel buffer for the given bounds: one grayscale byte
/// per pixel, rows stored top to bottom.
pub fn buffer_len(width: usize, height: usize) -> (n: usize)
    requires
        width * height <= usize::MAX,
    ensures
        n == width * height,
{
    width * height
}

} // verus!

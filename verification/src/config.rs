//! Validation of the integer parameters of a rendering run.

use vstd::prelude::*;

verus! {

/// Why a set of run parameters cannot be rendered.
#[derive(Clone, Copy, Debug, PartialEq, Eq, Structural)]
pub enum ConfigError {
    /// A width, a height or the supersampling factor is zero.
    ZeroDimension,
    /// A supersampled side does not fit in 32 bits, or a pixel grid is larger
    /// than a single allocation may be.
    TooLarge,
    /// A pixel sequence does not hold one value for each cell of its grid.
    SizeMismatch,
    /// A parameter sweep needs at least two steps to have a step size.
    TooFewSteps,
}

/// The parameters of a run as texts, as a command line gives them. A text
/// left empty stands for a parameter without a value.
pub struct Defaults {
    pub a: &'static str,
    pub b: &'static str,
    pub x0: &'static str,
    pub y0: &'static str,
    pub n: &'static str,
    pub width: &'static str,
    pub height: &'static str,
    pub factor: &'static str,
    pub no_image: bool,
    pub a_range: &'static str,
    pub a_steps: &'static str,
}

impl Defaults {
    /// The parameters of a run where the caller names none: the classical
    /// map started at the origin, ten million iterations, a full-HD image at
    /// four samples per pixel side, image output on, and no sweep.
    pub fn standard() -> (d: Defaults)
        ensures
            d.a@ == "1.4"@,
            d.b@ == "0.3"@,
            d.x0@ == "0.0"@,
            d.y0@ == "0.0"@,
            d.n@ == "10000000"@,
            d.width@ == "1920"@,
            d.height@ == "1080"@,
            d.factor@ == "4"@,
            !d.no_image,
            d.a_range@ == ""@,
            d.a_steps@ == ""@,
    {
        Defaults {
            a: "1.4",
            b: "0.3",
            x0: "0.0",
            y0: "0.0",
            n: "10000000",
            width: "1920",
            height: "1080",
            factor: "4",
            no_image: false,
            a_range: "",
            a_steps: "",
        }
    }
}

/// The largest number of cells a pixel grid may hold.
pub open spec fn max_cells() -> int {
    isize::MAX as int
}

/// What `super_dimensions` returns: both sides multiplied by the factor, when
/// none of the three is zero and both products fit in 32 bits.
pub open spec fn spec_super_dimensions(width: u32, height: u32, factor: u32) -> Result<
    (u32, u32),
    ConfigError,
> {
    if width == 0 || height == 0 || factor == 0 {
        Err(ConfigError::ZeroDimension)
    } else if width * factor > u32::MAX || height * factor > u32::MAX {
        Err(ConfigError::TooLarge)
    } else {
        Ok(((width * factor) as u32, (height * factor) as u32))
    }
}

/// Sides of the supersampled canvas for an output of `width` by `height`
/// pixels rendered at `factor` samples per pixel side.
pub fn super_dimensions(width: u32, height: u32, factor: u32) -> (r: Result<
    (u32, u32),
    ConfigError,
>)
    ensures
        r == spec_super_dimensions(width, height, factor),
{
    if width == 0 || height == 0 || factor == 0 {
        return Err(ConfigError::ZeroDimension);
    }
    match (width.checked_mul(factor), height.checked_mul(factor)) {
        (Some(super_width), Some(super_height)) => Ok((super_width, super_height)),
        _ => Err(ConfigError::TooLarge),
    }
}

/// Number of intervals between the `steps` parameter values of a sweep: the
/// divisor of the step size. A sweep of fewer than two values has no step
/// size and is refused with `TooFewSteps`.
pub fn sweep_intervals(steps: u32) -> (r: Result<u32, ConfigError>)
    ensures
        steps < 2 ==> r == Err::<u32, ConfigError>(ConfigError::TooFewSteps),
        steps >= 2 ==> r == Ok::<u32, ConfigError>((steps - 1) as u32),
{
    if steps < 2 {
        Err(ConfigError::TooFewSteps)
    } else {
        Ok(steps - 1)
    }
}

} // verus!

//! Fitting a region of a fixed aspect ratio into a drawable surface, in exact
//! arithmetic.

use crate::fraction::{
    lemma_equal_values_equal_fractions, lemma_quotient_positive, quotient, Fraction,
};
use crate::model::{
    fit_model, lemma_one_axis_scaled, lemma_region_centred, lemma_region_contained,
    lemma_region_has_target_ratio, lemma_scale_gives_region, FitModel,
};
use vstd::prelude::*;

verus! {

/// Why a fit could not be computed.
#[derive(Clone, Copy, Debug, PartialEq, Eq, Structural)]
pub enum FitError {
    /// A width or a height was zero.
    InvalidDimensions,
}

/// The aspect ratio to keep: a positive rational number, width over height,
/// fixed when it is made.
#[derive(Clone, Copy, Debug, PartialEq, Eq, Structural)]
pub struct TargetRatio {
    ratio: Fraction,
}

impl View for TargetRatio {
    type V = real;

    /// The ratio as a real number.
    open spec fn view(&self) -> real {
        self.fraction()@
    }
}

impl TargetRatio {
    /// The ratio as a fraction in lowest terms.
    pub closed spec fn fraction(self) -> Fraction {
        self.ratio
    }

    /// The ratio is a positive fraction in lowest terms whose parts fit in 32
    /// bits.
    #[verifier::type_invariant]
    pub open spec fn wf(self) -> bool {
        &&& self.fraction().wf()
        &&& 0 < self.fraction().numer() <= u32::MAX
        &&& self.fraction().denom() <= u32::MAX
    }

    /// The ratio of a surface `width` wide and `height` high.
    /// `InvalidDimensions` where either is zero.
    pub fn new(width: u32, height: u32) -> (r: Result<TargetRatio, FitError>)
        ensures
            r is Ok <==> width > 0 && height > 0,
            r is Err ==> r == Err::<TargetRatio, FitError>(FitError::InvalidDimensions),
            r matches Ok(t) ==> t.wf() && t@ == quotient(width as nat, height as nat),
    {
        if width == 0 || height == 0 {
            Err(FitError::InvalidDimensions)
        } else {
            Ok(TargetRatio { ratio: Fraction::reduced(width as u64, height as u64) })
        }
    }

    /// The ratio as a fraction in lowest terms.
    pub fn as_fraction(&self) -> (f: Fraction)
        ensures
            f == self.fraction(),
    {
        self.ratio
    }
}

/// The scale that brings a quad that fills the surface down to the fitted
/// region: one factor for each axis.
#[derive(Clone, Copy, Debug, PartialEq, Eq, Structural)]
pub struct ScaleTransform {
    pub horizontal: Fraction,
    pub vertical: Fraction,
}

/// The entry in row `row` and column `col` of the 4 by 4 matrix that scales
/// the three axes by `x`, `y` and `z`: the factors and a final 1 down the
/// diagonal, 0 elsewhere.
pub open spec fn scale_matrix_entry(x: real, y: real, z: real, row: int, col: int) -> real {
    if row != col {
        0real
    } else if row == 0 {
        x
    } else if row == 1 {
        y
    } else if row == 2 {
        z
    } else {
        1real
    }
}

impl ScaleTransform {
    /// The transform as a 4 by 4 matrix, for a vertex stage that takes one:
    /// the two factors, then 1 for depth.
    pub fn to_matrix(&self) -> (m: [[Fraction; 4]; 4])
        ensures
            forall|row: int, col: int|
                0 <= row < 4 && 0 <= col < 4 ==> {
                    &&& (#[trigger] m@[row]@[col]).wf()
                    &&& m@[row]@[col]@ == scale_matrix_entry(
                        self.horizontal@,
                        self.vertical@,
                        1real,
                        row,
                        col,
                    )
                },
    {
        let zero: Fraction = Fraction::from_integer(0);
        let one: Fraction = Fraction::from_integer(1);
        proof {
            use_type_invariant(&self.horizontal);
            use_type_invariant(&self.vertical);
        }
        [
            [self.horizontal, zero, zero, zero],
            [zero, self.vertical, zero, zero],
            [zero, zero, one, zero],
            [zero, zero, zero, one],
        ]
    }
}

/// The corner of the fitted region, in pixels from the corner of the surface.
#[derive(Clone, Copy, Debug, PartialEq, Eq, Structural)]
pub struct Offset {
    pub x: Fraction,
    pub y: Fraction,
}

/// The extent of the fitted region, in pixels.
#[derive(Clone, Copy, Debug, PartialEq, Eq, Structural)]
pub struct RegionSize {
    pub width: Fraction,
    pub height: Fraction,
}

/// A fit: the transform for the vertex stage, and the fitted region's corner
/// and extent for the fragment stage.
#[derive(Clone, Copy, Debug, PartialEq, Eq, Structural)]
pub struct FitResult {
    pub transform: ScaleTransform,
    pub offset: Offset,
    pub size: RegionSize,
}

impl View for FitResult {
    type V = FitModel;

    /// The fit as real numbers.
    open spec fn view(&self) -> FitModel {
        FitModel {
            horizontal_scale: self.transform.horizontal@,
            vertical_scale: self.transform.vertical@,
            offset_x: self.offset.x@,
            offset_y: self.offset.y@,
            width: self.size.width@,
            height: self.size.height@,
        }
    }
}

impl FitResult {
    /// Each of the six fractions is well formed.
    pub open spec fn wf(self) -> bool {
        &&& self.transform.horizontal.wf()
        &&& self.transform.vertical.wf()
        &&& self.offset.x.wf()
        &&& self.offset.y.wf()
        &&& self.size.width.wf()
        &&& self.size.height.wf()
    }
}

/// What `compute_fit` owes for a surface `width` by `height` and a target
/// ratio: `InvalidDimensions` where the surface has no area, and otherwise
/// the fit that the model gives, exactly.
pub open spec fn is_fit(
    outcome: Result<FitResult, FitError>,
    width: u32,
    height: u32,
    ratio: TargetRatio,
) -> bool {
    if width == 0 || height == 0 {
        outcome == Err::<FitResult, FitError>(FitError::InvalidDimensions)
    } else {
        &&& outcome is Ok
        &&& outcome->Ok_0.wf()
        &&& outcome->Ok_0@ == fit_model(width as real, height as real, ratio@)
    }
}

proof fn lemma_products_fit(x: u64, y: u64)
    requires
        x <= u32::MAX,
        y <= u32::MAX,
    ensures
        x * y <= 0xFFFF_FFFE_0000_0001,
{
    assert(x * y <= 0xFFFF_FFFE_0000_0001) by (nonlinear_arith)
        requires
            x <= 0xFFFF_FFFF,
            y <= 0xFFFF_FFFF,
    ;
}

/// With `w * b <= h * a`, the parts of the full-width fit as quotients of
/// whole numbers.
proof fn lemma_full_width_parts(w: nat, h: nat, a: nat, b: nat)
    requires
        w > 0,
        h > 0,
        a > 0,
        b > 0,
        w * b <= h * a,
    ensures
        quotient(w * b, a) == w as real / quotient(a, b),
        quotient(w * b, h * a) == (w as real / quotient(a, b)) / h as real,
        quotient((h * a - w * b) as nat, 2 * a) == (h as real - w as real / quotient(a, b))
            / 2real,
{
    assert((w * b) as real / a as real == w as real / (a as real / b as real))
        by (nonlinear_arith)
        requires
            w > 0,
            a > 0,
            b > 0,
    ;
    assert((w * b) as real / (h * a) as real == (w as real / (a as real / b as real))
        / h as real) by (nonlinear_arith)
        requires
            w > 0,
            h > 0,
            a > 0,
            b > 0,
    ;
    assert(((h * a - w * b) as nat) as real / (2 * a) as real == (h as real - w as real / (
    a as real / b as real)) / 2real) by (nonlinear_arith)
        requires
            w > 0,
            h > 0,
            a > 0,
            b > 0,
            w * b <= h * a,
    ;
}

/// With `h * a <= w * b`, the parts of the full-height fit as quotients of
/// whole numbers.
proof fn lemma_full_height_parts(w: nat, h: nat, a: nat, b: nat)
    requires
        w > 0,
        h > 0,
        a > 0,
        b > 0,
        h * a <= w * b,
    ensures
        quotient(h * a, b) == h as real * quotient(a, b),
        quotient(h * a, w * b) == (h as real * quotient(a, b)) / w as real,
        quotient((w * b - h * a) as nat, 2 * b) == (w as real - h as real * quotient(a, b))
            / 2real,
{
    assert((h * a) as real / b as real == h as real * (a as real / b as real))
        by (nonlinear_arith)
        requires
            h > 0,
            a > 0,
            b > 0,
    ;
    assert((h * a) as real / (w * b) as real == (h as real * (a as real / b as real))
        / w as real) by (nonlinear_arith)
        requires
            w > 0,
            h > 0,
            a > 0,
            b > 0,
    ;
    assert(((w * b - h * a) as nat) as real / (2 * b) as real == (w as real - h as real * (
    a as real / b as real)) / 2real) by (nonlinear_arith)
        requires
            w > 0,
            h > 0,
            a > 0,
            b > 0,
            h * a <= w * b,
    ;
}

/// The surface is too narrow exactly when `w * b < h * a`.
proof fn lemma_narrow_by_products(w: nat, h: nat, a: nat, b: nat)
    requires
        a > 0,
        b > 0,
    ensures
        (w as real) < h as real * quotient(a, b) <==> w * b < h * a,
{
    assert((w as real) < h as real * (a as real / b as real) <==> w * b < h * a)
        by (nonlinear_arith)
        requires
            a > 0,
            b > 0,
    ;
}

/// Fits a region of ratio `target_ratio` into a surface `current_width` by
/// `current_height` pixels: the largest such region, centred.
///
/// A surface without area (a minimised window reports one) is refused with
/// `InvalidDimensions`; nothing is clamped.
pub fn compute_fit(current_width: u32, current_height: u32, target_ratio: TargetRatio) -> (outcome:
    Result<FitResult, FitError>)
    ensures
        outcome is Err <==> current_width == 0 || current_height == 0,
        is_fit(outcome, current_width, current_height, target_ratio),
{
    if current_width == 0 || current_height == 0 {
        return Err(FitError::InvalidDimensions);
    }
    let ratio: Fraction = target_ratio.as_fraction();
    let a: u64 = ratio.numerator();
    let b: u64 = ratio.denominator();
    let w: u64 = current_width as u64;
    let h: u64 = current_height as u64;
    proof {
        use_type_invariant(&target_ratio);
        lemma_products_fit(w, b);
        lemma_products_fit(h, a);
        lemma_narrow_by_products(w as nat, h as nat, a as nat, b as nat);
        assert(w * b > 0 && h * a > 0) by (nonlinear_arith)
            requires
                w > 0,
                h > 0,
                a > 0,
                b > 0,
        ;
    }
    // Both sides of `width < height * ratio`, times the ratio's denominator.
    let actual: u64 = w * b;
    let wanted: u64 = h * a;
    let zero: Fraction = Fraction::from_integer(0);
    let one: Fraction = Fraction::from_integer(1);
    if actual < wanted {
        proof {
            lemma_full_width_parts(w as nat, h as nat, a as nat, b as nat);
        }
        let fitted_height: Fraction = Fraction::reduced(actual, a);
        Ok(
            FitResult {
                transform: ScaleTransform {
                    horizontal: one,
                    vertical: Fraction::reduced(actual, wanted),
                },
                offset: Offset { x: zero, y: Fraction::reduced(wanted - actual, 2 * a) },
                size: RegionSize { width: Fraction::from_integer(w), height: fitted_height },
            },
        )
    } else {
        proof {
            lemma_full_height_parts(w as nat, h as nat, a as nat, b as nat);
        }
        let fitted_width: Fraction = Fraction::reduced(wanted, b);
        Ok(
            FitResult {
                transform: ScaleTransform {
                    horizontal: Fraction::reduced(wanted, actual),
                    vertical: one,
                },
                offset: Offset { x: Fraction::reduced(actual - wanted, 2 * b), y: zero },
                size: RegionSize { width: fitted_width, height: Fraction::from_integer(h) },
            },
        )
    }
}

/// A target ratio is a positive number.
pub proof fn lemma_ratio_positive(ratio: TargetRatio)
    requires
        ratio.wf(),
    ensures
        ratio@ > 0real,
{
    lemma_quotient_positive(ratio.fraction().numer(), ratio.fraction().denom());
}

/// What holds of every fit in the model holds of every fit that `compute_fit`
/// returns: only the long axis is scaled down, the region is centred in the
/// surface and lies within it, it has exactly the target ratio, and the
/// scale factors are its shares of the surface.
pub proof fn lemma_computed_fit(fit: FitResult, width: u32, height: u32, ratio: TargetRatio)
    requires
        ratio.wf(),
        width > 0,
        height > 0,
        is_fit(Ok(fit), width, height, ratio),
    ensures
        (width as real) < height as real * ratio@ ==> fit.transform.horizontal@ == 1real && 0real
            < fit.transform.vertical@ < 1real,
        width as real > height as real * ratio@ ==> 0real < fit.transform.horizontal@ < 1real
            && fit.transform.vertical@ == 1real,
        width as real == height as real * ratio@ ==> fit.transform.horizontal@ == 1real
            && fit.transform.vertical@ == 1real,
        fit.offset.x@ + fit.size.width@ / 2real == width as real / 2real,
        fit.offset.y@ + fit.size.height@ / 2real == height as real / 2real,
        0real <= fit.offset.x@,
        0real <= fit.offset.y@,
        fit.offset.x@ + fit.size.width@ <= width as real,
        fit.offset.y@ + fit.size.height@ <= height as real,
        fit.size.width@ / fit.size.height@ == ratio@,
        fit.transform.horizontal@ * width as real == fit.size.width@,
        fit.transform.vertical@ * height as real == fit.size.height@,
{
    lemma_ratio_positive(ratio);
    lemma_one_axis_scaled(width as real, height as real, ratio@);
    lemma_region_centred(width as real, height as real, ratio@);
    lemma_region_contained(width as real, height as real, ratio@);
    lemma_region_has_target_ratio(width as real, height as real, ratio@);
    lemma_scale_gives_region(width as real, height as real, ratio@);
}

/// A fit is given by its six numbers: two well-formed fits that stand for
/// the same numbers are equal field for field.
pub proof fn lemma_equal_values_equal_fits(first: FitResult, second: FitResult)
    requires
        first.wf(),
        second.wf(),
        first@ == second@,
    ensures
        first == second,
{
    lemma_equal_values_equal_fractions(first.transform.horizontal, second.transform.horizontal);
    lemma_equal_values_equal_fractions(first.transform.vertical, second.transform.vertical);
    lemma_equal_values_equal_fractions(first.offset.x, second.offset.x);
    lemma_equal_values_equal_fractions(first.offset.y, second.offset.y);
    lemma_equal_values_equal_fractions(first.size.width, second.size.width);
    lemma_equal_values_equal_fractions(first.size.height, second.size.height);
}

/// The inputs decide the outcome: any two outcomes that `compute_fit` may
/// give for the same surface and ratio are the same, error or fit, field for
/// field.
pub proof fn lemma_fit_is_determined(
    first: Result<FitResult, FitError>,
    second: Result<FitResult, FitError>,
    width: u32,
    height: u32,
    ratio: TargetRatio,
)
    requires
        is_fit(first, width, height, ratio),
        is_fit(second, width, height, ratio),
    ensures
        first == second,
{
    if width != 0 && height != 0 {
        lemma_equal_values_equal_fits(first->Ok_0, second->Ok_0);
    }
}

} // verus!

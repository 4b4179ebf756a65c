//! Letterboxing over the real numbers: what a fit is, and what always holds
//! of it.

use vstd::prelude::*;

verus! {

/// A fit as six real numbers: the two scale factors of the transform, then
/// the corner and the extent of the fitted region on the surface.
pub struct FitModel {
    pub horizontal_scale: real,
    pub vertical_scale: real,
    pub offset_x: real,
    pub offset_y: real,
    pub width: real,
    pub height: real,
}

/// The surface is too narrow to show a region of ratio `ratio` at full height.
pub open spec fn too_narrow(width: real, height: real, ratio: real) -> bool {
    width < height * ratio
}

/// The fit that keeps the full width and shrinks the height to
/// `width / ratio`.
pub open spec fn fit_full_width(width: real, height: real, ratio: real) -> FitModel {
    let fitted_height = width / ratio;
    FitModel {
        horizontal_scale: 1real,
        vertical_scale: fitted_height / height,
        offset_x: 0real,
        offset_y: (height - fitted_height) / 2real,
        width: width,
        height: fitted_height,
    }
}

/// The fit that keeps the full height and shrinks the width to
/// `height * ratio`.
pub open spec fn fit_full_height(width: real, height: real, ratio: real) -> FitModel {
    let fitted_width = height * ratio;
    FitModel {
        horizontal_scale: fitted_width / width,
        vertical_scale: 1real,
        offset_x: (width - fitted_width) / 2real,
        offset_y: 0real,
        width: fitted_width,
        height: height,
    }
}

/// The largest centred region of ratio `ratio` on a surface of the given
/// width and height: full width where the surface is too narrow, full height
/// otherwise.
pub open spec fn fit_model(width: real, height: real, ratio: real) -> FitModel {
    if too_narrow(width, height, ratio) {
        fit_full_width(width, height, ratio)
    } else {
        fit_full_height(width, height, ratio)
    }
}

/// The fit that changes nothing: both scale factors 1, no offset, the whole
/// surface.
pub open spec fn whole_surface(width: real, height: real) -> FitModel {
    FitModel {
        horizontal_scale: 1real,
        vertical_scale: 1real,
        offset_x: 0real,
        offset_y: 0real,
        width: width,
        height: height,
    }
}

/// Only the long axis is scaled down. On a surface that is too narrow the
/// horizontal factor is 1 and the vertical one lies strictly between 0 and 1;
/// on one that is too wide it is the other way round; on one of exactly the
/// target ratio both are 1.
pub proof fn lemma_one_axis_scaled(width: real, height: real, ratio: real)
    requires
        width > 0real,
        height > 0real,
        ratio > 0real,
    ensures
        ({
            let m = fit_model(width, height, ratio);
            &&& width < height * ratio ==> m.horizontal_scale == 1real && 0real
                < m.vertical_scale < 1real
            &&& width > height * ratio ==> 0real < m.horizontal_scale < 1real && m.vertical_scale
                == 1real
            &&& width == height * ratio ==> m.horizontal_scale == 1real && m.vertical_scale
                == 1real
        }),
{
    assert(width < height * ratio ==> 0real < (width / ratio) / height < 1real)
        by (nonlinear_arith)
        requires
            width > 0real,
            height > 0real,
            ratio > 0real,
    ;
    assert(width > height * ratio ==> 0real < (height * ratio) / width < 1real)
        by (nonlinear_arith)
        requires
            width > 0real,
            height > 0real,
            ratio > 0real,
    ;
    assert(width == height * ratio ==> (height * ratio) / width == 1real) by (nonlinear_arith)
        requires
            width > 0real,
    ;
}

/// The fitted region is centred: its middle is the middle of the surface.
pub proof fn lemma_region_centred(width: real, height: real, ratio: real)
    requires
        width > 0real,
        height > 0real,
        ratio > 0real,
    ensures
        ({
            let m = fit_model(width, height, ratio);
            &&& m.offset_x + m.width / 2real == width / 2real
            &&& m.offset_y + m.height / 2real == height / 2real
        }),
{
}

/// The fitted region lies within the surface and is not empty.
pub proof fn lemma_region_contained(width: real, height: real, ratio: real)
    requires
        width > 0real,
        height > 0real,
        ratio > 0real,
    ensures
        ({
            let m = fit_model(width, height, ratio);
            &&& 0real <= m.offset_x
            &&& 0real <= m.offset_y
            &&& 0real < m.width
            &&& 0real < m.height
            &&& m.offset_x + m.width <= width
            &&& m.offset_y + m.height <= height
        }),
{
    assert(width / ratio > 0real && (width < height * ratio ==> width / ratio < height))
        by (nonlinear_arith)
        requires
            width > 0real,
            height > 0real,
            ratio > 0real,
    ;
    assert(height * ratio > 0real) by (nonlinear_arith)
        requires
            height > 0real,
            ratio > 0real,
    ;
}

/// The fitted region has exactly the target ratio.
pub proof fn lemma_region_has_target_ratio(width: real, height: real, ratio: real)
    requires
        width > 0real,
        height > 0real,
        ratio > 0real,
    ensures
        ({
            let m = fit_model(width, height, ratio);
            m.width / m.height == ratio
        }),
{
    assert(width / (width / ratio) == ratio) by (nonlinear_arith)
        requires
            width > 0real,
            ratio > 0real,
    ;
    assert((height * ratio) / height == ratio) by (nonlinear_arith)
        requires
            height > 0real,
    ;
}

/// No region of the target ratio that lies within the surface is larger than
/// the fitted one.
pub proof fn lemma_region_is_largest(
    width: real,
    height: real,
    ratio: real,
    other_width: real,
    other_height: real,
)
    requires
        width > 0real,
        height > 0real,
        ratio > 0real,
        0real < other_width <= width,
        0real < other_height <= height,
        other_width == other_height * ratio,
    ensures
        ({
            let m = fit_model(width, height, ratio);
            &&& other_width <= m.width
            &&& other_height <= m.height
        }),
{
    assert(other_height <= width / ratio) by (nonlinear_arith)
        requires
            ratio > 0real,
            other_height * ratio <= width,
    ;
    assert(other_height * ratio <= height * ratio) by (nonlinear_arith)
        requires
            ratio > 0real,
            other_height <= height,
    ;
}

/// The scale factors are the shares of the surface that the region takes up
/// on each axis.
pub proof fn lemma_scale_gives_region(width: real, height: real, ratio: real)
    requires
        width > 0real,
        height > 0real,
        ratio > 0real,
    ensures
        ({
            let m = fit_model(width, height, ratio);
            &&& m.horizontal_scale * width == m.width
            &&& m.vertical_scale * height == m.height
        }),
{
    assert(((width / ratio) / height) * height == width / ratio) by (nonlinear_arith)
        requires
            height > 0real,
    ;
    assert(((height * ratio) / width) * width == height * ratio) by (nonlinear_arith)
        requires
            width > 0real,
    ;
}

/// On a surface of exactly the target ratio the two ways to fit agree, and
/// both leave the whole surface as it is.
pub proof fn lemma_exact_ratio_fits_whole(width: real, height: real, ratio: real)
    requires
        width > 0real,
        height > 0real,
        ratio > 0real,
        width == height * ratio,
    ensures
        fit_full_width(width, height, ratio) == whole_surface(width, height),
        fit_full_height(width, height, ratio) == whole_surface(width, height),
        fit_model(width, height, ratio) == whole_surface(width, height),
{
    assert((height * ratio) / ratio == height) by (nonlinear_arith)
        requires
            ratio > 0real,
    ;
    assert(height / height == 1real) by (nonlinear_arith)
        requires
            height > 0real,
    ;
    assert(width / width == 1real) by (nonlinear_arith)
        requires
            width > 0real,
    ;
}

} // verus!

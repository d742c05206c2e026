use vstd::prelude::*;

verus! {

/// The pixel layouts an image can be converted to.
#[derive(Debug, Clone, Copy, PartialEq, Eq, Structural)]
pub enum ColorSpace {
    L8,
    La8,
    Rgb8,
    Rgba8,
    L16,
    La16,
    Rgb16,
    Rgba16,
    Rgb32F,
    Rgba32F,
}

/// The name shown for a pixel layout.
pub open spec fn color_label(c: ColorSpace) -> Seq<char> {
    match c {
        ColorSpace::L8 => "Luma8"@,
        ColorSpace::La8 => "LumaA8"@,
        ColorSpace::Rgb8 => "Rgb8"@,
        ColorSpace::Rgba8 => "Rgba8"@,
        ColorSpace::L16 => "Luma16"@,
        ColorSpace::La16 => "LumaA16"@,
        ColorSpace::Rgb16 => "Rgb16"@,
        ColorSpace::Rgba16 => "Rgba16"@,
        ColorSpace::Rgb32F => "Rgb32F"@,
        ColorSpace::Rgba32F => "Rgba32F"@,
    }
}

/// The name of a pixel layout.
pub fn color_type_to_str(color_type: ColorSpace) -> (r: &'static str)
    ensures
        r@ == color_label(color_type),
{
    match color_type {
        ColorSpace::L8 => "Luma8",
        ColorSpace::La8 => "LumaA8",
        ColorSpace::Rgb8 => "Rgb8",
        ColorSpace::Rgba8 => "Rgba8",
        ColorSpace::L16 => "Luma16",
        ColorSpace::La16 => "LumaA16",
        ColorSpace::Rgb16 => "Rgb16",
        ColorSpace::Rgba16 => "Rgba16",
        ColorSpace::Rgb32F => "Rgb32F",
        ColorSpace::Rgba32F => "Rgba32F",
    }
}

/// The resampling filters offered for resizing.
#[derive(Debug, Clone, Copy, PartialEq, Eq, Structural)]
pub enum Filter {
    Nearest,
    Triangle,
    CatmullRom,
    Gaussian,
    Lanczos3,
}

/// The name shown for a resampling filter.
pub open spec fn filter_label(f: Filter) -> Seq<char> {
    match f {
        Filter::Nearest => "Nearest Neighbor"@,
        Filter::Triangle => "Linear Filter"@,
        Filter::CatmullRom => "Cubic Filter"@,
        Filter::Gaussian => "Gaussian Filter"@,
        Filter::Lanczos3 => "Lanczos"@,
    }
}

/// The name of a resampling filter.
pub fn filter_name(filter: &Filter) -> (r: &'static str)
    ensures
        r@ == filter_label(*filter),
{
    match filter {
        Filter::Nearest => "Nearest Neighbor",
        Filter::Triangle => "Linear Filter",
        Filter::CatmullRom => "Cubic Filter",
        Filter::Gaussian => "Gaussian Filter",
        Filter::Lanczos3 => "Lanczos",
    }
}

} // verus!

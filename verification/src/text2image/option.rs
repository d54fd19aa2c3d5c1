//! Request options for the text-to-image endpoint: picture size,
//! sampler, and style.
use vstd::prelude::*;

use crate::errors::UnknownModelError;
use crate::json::str_eq;

verus! {

/// The size of the generated picture, as width by height.
#[derive(Debug, Default, Clone, PartialEq, Eq)]
pub enum Size {
    #[default]
    S1024x1024,
    S768x768,
    S768x1024,
    S1024x768,
    S576x1024,
    S1024x576,
}

/// The wire name of a picture size.
pub open spec fn spec_size_name(s: Size) -> Seq<char> {
    match s {
        Size::S1024x1024 => "1024x1024"@,
        Size::S768x768 => "768x768"@,
        Size::S768x1024 => "768x1024"@,
        Size::S1024x768 => "1024x768"@,
        Size::S576x1024 => "576x1024"@,
        Size::S1024x576 => "1024x576"@,
    }
}

impl Size {
    /// The size's wire name.
    pub fn to_string(&self) -> (r: String)
        ensures
            r@ == spec_size_name(*self),
    {
        match self {
            Size::S1024x1024 => String::from_str("1024x1024"),
            Size::S768x768 => String::from_str("768x768"),
            Size::S768x1024 => String::from_str("768x1024"),
            Size::S1024x768 => String::from_str("1024x768"),
            Size::S576x1024 => String::from_str("576x1024"),
            Size::S1024x576 => String::from_str("1024x576"),
        }
    }

    /// The size whose wire name is `name`, if any.
    pub fn from_name(name: &str) -> (r: Option<Size>)
        ensures
            match r {
                Some(s) => spec_size_name(s) == name@,
                None => forall|s: Size| spec_size_name(s) != name@,
            },
    {
        if str_eq(name, "1024x1024") {
            Some(Size::S1024x1024)
        } else if str_eq(name, "768x768") {
            Some(Size::S768x768)
        } else if str_eq(name, "768x1024") {
            Some(Size::S768x1024)
        } else if str_eq(name, "1024x768") {
            Some(Size::S1024x768)
        } else if str_eq(name, "576x1024") {
            Some(Size::S576x1024)
        } else if str_eq(name, "1024x576") {
            Some(Size::S1024x576)
        } else {
            None
        }
    }
}

impl core::str::FromStr for Size {
    type Err = UnknownModelError;

    fn from_str(s: &str) -> Result<Size, UnknownModelError> {
        match Size::from_name(s) {
            Some(r) => Ok(r),
            None => Err(UnknownModelError),
        }
    }
}

/// The sampling method the diffusion model draws with.
#[derive(Debug, Default, Clone, PartialEq, Eq)]
pub enum SamplerIndex {
    #[default]
    EulerA,
    Euler,
    DPMpp2M,
    DPMpp2MKarras,
    LMSKarras,
    DPMppSDE,
    DPMppSDEKarras,
    DPM2AKarras,
    Heun,
    DPMpp2MSDE,
    DPMpp2MSDEKarras,
    DPM2,
    DPM2Karras,
    DPM2A,
    LMS,
}

/// The wire name of a sampler.
pub open spec fn spec_sampler_name(s: SamplerIndex) -> Seq<char> {
    match s {
        SamplerIndex::EulerA => "Euler a"@,
        SamplerIndex::Euler => "Euler"@,
        SamplerIndex::DPMpp2M => "DPM++ 2M"@,
        SamplerIndex::DPMpp2MKarras => "DPM++ 2M Karras"@,
        SamplerIndex::LMSKarras => "LMS Karras"@,
        SamplerIndex::DPMppSDE => "DPM++ SDE"@,
        SamplerIndex::DPMppSDEKarras => "DPM++ SDE Karras"@,
        SamplerIndex::DPM2AKarras => "DPM2 a Karras"@,
        SamplerIndex::Heun => "Heun"@,
        SamplerIndex::DPMpp2MSDE => "DPM++ 2M SDE"@,
        SamplerIndex::DPMpp2MSDEKarras => "DPM++ 2M SDE Karras"@,
        SamplerIndex::DPM2 => "DPM2"@,
        SamplerIndex::DPM2Karras => "DPM2 Karras"@,
        SamplerIndex::DPM2A => "DPM2 a"@,
        SamplerIndex::LMS => "LMS"@,
    }
}

impl SamplerIndex {
    /// The sampler's wire name.
    pub fn to_string(&self) -> (r: String)
        ensures
            r@ == spec_sampler_name(*self),
    {
        match self {
            SamplerIndex::EulerA => String::from_str("Euler a"),
            SamplerIndex::Euler => String::from_str("Euler"),
            SamplerIndex::DPMpp2M => String::from_str("DPM++ 2M"),
            SamplerIndex::DPMpp2MKarras => String::from_str("DPM++ 2M Karras"),
            SamplerIndex::LMSKarras => String::from_str("LMS Karras"),
            SamplerIndex::DPMppSDE => String::from_str("DPM++ SDE"),
            SamplerIndex::DPMppSDEKarras => String::from_str("DPM++ SDE Karras"),
            SamplerIndex::DPM2AKarras => String::from_str("DPM2 a Karras"),
            SamplerIndex::Heun => String::from_str("Heun"),
            SamplerIndex::DPMpp2MSDE => String::from_str("DPM++ 2M SDE"),
            SamplerIndex::DPMpp2MSDEKarras => String::from_str("DPM++ 2M SDE Karras"),
            SamplerIndex::DPM2 => String::from_str("DPM2"),
            SamplerIndex::DPM2Karras => String::from_str("DPM2 Karras"),
            SamplerIndex::DPM2A => String::from_str("DPM2 a"),
            SamplerIndex::LMS => String::from_str("LMS"),
        }
    }
}

/// The artistic style the picture is asked to take.
#[derive(Debug, Default, Clone, PartialEq, Eq)]
pub enum Style {
    #[default]
    Base,
    Model3D,
    AnalogFilm,
    Anime,
    Cinematic,
    ComicBook,
    CraftClay,
    DigitalArt,
    Enhance,
    FantasyArt,
    Isometric,
    LineArt,
    Lowpoly,
    Neonpunk,
    Origami,
    Photographic,
    PixelArt,
    Texture,
}

/// The wire name of a style.
pub open spec fn spec_style_name(s: Style) -> Seq<char> {
    match s {
        Style::Base => "Base"@,
        Style::Model3D => "3D Model"@,
        Style::AnalogFilm => "Analog Film"@,
        Style::Anime => "Anime"@,
        Style::Cinematic => "Cinematic"@,
        Style::ComicBook => "Comic Book"@,
        Style::CraftClay => "Craft Clay"@,
        Style::DigitalArt => "Digital Art"@,
        Style::Enhance => "Enhance"@,
        Style::FantasyArt => "Fantasy Art"@,
        Style::Isometric => "Isometric"@,
        Style::LineArt => "Line Art"@,
        Style::Lowpoly => "Lowpoly"@,
        Style::Neonpunk => "Neonpunk"@,
        Style::Origami => "Origami"@,
        Style::Photographic => "Photographic"@,
        Style::PixelArt => "Pixel Art"@,
        Style::Texture => "Texture"@,
    }
}

impl Style {
    /// The style's wire name.
    pub fn to_string(&self) -> (r: String)
        ensures
            r@ == spec_style_name(*self),
    {
        match self {
            Style::Base => String::from_str("Base"),
            Style::Model3D => String::from_str("3D Model"),
            Style::AnalogFilm => String::from_str("Analog Film"),
            Style::Anime => String::from_str("Anime"),
            Style::Cinematic => String::from_str("Cinematic"),
            Style::ComicBook => String::from_str("Comic Book"),
            Style::CraftClay => String::from_str("Craft Clay"),
            Style::DigitalArt => String::from_str("Digital Art"),
            Style::Enhance => String::from_str("Enhance"),
            Style::FantasyArt => String::from_str("Fantasy Art"),
            Style::Isometric => String::from_str("Isometric"),
            Style::LineArt => String::from_str("Line Art"),
            Style::Lowpoly => String::from_str("Lowpoly"),
            Style::Neonpunk => String::from_str("Neonpunk"),
            Style::Origami => String::from_str("Origami"),
            Style::Photographic => String::from_str("Photographic"),
            Style::PixelArt => String::from_str("Pixel Art"),
            Style::Texture => String::from_str("Texture"),
        }
    }
}

} // verus!

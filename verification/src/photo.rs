//! Quality rating of competitor photos by their pixel dimensions.

use vstd::prelude::*;
use vstd::string::*;
use crate::text::owned;

verus! {

/// How well a photo's size suits its use.
#[derive(Clone, Copy, Debug, PartialEq, Eq, Structural)]
pub enum PhotoQualityLevel {
    Excellent,
    Good,
    Fair,
    Poor,
}

/// The rating of a photo with the dimensions it was made from.
#[derive(Debug)]
pub struct PhotoQuality {
    pub level: PhotoQualityLevel,
    pub message: String,
    pub original_width: u32,
    pub original_height: u32,
}

/// A processed photo: the encoded image, its rating and its metadata.
#[derive(Debug)]
pub struct PhotoProcessResult {
    pub webp_data: Vec<u8>,
    pub quality: PhotoQuality,
    pub metadata: PhotoMetadata,
}

/// What is recorded about a processed photo.
#[derive(Debug)]
pub struct PhotoMetadata {
    pub original_width: u32,
    pub original_height: u32,
    pub processed_width: u32,
    pub processed_height: u32,
    pub original_format: String,
    pub file_size_bytes: usize,
    pub compression_quality: u8,
    pub processed_at: String,
}

/// The rating of a photo of `width` by `height` pixels: both dimensions
/// must reach a level's minimum.
pub open spec fn quality_level(width: u32, height: u32) -> PhotoQualityLevel {
    if width >= 800 && height >= 1000 {
        PhotoQualityLevel::Excellent
    } else if width >= 400 && height >= 500 {
        PhotoQualityLevel::Good
    } else if width >= 200 && height >= 250 {
        PhotoQualityLevel::Fair
    } else {
        PhotoQualityLevel::Poor
    }
}

/// The text shown with a rating.
pub open spec fn quality_message(level: PhotoQualityLevel) -> Seq<char> {
    match level {
        PhotoQualityLevel::Excellent => "Excellent quality - perfect for professional use"@,
        PhotoQualityLevel::Good => "Good quality - suitable for competition use"@,
        PhotoQualityLevel::Fair => "Fair quality - acceptable but could be better"@,
        PhotoQualityLevel::Poor => "Poor quality - image is very small and may appear pixelated"@,
    }
}

/// Rates a photo by its dimensions.
pub fn assess_photo_quality(width: u32, height: u32) -> (r: PhotoQuality)
    ensures
        r.level == quality_level(width, height),
        r.message@ == quality_message(r.level),
        r.original_width == width,
        r.original_height == height,
{
    let (level, message) = if width >= 800 && height >= 1000 {
        (PhotoQualityLevel::Excellent, owned("Excellent quality - perfect for professional use"))
    } else if width >= 400 && height >= 500 {
        (PhotoQualityLevel::Good, owned("Good quality - suitable for competition use"))
    } else if width >= 200 && height >= 250 {
        (PhotoQualityLevel::Fair, owned("Fair quality - acceptable but could be better"))
    } else {
        (
            PhotoQualityLevel::Poor,
            owned("Poor quality - image is very small and may appear pixelated"),
        )
    };
    PhotoQuality { level, message, original_width: width, original_height: height }
}

} // verus!

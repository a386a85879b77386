//! Which metadata is kept, and the EXIF orientation.
use vstd::prelude::*;

verus! {

/// Which metadata chunks of the source are carried into the output.
#[derive(Debug, Clone, Copy, PartialEq, Eq, Structural)]
#[non_exhaustive]
pub enum MetadataPolicy {
    NoMetadata,
    All,
    Exif,
    Icc,
    Xmp,
}

impl MetadataPolicy {
    pub fn keep_icc(self) -> (keep: bool)
        ensures
            keep <==> (self is All || self is Icc),
    {
        matches!(self, MetadataPolicy::All | MetadataPolicy::Icc)
    }

    pub fn keep_exif(self) -> (keep: bool)
        ensures
            keep <==> (self is All || self is Exif),
    {
        matches!(self, MetadataPolicy::All | MetadataPolicy::Exif)
    }

    pub fn keep_xmp(self) -> (keep: bool)
        ensures
            keep <==> (self is All || self is Xmp),
    {
        matches!(self, MetadataPolicy::All | MetadataPolicy::Xmp)
    }
}

/// How the stored pixels must be transformed to be shown upright (the EXIF orientation).
#[derive(Debug, Clone, Copy, PartialEq, Eq, Structural)]
pub enum Orientation {
    /// Do not perform any transformations.
    NoTransforms,
    /// Rotate by 90 degrees clockwise.
    Rotate90,
    /// Rotate by 180 degrees.
    Rotate180,
    /// Rotate by 270 degrees clockwise.
    Rotate270,
    /// Flip horizontally.
    FlipHorizontal,
    /// Flip vertically.
    FlipVertical,
    /// Rotate by 90 degrees clockwise and flip horizontally.
    Rotate90FlipH,
    /// Rotate by 270 degrees clockwise and flip horizontally.
    Rotate270FlipH,
}

/// Metadata chunks read from the source image.
#[derive(Debug, Clone)]
pub struct SourceMetadata {
    pub icc: Option<Vec<u8>>,
    pub exif: Option<Vec<u8>>,
    pub xmp: Option<Vec<u8>>,
    pub orientation: Orientation,
}

/// The EXIF chunk after `image`'s `Orientation::remove_from_exif_chunk` has reset its
/// orientation entry.
pub uninterp spec fn exif_orientation_cleared(exif: Seq<u8>) -> Seq<u8>;

/// Calls `image::metadata::Orientation::remove_from_exif_chunk`, which rewrites the orientation
/// entry of a TIFF-structured EXIF chunk to "no transforms" in place and leaves a chunk without a
/// valid entry untouched. The contract names the rewritten bytes and states that the length is
/// kept (the function writes through a slice).
#[verifier::external_body]
fn clear_exif_orientation(exif: &mut Vec<u8>)
    ensures
        final(exif)@ == exif_orientation_cleared(old(exif)@),
        final(exif)@.len() == old(exif)@.len(),
{
    let _ = image::metadata::Orientation::remove_from_exif_chunk(exif.as_mut_slice());
}

impl SourceMetadata {
    /// Resets the EXIF orientation, once it has been applied to the pixels.
    pub fn normalize_orientation(&mut self)
        ensures
            final(self).icc == old(self).icc,
            final(self).xmp == old(self).xmp,
            final(self).orientation == old(self).orientation,
            match old(self).exif {
                Some(e) => final(self).exif matches Some(f) && f@ == exif_orientation_cleared(e@),
                None => final(self).exif is None,
            },
    {
        if let Some(exif) = &mut self.exif {
            clear_exif_orientation(exif);
        }
    }
}

} // verus!

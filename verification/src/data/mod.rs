//! What the viewer shows: geographic images and where they come from.

use crate::binary::Binary64;
use vstd::prelude::*;

pub mod nexrad;
pub mod sentinel;

verus! {

/// Axis-aligned geographic bounding box, in WGS-84 decimal degrees.
#[derive(Clone, Copy, Debug)]
pub struct GeoBounds {
    pub min_lon: Binary64,
    pub min_lat: Binary64,
    pub max_lon: Binary64,
    pub max_lat: Binary64,
}

impl GeoBounds {
    /// The two boxes share an area: touching edges do not count.
    pub open spec fn overlaps(self, other: GeoBounds) -> bool {
        &&& self.min_lon.less(other.max_lon)
        &&& other.min_lon.less(self.max_lon)
        &&& self.min_lat.less(other.max_lat)
        &&& other.min_lat.less(self.max_lat)
    }

    /// The smallest box around both.
    pub open spec fn hull(self, other: GeoBounds) -> GeoBounds {
        GeoBounds {
            min_lon: self.min_lon.smaller(other.min_lon),
            min_lat: self.min_lat.smaller(other.min_lat),
            max_lon: self.max_lon.larger(other.max_lon),
            max_lat: self.max_lat.larger(other.max_lat),
        }
    }

    /// All four sides are numbers.
    pub open spec fn is_numeric(self) -> bool {
        !self.min_lon.is_nan() && !self.min_lat.is_nan() && !self.max_lon.is_nan()
            && !self.max_lat.is_nan()
    }

    /// Every point of `inner` lies in the box.
    pub open spec fn covers(self, inner: GeoBounds) -> bool {
        &&& self.min_lon.value() <= inner.min_lon.value()
        &&& self.min_lat.value() <= inner.min_lat.value()
        &&& inner.max_lon.value() <= self.max_lon.value()
        &&& inner.max_lat.value() <= self.max_lat.value()
    }

    /// The sides have the same numbers.
    pub open spec fn same(self, other: GeoBounds) -> bool {
        &&& self.min_lon.same(other.min_lon)
        &&& self.min_lat.same(other.min_lat)
        &&& self.max_lon.same(other.max_lon)
        &&& self.max_lat.same(other.max_lat)
    }

    pub fn new(
        min_lon: Binary64,
        min_lat: Binary64,
        max_lon: Binary64,
        max_lat: Binary64,
    ) -> (r: GeoBounds)
        ensures
            r == (GeoBounds { min_lon, min_lat, max_lon, max_lat }),
    {
        GeoBounds { min_lon, min_lat, max_lon, max_lat }
    }

    /// Returns true if `other` overlaps this bounding box.
    pub fn intersects(&self, other: &GeoBounds) -> (r: bool)
        ensures
            r == self.overlaps(*other),
    {
        self.min_lon.lt(&other.max_lon) && other.min_lon.lt(&self.max_lon) && self.min_lat.lt(
            &other.max_lat,
        ) && other.min_lat.lt(&self.max_lat)
    }

    /// Expand the bounds so they take in `other`.
    pub fn union(&self, other: &GeoBounds) -> (r: GeoBounds)
        ensures
            r == self.hull(*other),
    {
        GeoBounds {
            min_lon: self.min_lon.min(&other.min_lon),
            min_lat: self.min_lat.min(&other.min_lat),
            max_lon: self.max_lon.max(&other.max_lon),
            max_lat: self.max_lat.max(&other.max_lat),
        }
    }
}

impl PartialEq for GeoBounds {
    fn eq(&self, other: &GeoBounds) -> (r: bool) {
        self.min_lon.equals(&other.min_lon) && self.min_lat.equals(&other.min_lat)
            && self.max_lon.equals(&other.max_lon) && self.max_lat.equals(&other.max_lat)
    }
}

impl vstd::std_specs::cmp::PartialEqSpecImpl for GeoBounds {
    open spec fn obeys_eq_spec() -> bool {
        true
    }

    open spec fn eq_spec(&self, other: &GeoBounds) -> bool {
        self.same(*other)
    }
}

/// Overlap is mutual.
pub proof fn intersection_is_symmetric(a: GeoBounds, b: GeoBounds)
    ensures
        a.overlaps(b) == b.overlaps(a),
{
}

/// The union covers both boxes, and every box that covers both covers the
/// union.
pub proof fn union_is_least_cover(a: GeoBounds, b: GeoBounds, c: GeoBounds)
    requires
        a.is_numeric(),
        b.is_numeric(),
    ensures
        a.hull(b).is_numeric(),
        a.hull(b).covers(a),
        a.hull(b).covers(b),
        c.covers(a) && c.covers(b) ==> c.covers(a.hull(b)),
{
}

/// The order of a union does not matter.
pub proof fn union_commutes(a: GeoBounds, b: GeoBounds)
    requires
        a.is_numeric(),
        b.is_numeric(),
    ensures
        a.hull(b).same(b.hull(a)),
{
}

/// What overlaps a box overlaps every box around it.
pub proof fn union_keeps_overlaps(a: GeoBounds, b: GeoBounds, c: GeoBounds)
    requires
        a.is_numeric(),
        b.is_numeric(),
        a.overlaps(c),
    ensures
        a.hull(b).overlaps(c),
{
}

/// A picture as rows of RGBA8 pixels from the top left.
pub struct Raster {
    pub pixels: Vec<u8>,
    pub width: u32,
    pub height: u32,
}

/// How many bytes a picture of RGBA8 pixels takes.
pub open spec fn rgba_len(width: u32, height: u32) -> int {
    4 * (width * height)
}

impl Raster {
    /// The pixels are all there, and nothing else.
    pub open spec fn wf(self) -> bool {
        self.pixels@.len() == rgba_len(self.width, self.height)
    }

    pub open spec fn content(self) -> (Seq<u8>, u32, u32) {
        (self.pixels@, self.width, self.height)
    }
}

/// A decoded, RGBA image together with the geographic area it covers.
pub struct GeoImage {
    pub bounds: GeoBounds,
    /// Raw RGBA8 pixels, row-major from top-left.
    pub pixels: Vec<u8>,
    pub width: u32,
    pub height: u32,
}

impl GeoImage {
    /// The pixels are all there, and nothing else.
    pub open spec fn wf(self) -> bool {
        self.pixels@.len() == rgba_len(self.width, self.height)
    }

    /// The picture, without the area it covers.
    pub open spec fn content(self) -> (Seq<u8>, u32, u32) {
        (self.pixels@, self.width, self.height)
    }
}

impl Clone for GeoImage {
    fn clone(&self) -> (r: GeoImage)
        ensures
            r.bounds == self.bounds,
            r.content() == self.content(),
    {
        let r = GeoImage {
            bounds: self.bounds,
            pixels: self.pixels.clone(),
            width: self.width,
            height: self.height,
        };
        assert(r.pixels@ =~= self.pixels@);
        r
    }
}

/// What the image decoder makes of an encoded picture: its pixels as RGBA8,
/// its width and its height, or the decoder's message.
pub uninterp spec fn decoded_image(bytes: Seq<u8>) -> Result<(Seq<u8>, u32, u32), Seq<char>>;

/// `image::load_from_memory`, its result turned into RGBA8 pixels with
/// `into_rgba8`. The contract names what comes back for the bytes, and says
/// that a decoded picture has four bytes for each pixel.
#[verifier::external_body]
pub(crate) fn load_raster(bytes: &[u8]) -> (r: Result<Raster, String>)
    ensures
        match r {
            Ok(picture) => decoded_image(bytes@) == Ok::<(Seq<u8>, u32, u32), Seq<char>>(
                picture.content(),
            ) && picture.wf(),
            Err(message) => decoded_image(bytes@) == Err::<(Seq<u8>, u32, u32), Seq<char>>(
                message@,
            ),
        },
{
    let rgba = image::load_from_memory(bytes).map_err(|e| e.to_string())?.into_rgba8();
    let (width, height) = rgba.dimensions();
    Ok(Raster { pixels: rgba.into_raw(), width, height })
}

/// Places a decoded picture on the map. A picture that could not be decoded
/// becomes the error `failure`.
pub fn place_raster(decoded: Result<Raster, String>, bounds: GeoBounds, failure: &str) -> (r: Result<
    GeoImage,
    String,
>)
    ensures
        match r {
            Ok(image) => decoded matches Ok(picture) && image.bounds == bounds && image.content()
                == picture.content(),
            Err(e) => decoded is Err && e@ == failure@,
        },
{
    match decoded {
        Ok(picture) => Ok(
            GeoImage {
                bounds,
                pixels: picture.pixels,
                width: picture.width,
                height: picture.height,
            },
        ),
        Err(_) => Err(failure.to_owned()),
    }
}

/// Boxes with numbers for sides overlap exactly if each begins, in both
/// directions, before the other ends. A box with a side that is not a number
/// overlaps none.
pub proof fn overlap_is_decided_by_the_sides(a: GeoBounds, b: GeoBounds)
    ensures
        a.is_numeric() && b.is_numeric() ==> (a.overlaps(b) <==> a.min_lon.value()
            < b.max_lon.value() && b.min_lon.value() < a.max_lon.value() && a.min_lat.value()
            < b.max_lat.value() && b.min_lat.value() < a.max_lat.value()),
        !a.is_numeric() || !b.is_numeric() ==> !a.overlaps(b),
        a.is_numeric() <==> !a.min_lon.is_nan() && !a.min_lat.is_nan() && !a.max_lon.is_nan()
            && !a.max_lat.is_nan(),
{
}

/// Each side of the union is a side of one of the boxes, and lies no further in
/// than those of both. A side that is not a number gives way to the other.
pub proof fn union_takes_the_outer_sides(a: GeoBounds, b: GeoBounds)
    ensures
        a.hull(b).min_lon == a.min_lon || a.hull(b).min_lon == b.min_lon,
        a.hull(b).min_lat == a.min_lat || a.hull(b).min_lat == b.min_lat,
        a.hull(b).max_lon == a.max_lon || a.hull(b).max_lon == b.max_lon,
        a.hull(b).max_lat == a.max_lat || a.hull(b).max_lat == b.max_lat,
        a.is_numeric() && b.is_numeric() ==> {
            &&& a.hull(b).min_lon.value() <= a.min_lon.value()
            &&& a.hull(b).min_lon.value() <= b.min_lon.value()
            &&& a.hull(b).min_lat.value() <= a.min_lat.value()
            &&& a.hull(b).min_lat.value() <= b.min_lat.value()
            &&& a.hull(b).max_lon.value() >= a.max_lon.value()
            &&& a.hull(b).max_lon.value() >= b.max_lon.value()
            &&& a.hull(b).max_lat.value() >= a.max_lat.value()
            &&& a.hull(b).max_lat.value() >= b.max_lat.value()
        },
        a.min_lon.is_nan() ==> a.hull(b).min_lon == b.min_lon,
        a.min_lat.is_nan() ==> a.hull(b).min_lat == b.min_lat,
        a.max_lon.is_nan() ==> a.hull(b).max_lon == b.max_lon,
        a.max_lat.is_nan() ==> a.hull(b).max_lat == b.max_lat,
        b.min_lon.is_nan() ==> a.hull(b).min_lon == if a.min_lon.is_nan() {
            b.min_lon
        } else {
            a.min_lon
        },
        b.min_lat.is_nan() ==> a.hull(b).min_lat == if a.min_lat.is_nan() {
            b.min_lat
        } else {
            a.min_lat
        },
        b.max_lon.is_nan() ==> a.hull(b).max_lon == if a.max_lon.is_nan() {
            b.max_lon
        } else {
            a.max_lon
        },
        b.max_lat.is_nan() ==> a.hull(b).max_lat == if a.max_lat.is_nan() {
            b.max_lat
        } else {
            a.max_lat
        },
{
}

/// Two boxes are the same exactly if all four sides are equal numbers.
pub proof fn boxes_are_the_same_by_their_sides(a: GeoBounds, b: GeoBounds)
    ensures
        a.same(b) <==> a.is_numeric() && b.is_numeric() && a.min_lon.value() == b.min_lon.value()
            && a.min_lat.value() == b.min_lat.value() && a.max_lon.value() == b.max_lon.value()
            && a.max_lat.value() == b.max_lat.value(),
{
}

/// A whole picture has four bytes for each pixel of each row.
pub proof fn pictures_have_four_bytes_per_pixel(picture: Raster, image: GeoImage, w: u32, h: u32)
    ensures
        rgba_len(w, h) == 4 * (w * h),
        picture.wf() <==> picture.pixels@.len() == 4 * (picture.width * picture.height),
        image.wf() <==> image.pixels@.len() == 4 * (image.width * image.height),
        picture.content() == (picture.pixels@, picture.width, picture.height),
        image.content() == (image.pixels@, image.width, image.height),
{
}

} // verus!

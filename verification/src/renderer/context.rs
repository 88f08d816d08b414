//! The surface that the window shows.

use vstd::prelude::*;

verus! {

/// The size of the configured surface, in pixels.
#[derive(Clone, Copy, Debug, PartialEq, Eq, Structural)]
pub struct GpuContext {
    pub width: u32,
    pub height: u32,
}

impl GpuContext {
    /// A surface has at least one pixel each way.
    pub open spec fn wf(self) -> bool {
        self.width > 0 && self.height > 0
    }

    /// The surface for a window of this size.
    pub fn new(width: u32, height: u32) -> (r: GpuContext)
        ensures
            r.width == if width == 0 {
                1
            } else {
                width
            },
            r.height == if height == 0 {
                1
            } else {
                height
            },
            r.wf(),
    {
        GpuContext {
            width: if width == 0 {
                1
            } else {
                width
            },
            height: if height == 0 {
                1
            } else {
                height
            },
        }
    }

    /// Follows the window to a new size. The answer says whether the surface
    /// has to be configured again: a window without area leaves it as it is.
    pub fn reconfigure(&mut self, width: u32, height: u32) -> (r: bool)
        ensures
            r == (width > 0 && height > 0),
            *final(self) == if r {
                (GpuContext { width, height })
            } else {
                *old(self)
            },
            old(self).wf() ==> final(self).wf(),
    {
        if width == 0 || height == 0 {
            return false;
        }
        self.width = width;
        self.height = height;
        true
    }

    pub fn size(&self) -> (r: (u32, u32))
        ensures
            r == (self.width, self.height),
    {
        (self.width, self.height)
    }
}

/// Which surface format to use: the first sRGB one, or else the first.
/// `is_srgb` says of each format that the surface supports whether it is sRGB.
pub fn choose_format(is_srgb: &Vec<bool>) -> (r: usize)
    requires
        is_srgb@.len() > 0,
    ensures
        r < is_srgb@.len(),
        is_srgb@[r as int] || r == 0,
        forall|i: int| 0 <= i < r ==> !#[trigger] is_srgb@[i],
        !is_srgb@[r as int] ==> forall|i: int| 0 <= i < is_srgb@.len() ==> !#[trigger] is_srgb@[i],
{
    let n: usize = is_srgb.len();
    for i in 0..n
        invariant
            n == is_srgb@.len(),
            forall|j: int| 0 <= j < i ==> !#[trigger] is_srgb@[j],
    {
        if is_srgb[i] {
            return i;
        }
    }
    0
}

} // verus!

//! The output pixel buffer: a flat row-major array of linear fixed-point
//! colors, with exclusive per-cell writes and alpha blending.

use vstd::prelude::*;
use crate::color::Col3q;
use crate::scalar::{q_sub, q_sub_spec, ONE};

verus! {

/// A width x height buffer of colors, row-major.
pub struct Image {
    pub width: usize,
    pub height: usize,
    pub data: Vec<Col3q>,
}

/// The pixel of a row-major buffer at `(x, y)`.
pub open spec fn pixel_at_spec(data: Seq<Col3q>, width: int, x: int, y: int) -> Col3q {
    data[y * width + x]
}

/// The blend of a new color over an existing pixel:
/// `alpha * color + (1 - alpha) * pixel`.
pub open spec fn over_spec(pixel: Col3q, color: Col3q, alpha: int) -> Col3q {
    color.scaled_spec(alpha).add_spec(pixel.scaled_spec(q_sub_spec(ONE as int, alpha)))
}

impl Image {
    /// The buffer holds exactly one color per cell.
    pub open spec fn wf(self) -> bool {
        self.data@.len() == self.width * self.height
    }

    /// An empty, zero-sized image.
    pub fn new() -> (img: Image)
        ensures
            img.width == 0,
            img.height == 0,
            img.wf(),
    {
        Image { width: 0, height: 0, data: Vec::new() }
    }

    /// A white image of the given dimensions.
    pub fn with_dimensions(width: usize, height: usize) -> (img: Image)
        requires
            width * height <= usize::MAX,
        ensures
            img.width == width,
            img.height == height,
            img.wf(),
            forall|i: int|
                0 <= i < width * height ==> img.data@[i] == (Col3q { r: ONE, g: ONE, b: ONE }),
    {
        let total: usize = width * height;
        let mut data: Vec<Col3q> = Vec::new();
        let mut i: usize = 0;
        while i < total
            invariant
                i <= total,
                data@.len() == i,
                forall|j: int| 0 <= j < i ==> data@[j] == (Col3q { r: ONE, g: ONE, b: ONE }),
            decreases total - i,
        {
            data.push(Col3q::white());
            i = i + 1;
        }
        Image { width, height, data }
    }

    /// Read the pixel at `(x, y)`.
    pub fn index_2d(&self, x: usize, y: usize) -> (c: &Col3q)
        requires
            self.wf(),
            x < self.width,
            y < self.height,
        ensures
            *c == self.data@[y * self.width + x],
    {
        proof {
            lemma_row_major_index_in_range(self.width as int, self.height as int, x as int,
                y as int);
        }
        let len: usize = self.data.len();
        &self.data[y * self.width + x]
    }

    /// Overwrite the pixel at `(x, y)`.
    pub fn set_2d(&mut self, x: usize, y: usize, color: Col3q)
        requires
            old(self).wf(),
            x < old(self).width,
            y < old(self).height,
        ensures
            final(self).width == old(self).width,
            final(self).height == old(self).height,
            final(self).data@ == old(self).data@.update(y * old(self).width + x, color),
            final(self).wf(),
    {
        proof {
            lemma_row_major_index_in_range(self.width as int, self.height as int, x as int,
                y as int);
        }
        let len: usize = self.data.len();
        let idx: usize = y * self.width + x;
        self.data[idx] = color;
    }

    /// Blend a color over the pixel at `(x, y)` with the given opacity;
    /// writes outside the buffer are ignored.
    pub fn over(&mut self, x: usize, y: usize, color: Col3q, alpha: i64)
        requires
            old(self).wf(),
        ensures
            final(self).width == old(self).width,
            final(self).height == old(self).height,
            final(self).wf(),
            x < old(self).width && y < old(self).height ==> final(self).data@ == old(
            self).data@.update(
                y * old(self).width + x,
                over_spec(old(self).data@[y * old(self).width + x], color, alpha as int),
            ),
            !(x < old(self).width && y < old(self).height) ==> *final(self) == *old(self),
    {
        if x >= self.width || y >= self.height {
            return ;
        }
        proof {
            lemma_row_major_index_in_range(self.width as int, self.height as int, x as int,
                y as int);
        }
        let len: usize = self.data.len();
        let idx: usize = y * self.width + x;
        let pixel: Col3q = self.data[idx];
        let result: Col3q = color.scaled(alpha).add(pixel.scaled(q_sub(ONE, alpha)));
        self.data[idx] = result;
    }
}

/// The pixel data after blending a color over the cell at signed
/// coordinates: unchanged when the cell lies outside the buffer.
pub open spec fn over_cell_spec(
    data: Seq<Col3q>,
    width: int,
    height: int,
    x: int,
    y: int,
    color: Col3q,
    alpha: int,
) -> Seq<Col3q> {
    if 0 <= x < width && 0 <= y < height {
        data.update(y * width + x, over_spec(data[y * width + x], color, alpha))
    } else {
        data
    }
}

impl Image {
    /// Blend a color over a signed pixel coordinate; writes outside the
    /// buffer, including at negative coordinates, are ignored.
    pub fn over_signed(&mut self, x: i32, y: i32, color: Col3q, alpha: i64)
        requires
            old(self).wf(),
        ensures
            final(self).width == old(self).width,
            final(self).height == old(self).height,
            final(self).data@ == over_cell_spec(old(self).data@, old(self).width as int, old(
            self).height as int, x as int, y as int, color, alpha as int),
            final(self).wf(),
    {
        if x >= 0 && y >= 0 {
            self.over(x as usize, y as usize, color, alpha);
        }
    }
}

/// A row-major cell index lies inside the flat buffer.
proof fn lemma_row_major_index_in_range(width: int, height: int, x: int, y: int)
    by (nonlinear_arith)
    requires
        0 <= x < width,
        0 <= y < height,
    ensures
        0 <= y * width + x < width * height,
{
}

} // verus!

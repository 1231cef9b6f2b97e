use vstd::prelude::*;

verus! {

/// A byte of an sRGB-like encoded channel brought back to linear scale:
/// the channel, read as a fraction of 255, squared.
pub open spec fn gamma_decoded(b: u8) -> u8 {
    ((b as int * b as int) / 255) as u8
}

/// Decodes one gamma-encoded channel byte.
pub fn decode_gamma(b: u8) -> (r: u8)
    ensures
        r == gamma_decoded(b),
{
    assert(b as int * b as int <= 255 * 255) by (nonlinear_arith);
    let square = b as u32 * b as u32;
    (square / 255) as u8
}

/// An image as rows of RGB byte triples with linear channel values, sampled
/// by nearest neighbour.
pub struct ImageTexture {
    data: Vec<u8>,
    width: usize,
    height: usize,
    bytes_per_scanline: usize,
}

impl ImageTexture {
    pub closed spec fn spec_data(&self) -> Seq<u8> {
        self.data@
    }

    pub closed spec fn spec_width(&self) -> nat {
        self.width as nat
    }

    pub closed spec fn spec_height(&self) -> nat {
        self.height as nat
    }

    /// Bytes in one row of texels.
    pub closed spec fn spec_bytes_per_scanline(&self) -> nat {
        self.bytes_per_scanline as nat
    }

    /// A row holds three bytes per texel, and the buffer holds exactly
    /// `height` rows.
    pub open spec fn wf(&self) -> bool {
        &&& self.spec_bytes_per_scanline() == 3 * self.spec_width()
        &&& self.spec_data().len() == self.spec_height() * self.spec_bytes_per_scanline()
    }

    /// Buffer position of the first channel of texel (i, j).
    pub open spec fn offset_of(&self, i: int, j: int) -> int {
        j * 3 * self.spec_width() + 3 * i
    }

    /// A texture from `width * height` RGB triples, row by row, whose bytes
    /// are gamma encoded; each byte is decoded. `None` when the buffer does not
    /// hold exactly that many triples, or when a row's bytes cannot be
    /// counted in a `usize`.
    pub fn from_raw(raw: Vec<u8>, width: usize, height: usize) -> (r: Option<ImageTexture>)
        ensures
            r is Some <==> raw@.len() == 3 * width * height && 3 * width <= usize::MAX,
            r matches Some(t) ==> {
                &&& t.wf()
                &&& t.spec_width() == width
                &&& t.spec_height() == height
                &&& t.spec_data() == raw@.map_values(|b: u8| gamma_decoded(b))
            },
    {
        let bytes_per_scanline = match width.checked_mul(3) {
            Some(n) => n,
            None => {
                return None;
            },
        };
        let len = raw.len();
        let total = match bytes_per_scanline.checked_mul(height) {
            Some(n) => n,
            None => {
                return None;
            },
        };
        if len != total {
            return None;
        }
        let mut data: Vec<u8> = Vec::new();
        let mut k: usize = 0;
        while k < raw.len()
            invariant
                k <= raw@.len(),
                data@ =~= raw@.take(k as int).map_values(|b: u8| gamma_decoded(b)),
            decreases raw@.len() - k,
        {
            data.push(decode_gamma(raw[k]));
            k = k + 1;
        }
        proof {
            assert(raw@.take(raw@.len() as int) =~= raw@);
            assert(height * (3 * width) == 3 * width * height) by (nonlinear_arith);
        }
        Some(ImageTexture { data, width, height, bytes_per_scanline })
    }

    /// Width in texels.
    pub fn width(&self) -> (r: usize)
        ensures
            r == self.spec_width(),
    {
        self.width
    }

    /// Height in texels.
    pub fn height(&self) -> (r: usize)
        ensures
            r == self.spec_height(),
    {
        self.height
    }

    /// The RGB bytes of texel (i, j), counted from the top-left corner, with
    /// each coordinate clamped to the last column or row; `None` for an image
    /// without texels.
    pub fn texel(&self, i: usize, j: usize) -> (r: Option<(u8, u8, u8)>)
        requires
            self.wf(),
        ensures
            r is None <==> self.spec_data().len() == 0,
            r matches Some(rgb) ==> {
                let ci = if i < self.spec_width() { i as int } else { self.spec_width() - 1 };
                let cj = if j < self.spec_height() { j as int } else { self.spec_height() - 1 };
                let at = self.offset_of(ci, cj);
                &&& rgb.0 == self.spec_data()[at]
                &&& rgb.1 == self.spec_data()[at + 1]
                &&& rgb.2 == self.spec_data()[at + 2]
            },
    {
        if self.data.len() == 0 {
            return None;
        }
        proof {
            assert(self.width > 0 && self.height > 0) by (nonlinear_arith)
                requires self.data@.len() == self.height * (3 * self.width), self.data@.len() > 0;
        }
        let ci = if i < self.width { i } else { self.width - 1 };
        let cj = if j < self.height { j } else { self.height - 1 };
        proof {
            let w = self.width as int;
            let h = self.height as int;
            assert(cj * (3 * w) + 3 * ci + 2 < h * (3 * w)) by (nonlinear_arith)
                requires 0 <= ci < w, 0 <= cj < h;
            assert(cj * (3 * w) == cj * 3 * w) by (nonlinear_arith);
            assert(0 <= cj * (3 * w)) by (nonlinear_arith) requires 0 <= cj, 0 <= w;
        }
        let index = cj * self.bytes_per_scanline + ci * 3;
        Some((self.data[index], self.data[index + 1], self.data[index + 2]))
    }
}

} // verus!

//! A fixed-size grid of colours, stored row by row.
use crate::change::ResizeAnchor;
use crate::color::Color;
use vstd::prelude::*;

verus! {

/// Why a canvas operation was refused; the canvas is then left as it was.
#[derive(Clone, Copy, Debug, PartialEq, Eq, Structural)]
pub enum CanvasError {
    /// The coordinates lie outside a canvas of these dimensions.
    OutOfBounds { width: usize, height: usize },
    /// These dimensions cannot hold a canvas: one is zero, or there are more
    /// pixels than memory can address, or the pixel data does not match them.
    InvalidDimensions { width: usize, height: usize },
}

/// The mathematical content of a canvas: its dimensions and its pixels, the
/// pixel `(x, y)` standing at index `y * width + x`.
pub struct CanvasModel {
    pub width: nat,
    pub height: nat,
    pub pixels: Seq<Color>,
}

impl CanvasModel {
    pub open spec fn wf(self) -> bool {
        &&& dims_fit(self.width as int, self.height as int)
        &&& self.pixels.len() == self.width * self.height
    }

    pub open spec fn contains(self, x: int, y: int) -> bool {
        0 <= x < self.width && 0 <= y < self.height
    }

    pub open spec fn pixel(self, x: int, y: int) -> Color {
        self.pixels[y * self.width + x]
    }

    /// The canvas with pixel `(x, y)` set to `c`.
    pub open spec fn painted(self, x: int, y: int, c: Color) -> CanvasModel {
        CanvasModel { pixels: self.pixels.update(y * self.width + x, c), ..self }
    }
}

/// Dimensions that a canvas can have.
pub open spec fn dims_fit(width: int, height: int) -> bool {
    width > 0 && height > 0 && width * height <= usize::MAX
}

/// A white canvas of the given dimensions.
pub open spec fn blank(width: nat, height: nat) -> CanvasModel {
    CanvasModel {
        width,
        height,
        pixels: Seq::new(width * height, |i: int| Color::spec_white()),
    }
}

/// Where the old content's top-left corner lands when a canvas of
/// `old_w × old_h` is resized to `new_w × new_h`.
pub open spec fn anchor_offset(
    anchor: ResizeAnchor,
    old_w: int,
    old_h: int,
    new_w: int,
    new_h: int,
) -> (int, int) {
    let gx = if new_w > old_w { new_w - old_w } else { 0 };
    let gy = if new_h > old_h { new_h - old_h } else { 0 };
    match anchor {
        ResizeAnchor::TopLeft => (0, 0),
        ResizeAnchor::TopRight => (gx, 0),
        ResizeAnchor::BottomLeft => (0, gy),
        ResizeAnchor::BottomRight => (gx, gy),
        ResizeAnchor::Center => (gx / 2, gy / 2),
    }
}

/// The pixel `(x, y)` of `m` resized to `new_w × new_h`: the old pixel that the
/// anchor's offset moves there, or white where none does.
pub open spec fn resized_pixel(
    m: CanvasModel,
    anchor: ResizeAnchor,
    new_w: nat,
    new_h: nat,
    x: int,
    y: int,
) -> Color {
    let (ox, oy) = anchor_offset(anchor, m.width as int, m.height as int, new_w as int, new_h as int);
    if ox <= x < ox + m.width && oy <= y < oy + m.height {
        m.pixel(x - ox, y - oy)
    } else {
        Color::spec_white()
    }
}

/// `m` resized to `new_w × new_h`; old pixels moved outside the new bounds are
/// dropped.
pub open spec fn resized(m: CanvasModel, new_w: nat, new_h: nat, anchor: ResizeAnchor) -> CanvasModel {
    CanvasModel {
        width: new_w,
        height: new_h,
        pixels: Seq::new(
            new_w * new_h,
            |i: int| resized_pixel(m, anchor, new_w, new_h, i % (new_w as int), i / (new_w as int)),
        ),
    }
}

/// A grid of `width × height` colours.
#[derive(Debug)]
pub struct Canvas {
    width: usize,
    height: usize,
    pixels: Vec<Color>,
}

proof fn lemma_index_in_grid(x: int, y: int, w: int, h: int)
    requires
        0 <= x < w,
        0 <= y < h,
    ensures
        0 <= y * w + x < w * h,
        (y * w + x) % w == x,
        (y * w + x) / w == y,
{
    assert(0 <= y * w) by (nonlinear_arith)
        requires
            0 <= y,
            0 <= w,
    ;
    assert(y * w + x < w * h) by (nonlinear_arith)
        requires
            0 <= x < w,
            0 <= y < h,
    ;
    vstd::arithmetic::div_mod::lemma_fundamental_div_mod_converse(y * w + x, w, y, x);
}

fn white_pixels(n: usize) -> (r: Vec<Color>)
    ensures
        r@ == Seq::new(n as nat, |i: int| Color::spec_white()),
{
    let mut v: Vec<Color> = Vec::new();
    let mut i: usize = 0;
    while i < n
        invariant
            i <= n,
            v@ == Seq::new(i as nat, |j: int| Color::spec_white()),
        decreases n - i,
    {
        v.push(Color::white());
        i = i + 1;
        assert(v@ =~= Seq::new(i as nat, |j: int| Color::spec_white()));
    }
    v
}

impl View for Canvas {
    type V = CanvasModel;

    closed spec fn view(&self) -> CanvasModel {
        CanvasModel { width: self.width as nat, height: self.height as nat, pixels: self.pixels@ }
    }
}

impl Canvas {
    #[verifier::type_invariant]
    spec fn inv(self) -> bool {
        self@.wf()
    }

    /// A white canvas of the given dimensions.
    pub fn new(width: usize, height: usize) -> (r: Result<Canvas, CanvasError>)
        ensures
            match r {
                Ok(c) => dims_fit(width as int, height as int) && c@.wf() && c@ == blank(
                    width as nat,
                    height as nat,
                ),
                Err(e) => !dims_fit(width as int, height as int) && e == (CanvasError::InvalidDimensions { width, height }),
            },
    {
        if width == 0 || height == 0 {
            return Err(CanvasError::InvalidDimensions { width, height });
        }
        let n = match width.checked_mul(height) {
            Some(n) => n,
            None => {
                return Err(CanvasError::InvalidDimensions { width, height });
            },
        };
        let pixels = white_pixels(n);
        let c = Canvas { width, height, pixels };
        assert(c@ =~= blank(width as nat, height as nat));
        Ok(c)
    }

    /// A canvas made of stored parts; refused unless the dimensions are
    /// non-zero and the pixels are exactly `width * height`.
    pub fn from_parts(width: usize, height: usize, pixels: Vec<Color>) -> (r: Result<
        Canvas,
        CanvasError,
    >)
        ensures
            match r {
                Ok(c) => c@ == (CanvasModel {
                    width: width as nat,
                    height: height as nat,
                    pixels: pixels@,
                }),
                Err(e) => e == (CanvasError::InvalidDimensions { width, height }),
            },
            r is Ok <==> (CanvasModel {
                width: width as nat,
                height: height as nat,
                pixels: pixels@,
            }).wf(),
    {
        if width == 0 || height == 0 {
            return Err(CanvasError::InvalidDimensions { width, height });
        }
        match width.checked_mul(height) {
            Some(n) => {
                if pixels.len() != n {
                    return Err(CanvasError::InvalidDimensions { width, height });
                }
            },
            None => {
                proof {
                    if pixels@.len() == width * height {
                        assert(pixels.len() <= usize::MAX);
                    }
                }
                return Err(CanvasError::InvalidDimensions { width, height });
            },
        }
        Ok(Canvas { width, height, pixels })
    }

    /// A copy of this canvas.
    pub fn duplicate(&self) -> (r: Canvas)
        ensures
            r@ == self@,
            r@.wf(),
    {
        proof {
            use_type_invariant(self);
        }
        let mut pixels: Vec<Color> = Vec::new();
        let mut i: usize = 0;
        while i < self.pixels.len()
            invariant
                i <= self.pixels@.len(),
                pixels@ == self.pixels@.take(i as int),
            decreases self.pixels@.len() - i,
        {
            pixels.push(self.pixels[i]);
            i = i + 1;
            assert(pixels@ =~= self.pixels@.take(i as int));
        }
        assert(pixels@ =~= self.pixels@);
        Canvas { width: self.width, height: self.height, pixels }
    }

    pub fn width(&self) -> (r: usize)
        ensures
            r == self@.width,
    {
        self.width
    }

    pub fn height(&self) -> (r: usize)
        ensures
            r == self@.height,
    {
        self.height
    }

    /// The pixels, row by row.
    pub fn pixels(&self) -> (r: &Vec<Color>)
        ensures
            r@ == self@.pixels,
    {
        &self.pixels
    }

    /// Sets pixel `(x, y)`; out of bounds, nothing changes.
    pub fn set_pixel(&mut self, x: usize, y: usize, color: Color) -> (r: Result<(), CanvasError>)
        ensures
            old(self)@.wf(),
            final(self)@.wf(),
            if old(self)@.contains(x as int, y as int) {
                &&& r is Ok
                &&& final(self)@ == old(self)@.painted(x as int, y as int, color)
            } else {
                &&& r == Err::<(), CanvasError>(
                    CanvasError::OutOfBounds { width: old(self)@.width as usize, height: old(self)@.height as usize },
                )
                &&& final(self)@ == old(self)@
            },
    {
        proof {
            use_type_invariant(&*self);
        }
        if x >= self.width || y >= self.height {
            return Err(CanvasError::OutOfBounds { width: self.width, height: self.height });
        }
        proof {
            lemma_index_in_grid(x as int, y as int, self.width as int, self.height as int);
        }
        let index = y * self.width + x;
        self.pixels[index] = color;
        Ok(())
    }

    /// The colour of pixel `(x, y)`.
    pub fn get_pixel(&self, x: usize, y: usize) -> (r: Result<Color, CanvasError>)
        ensures
            self@.wf(),
            if self@.contains(x as int, y as int) {
                r == Ok::<Color, CanvasError>(self@.pixel(x as int, y as int))
            } else {
                r == Err::<Color, CanvasError>(
                    CanvasError::OutOfBounds { width: self@.width as usize, height: self@.height as usize },
                )
            },
    {
        proof {
            use_type_invariant(self);
        }
        if x >= self.width || y >= self.height {
            return Err(CanvasError::OutOfBounds { width: self.width, height: self.height });
        }
        proof {
            lemma_index_in_grid(x as int, y as int, self.width as int, self.height as int);
        }
        let index = y * self.width + x;
        Ok(self.pixels[index])
    }

    /// Gives the canvas new dimensions. The old content keeps its place
    /// relative to the anchor; new area is white and what falls outside is
    /// dropped.
    pub fn resize(&mut self, new_width: usize, new_height: usize, anchor: ResizeAnchor) -> (r:
        Result<(), CanvasError>)
        ensures
            old(self)@.wf(),
            final(self)@.wf(),
            if dims_fit(new_width as int, new_height as int) {
                &&& r is Ok
                &&& final(self)@ == resized(old(self)@, new_width as nat, new_height as nat, anchor)
            } else {
                &&& r == Err::<(), CanvasError>(
                    CanvasError::InvalidDimensions { width: new_width, height: new_height },
                )
                &&& final(self)@ == old(self)@
            },
    {
        proof {
            use_type_invariant(&*self);
        }
        if new_width == 0 || new_height == 0 {
            return Err(CanvasError::InvalidDimensions { width: new_width, height: new_height });
        }
        if new_width.checked_mul(new_height).is_none() {
            return Err(CanvasError::InvalidDimensions { width: new_width, height: new_height });
        }
        let ghost m = self@;
        let old_w = self.width;
        let old_h = self.height;
        let gx = new_width.saturating_sub(old_w);
        let gy = new_height.saturating_sub(old_h);
        let (ox, oy) = match anchor {
            ResizeAnchor::TopLeft => (0, 0),
            ResizeAnchor::TopRight => (gx, 0),
            ResizeAnchor::BottomLeft => (0, gy),
            ResizeAnchor::BottomRight => (gx, gy),
            ResizeAnchor::Center => (gx / 2, gy / 2),
        };
        assert((ox as int, oy as int) == anchor_offset(
            anchor,
            old_w as int,
            old_h as int,
            new_width as int,
            new_height as int,
        ));
        let mut new_pixels: Vec<Color> = Vec::new();
        let mut ny: usize = 0;
        while ny < new_height
            invariant
                m == self@,
                m.wf(),
                old_w == m.width,
                old_h == m.height,
                ny <= new_height,
                new_width > 0,
                new_width * new_height <= usize::MAX,
                (ox as int, oy as int) == anchor_offset(
                    anchor,
                    old_w as int,
                    old_h as int,
                    new_width as int,
                    new_height as int,
                ),
                new_pixels@.len() == ny * new_width,
                forall|k: int|
                    0 <= k < new_pixels@.len() ==> #[trigger] new_pixels@[k] == resized_pixel(
                        m,
                        anchor,
                        new_width as nat,
                        new_height as nat,
                        k % (new_width as int),
                        k / (new_width as int),
                    ),
            decreases new_height - ny,
        {
            let mut nx: usize = 0;
            while nx < new_width
                invariant
                    m == self@,
                    m.wf(),
                    old_w == m.width,
                    old_h == m.height,
                    ny < new_height,
                    nx <= new_width,
                    new_width * new_height <= usize::MAX,
                    (ox as int, oy as int) == anchor_offset(
                        anchor,
                        old_w as int,
                        old_h as int,
                        new_width as int,
                        new_height as int,
                    ),
                    new_pixels@.len() == ny * new_width + nx,
                    forall|k: int|
                        0 <= k < new_pixels@.len() ==> #[trigger] new_pixels@[k] == resized_pixel(
                            m,
                            anchor,
                            new_width as nat,
                            new_height as nat,
                            k % (new_width as int),
                            k / (new_width as int),
                        ),
                decreases new_width - nx,
            {
                proof {
                    lemma_index_in_grid(nx as int, ny as int, new_width as int, new_height as int);
                }
                let c = if nx >= ox && nx - ox < old_w && ny >= oy && ny - oy < old_h {
                    proof {
                        lemma_index_in_grid(
                            (nx - ox) as int,
                            (ny - oy) as int,
                            old_w as int,
                            old_h as int,
                        );
                    }
                    self.pixels[(ny - oy) * old_w + (nx - ox)]
                } else {
                    Color::white()
                };
                new_pixels.push(c);
                nx = nx + 1;
            }
            assert((ny + 1) * new_width == ny * new_width + new_width) by (nonlinear_arith);
            ny = ny + 1;
        }
        assert(new_height * new_width == new_width * new_height) by (nonlinear_arith);
        assert(new_pixels@ =~= resized(m, new_width as nat, new_height as nat, anchor).pixels);
        *self = Canvas { width: new_width, height: new_height, pixels: new_pixels };
        Ok(())
    }
}

} // verus!

use vstd::prelude::*;

verus! {

/// The mathematical content of a raster: its size and its RGBA bytes, row by
/// row from the top, four bytes to a pixel.
pub struct Image {
    pub width: nat,
    pub height: nat,
    pub pixels: Seq<u8>,
}

impl Image {
    /// There are exactly four bytes for each pixel.
    pub open spec fn wf(self) -> bool {
        self.pixels.len() == 4 * self.width * self.height
    }

    /// Channel `c` (0 to 3) of the pixel in column `x` of row `y`.
    pub open spec fn channel(self, x: int, y: int, c: int) -> u8 {
        self.pixels[4 * (y * self.width + x) + c]
    }

    /// No pixel lets anything show through.
    pub open spec fn opaque(self) -> bool {
        forall|x: int, y: int|
            0 <= x < self.width && 0 <= y < self.height ==> #[trigger] self.channel(x, y, 3) == 255
    }

    /// The four bytes of the pixel in column `x` of row `y`.
    pub open spec fn pixel(self, x: int, y: int) -> Seq<u8> {
        self.pixels.subrange(4 * (y * self.width + x), 4 * (y * self.width + x) + 4)
    }

    /// The image of the given size whose channels are given by `f(x, y, c)`.
    pub open spec fn from_fn(width: nat, height: nat, f: spec_fn(int, int, int) -> u8) -> Image {
        Image {
            width,
            height,
            pixels: Seq::new(
                4 * width * height,
                |i: int| f((i / 4) % (width as int), (i / 4) / (width as int), i % 4),
            ),
        }
    }

    /// The image with the given width, height and bytes.
    pub open spec fn of(t: (nat, nat, Seq<u8>)) -> Image {
        Image { width: t.0, height: t.1, pixels: t.2 }
    }

    /// The image of one colour.
    pub open spec fn solid(width: nat, height: nat, r: u8, g: u8, b: u8, a: u8) -> Image {
        Image::from_fn(
            width,
            height,
            |x: int, y: int, c: int|
                if c == 0 {
                    r
                } else if c == 1 {
                    g
                } else if c == 2 {
                    b
                } else {
                    a
                },
        )
    }

    /// The part of the image that starts at `(x0, y0)` and has the given size.
    pub open spec fn crop(self, x0: int, y0: int, width: nat, height: nat) -> Image {
        Image::from_fn(width, height, |x: int, y: int, c: int| self.channel(x0 + x, y0 + y, c))
    }

    /// The image turned a quarter turn clockwise.
    pub open spec fn rotate90(self) -> Image {
        Image::from_fn(
            self.height,
            self.width,
            |x: int, y: int, c: int| self.channel(y, self.height - 1 - x, c),
        )
    }

    /// The image turned half a turn.
    pub open spec fn rotate180(self) -> Image {
        Image::from_fn(
            self.width,
            self.height,
            |x: int, y: int, c: int| self.channel(self.width - 1 - x, self.height - 1 - y, c),
        )
    }

    /// The image turned three quarter turns clockwise.
    pub open spec fn rotate270(self) -> Image {
        Image::from_fn(
            self.height,
            self.width,
            |x: int, y: int, c: int| self.channel(self.width - 1 - y, x, c),
        )
    }

    /// The image turned `q` quarter turns clockwise; any `q` but 1, 2 and 3
    /// leaves it as it is.
    pub open spec fn rotate(self, q: int) -> Image {
        if q == 1 {
            self.rotate90()
        } else if q == 2 {
            self.rotate180()
        } else if q == 3 {
            self.rotate270()
        } else {
            self
        }
    }

    /// The image resampled to fit `nwidth` by `nheight`; an image that
    /// already has that size is unchanged.
    pub open spec fn resize(self, nwidth: nat, nheight: nat) -> Image {
        if nwidth == self.width && nheight == self.height {
            self
        } else {
            Image::of(resampled(self.width, self.height, self.pixels, nwidth, nheight))
        }
    }

    /// This image with `top` laid over it, the top left corner of `top` at
    /// `(x, y)`, which may lie outside; what of `top` falls outside is
    /// dropped.
    pub open spec fn overlay(self, top: Image, x: int, y: int) -> Image {
        Image::from_fn(
            self.width,
            self.height,
            |bx: int, by: int, c: int|
                if x <= bx < x + top.width && y <= by < y + top.height {
                    blend(self.pixel(bx, by), top.pixel(bx - x, by - y))[c]
                } else {
                    self.channel(bx, by, c)
                },
        )
    }
}

/// An image made by `from_fn` holds four bytes for each pixel, and its
/// channels are what the function gives.
pub proof fn lemma_from_fn_channel(
    width: nat,
    height: nat,
    f: spec_fn(int, int, int) -> u8,
    x: int,
    y: int,
    c: int,
)
    requires
        0 <= x < width,
        0 <= y < height,
        0 <= c < 4,
    ensures
        Image::from_fn(width, height, f).wf(),
        Image::from_fn(width, height, f).channel(x, y, c) == f(x, y, c),
{
    let w = width as int;
    let k = y * w + x;
    let i = 4 * k + c;
    assert(0 <= k < w * height) by (nonlinear_arith)
        requires
            0 <= x < w,
            0 <= y < height,
            k == y * w + x,
    ;
    assert(4 * width * height == 4 * (w * height)) by (nonlinear_arith)
        requires
            w == width,
    ;
    assert(i / 4 == k);
    assert(i % 4 == c);
    vstd::arithmetic::div_mod::lemma_fundamental_div_mod_converse(k, w, y, x);
}

/// An image of one colour holds four bytes for each pixel.
pub proof fn lemma_solid_wf(width: nat, height: nat, r: u8, g: u8, b: u8, a: u8)
    ensures
        Image::solid(width, height, r, g, b, a).wf(),
{
    assert(4 * width * height == 4 * (width * height)) by (nonlinear_arith);
}

/// A quarter turn clockwise takes the pixel in column `x` of row `y` to
/// column `height - 1 - y` of row `x`.
pub proof fn lemma_rotate90_moves(img: Image, x: int, y: int, c: int)
    requires
        0 <= x < img.width,
        0 <= y < img.height,
        0 <= c < 4,
    ensures
        img.rotate90().wf(),
        img.rotate90().width == img.height,
        img.rotate90().height == img.width,
        img.rotate90().channel(img.height - 1 - y, x, c) == img.channel(x, y, c),
{
    lemma_from_fn_channel(
        img.height,
        img.width,
        |x: int, y: int, c: int| img.channel(y, img.height - 1 - x, c),
        img.height - 1 - y,
        x,
        c,
    );
}

/// Half a turn takes the pixel in column `x` of row `y` to column
/// `width - 1 - x` of row `height - 1 - y`.
pub proof fn lemma_rotate180_moves(img: Image, x: int, y: int, c: int)
    requires
        0 <= x < img.width,
        0 <= y < img.height,
        0 <= c < 4,
    ensures
        img.rotate180().wf(),
        img.rotate180().width == img.width,
        img.rotate180().height == img.height,
        img.rotate180().channel(img.width - 1 - x, img.height - 1 - y, c) == img.channel(x, y, c),
{
    lemma_from_fn_channel(
        img.width,
        img.height,
        |x: int, y: int, c: int| img.channel(img.width - 1 - x, img.height - 1 - y, c),
        img.width - 1 - x,
        img.height - 1 - y,
        c,
    );
}

/// Three quarter turns clockwise take the pixel in column `x` of row `y` to
/// column `y` of row `width - 1 - x`.
pub proof fn lemma_rotate270_moves(img: Image, x: int, y: int, c: int)
    requires
        0 <= x < img.width,
        0 <= y < img.height,
        0 <= c < 4,
    ensures
        img.rotate270().wf(),
        img.rotate270().width == img.height,
        img.rotate270().height == img.width,
        img.rotate270().channel(y, img.width - 1 - x, c) == img.channel(x, y, c),
{
    lemma_from_fn_channel(
        img.height,
        img.width,
        |x: int, y: int, c: int| img.channel(img.width - 1 - y, x, c),
        y,
        img.width - 1 - x,
        c,
    );
}

/// The byte `i` of an image belongs to a column, a row and a channel of it.
pub proof fn lemma_byte_place(width: nat, height: nat, i: int)
    requires
        0 <= i < 4 * width * height,
    ensures
        0 <= (i / 4) % (width as int) < width,
        0 <= (i / 4) / (width as int) < height,
        0 <= i % 4 < 4,
        i == 4 * (((i / 4) / (width as int)) * width + (i / 4) % (width as int)) + i % 4,
{
    let w = width as int;
    let h = height as int;
    let k = i / 4;
    assert(w > 0 && h > 0 && k < w * h) by (nonlinear_arith)
        requires
            0 <= i < 4 * w * h,
            w >= 0,
            h >= 0,
            4 * k <= i,
    ;
    vstd::arithmetic::div_mod::lemma_multiply_divide_lt(k, w, h);
    vstd::arithmetic::div_mod::lemma_div_pos_is_pos(k, w);
    vstd::arithmetic::div_mod::lemma_mod_pos_bound(k, w);
    vstd::arithmetic::div_mod::lemma_fundamental_div_mod(k, w);
    assert(w * (k / w) == (k / w) * w) by (nonlinear_arith);
}

/// Two quarter turns are half a turn.
pub proof fn lemma_two_quarter_turns(img: Image)
    ensures
        img.rotate90().rotate90() == img.rotate180(),
{
    let twice = img.rotate90().rotate90();
    let half = img.rotate180();
    assert forall|i: int| 0 <= i < half.pixels.len() implies twice.pixels[i] == half.pixels[i] by {
        lemma_byte_place(img.width, img.height, i);
        let x = (i / 4) % (img.width as int);
        let y = (i / 4) / (img.width as int);
        lemma_rotate90_moves(img, img.width - 1 - x, img.height - 1 - y, i % 4);
    }
    assert(twice.pixels =~= half.pixels);
}

/// Three quarter turns clockwise are one quarter turn the other way.
pub proof fn lemma_three_quarter_turns(img: Image)
    ensures
        img.rotate90().rotate90().rotate90() == img.rotate270(),
{
    lemma_two_quarter_turns(img);
    let thrice = img.rotate180().rotate90();
    let back = img.rotate270();
    assert forall|i: int| 0 <= i < back.pixels.len() implies thrice.pixels[i] == back.pixels[i] by {
        lemma_byte_place(img.height, img.width, i);
        let x = (i / 4) % (img.height as int);
        let y = (i / 4) / (img.height as int);
        lemma_rotate180_moves(img, img.width - 1 - y, x, i % 4);
    }
    assert(thrice.pixels =~= back.pixels);
}

/// Four quarter turns give the image back.
pub proof fn lemma_four_quarter_turns(img: Image)
    requires
        img.wf(),
    ensures
        img.rotate90().rotate90().rotate90().rotate90() == img,
{
    lemma_three_quarter_turns(img);
    let round = img.rotate270().rotate90();
    assert forall|i: int| 0 <= i < img.pixels.len() implies round.pixels[i] == img.pixels[i] by {
        lemma_byte_place(img.width, img.height, i);
        let x = (i / 4) % (img.width as int);
        let y = (i / 4) / (img.width as int);
        lemma_rotate270_moves(img, x, y, i % 4);
    }
    assert(round.pixels =~= img.pixels);
}

/// A crop holds the pixels of its rectangle.
pub proof fn lemma_crop_keeps(
    img: Image,
    x0: int,
    y0: int,
    width: nat,
    height: nat,
    x: int,
    y: int,
    c: int,
)
    requires
        0 <= x < width,
        0 <= y < height,
        0 <= c < 4,
    ensures
        img.crop(x0, y0, width, height).wf(),
        img.crop(x0, y0, width, height).channel(x, y, c) == img.channel(x0 + x, y0 + y, c),
{
    lemma_from_fn_channel(
        width,
        height,
        |x: int, y: int, c: int| img.channel(x0 + x, y0 + y, c),
        x,
        y,
        c,
    );
}

/// Where an opaque pixel of `top` lies over the bottom image, the overlay
/// shows that pixel; where `top` does not reach, it shows the bottom image.
pub proof fn lemma_overlay_shows(
    bottom: Image,
    top: Image,
    x: int,
    y: int,
    bx: int,
    by: int,
    c: int,
)
    requires
        top.wf(),
        bottom.wf(),
        0 <= bx < bottom.width,
        0 <= by < bottom.height,
        0 <= c < 4,
    ensures
        x <= bx < x + top.width && y <= by < y + top.height && top.channel(bx - x, by - y, 3) == 255
            ==> bottom.overlay(top, x, y).channel(bx, by, c) == top.channel(bx - x, by - y, c),
        !(x <= bx < x + top.width && y <= by < y + top.height) ==> bottom.overlay(
            top,
            x,
            y,
        ).channel(bx, by, c) == bottom.channel(bx, by, c),
{
    lemma_from_fn_channel(
        bottom.width,
        bottom.height,
        |bx: int, by: int, c: int|
            if x <= bx < x + top.width && y <= by < y + top.height {
                blend(bottom.pixel(bx, by), top.pixel(bx - x, by - y))[c]
            } else {
                bottom.channel(bx, by, c)
            },
        bx,
        by,
        c,
    );
    if x <= bx < x + top.width && y <= by < y + top.height {
        let tx = bx - x;
        let ty = by - y;
        let w = top.width as int;
        assert(0 <= ty * w + tx < w * top.height) by (nonlinear_arith)
            requires
                0 <= tx < w,
                0 <= ty < top.height,
        ;
        assert(4 * top.width * top.height == 4 * (w * top.height)) by (nonlinear_arith)
            requires
                w == top.width,
        ;
        assert(top.pixel(tx, ty)[3] == top.channel(tx, ty, 3));
        assert(top.pixel(tx, ty)[c] == top.channel(tx, ty, c));
    }
}

/// What the resampling filter makes of an image of `width` by `height` with
/// the bytes `pixels`, asked to fit `nwidth` by `nheight`: the new width, the
/// new height and the new bytes.
pub uninterp spec fn resampled(
    width: nat,
    height: nat,
    pixels: Seq<u8>,
    nwidth: nat,
    nheight: nat,
) -> (nat, nat, Seq<u8>);

/// The mix of a pixel `top`, neither clear nor opaque, over a pixel `bottom`.
pub uninterp spec fn blended(bottom: Seq<u8>, top: Seq<u8>) -> Seq<u8>;

/// The pixel seen where `top` lies over `bottom`: a clear `top` shows
/// `bottom`, an opaque one hides it.
pub open spec fn blend(bottom: Seq<u8>, top: Seq<u8>) -> Seq<u8> {
    if top[3] == 0 {
        bottom
    } else if top[3] == 255 {
        top
    } else {
        blended(bottom, top)
    }
}

/// An RGBA raster with eight bits to a channel.
pub struct Raster {
    pub(crate) width: u32,
    pub(crate) height: u32,
    pub(crate) pixels: Vec<u8>,
}

impl View for Raster {
    type V = Image;

    closed spec fn view(&self) -> Image {
        Image { width: self.width as nat, height: self.height as nat, pixels: self.pixels@ }
    }
}

impl Raster {
    #[verifier::type_invariant]
    spec fn inv(&self) -> bool {
        self.pixels@.len() == 4 * self.width * self.height
    }

    /// The raster of the given size and bytes, if there are four bytes for
    /// each pixel.
    pub fn new(width: u32, height: u32, pixels: Vec<u8>) -> (r: Option<Raster>)
        ensures
            pixels@.len() == 4 * width * height ==> r is Some && r.unwrap()@ == (Image {
                width: width as nat,
                height: height as nat,
                pixels: pixels@,
            }),
            pixels@.len() != 4 * width * height ==> r is None,
    {
        assert(width * height <= 0xffff_ffff * 0xffff_ffff) by (nonlinear_arith)
            requires
                0 <= width <= 0xffff_ffff,
                0 <= height <= 0xffff_ffff,
        ;
        let area: u64 = (width as u64) * (height as u64);
        let need: u128 = 4u128 * (area as u128);
        assert(need == 4 * width * height) by (nonlinear_arith)
            requires
                need == 4 * area,
                area == width * height,
        ;
        if pixels.len() as u128 == need {
            Some(Raster { width, height, pixels })
        } else {
            None
        }
    }

    pub fn width(&self) -> (w: u32)
        ensures
            w == self@.width,
    {
        self.width
    }

    pub fn height(&self) -> (h: u32)
        ensures
            h == self@.height,
    {
        self.height
    }

    /// The bytes of the raster.
    pub fn as_raw(&self) -> (p: &Vec<u8>)
        ensures
            p@ == self@.pixels,
            self@.wf(),
    {
        proof {
            use_type_invariant(self);
        }
        &self.pixels
    }

    /// A raster of one colour.
    ///
    /// Trusted: `image::ImageBuffer::from_pixel` returns a buffer of the
    /// given size in which every pixel is the given one.
    #[verifier::external_body]
    pub(crate) fn solid(width: u32, height: u32, r: u8, g: u8, b: u8, a: u8) -> (img: Raster)
        requires
            4 * width * height <= isize::MAX,
        ensures
            img@ == Image::solid(width as nat, height as nat, r, g, b, a),
    {
        let out = image::RgbaImage::from_pixel(width, height, image::Rgba([r, g, b, a]));
        Raster { width: out.width(), height: out.height(), pixels: out.into_raw() }
    }

    /// Trusted: `image::DynamicImage::crop_imm`, for a rectangle that lies
    /// inside the image, copies exactly the pixels of that rectangle.
    #[verifier::external_body]
    pub(crate) fn crop_imm(&self, x: u32, y: u32, width: u32, height: u32) -> (r: Raster)
        requires
            x + width <= self@.width,
            y + height <= self@.height,
        ensures
            r@ == self@.crop(x as int, y as int, width as nat, height as nat),
    {
        let buf = image::RgbaImage::from_raw(self.width, self.height, self.pixels.clone()).unwrap();
        let out = image::DynamicImage::ImageRgba8(buf).crop_imm(x, y, width, height).into_rgba8();
        Raster { width: out.width(), height: out.height(), pixels: out.into_raw() }
    }

    /// Trusted: `image::DynamicImage::rotate90` puts the source pixel
    /// `(x, y)` at `(height - 1 - y, x)` of an image with the sides swapped.
    #[verifier::external_body]
    pub(crate) fn rotate90(self) -> (r: Raster)
        ensures
            r@ == self@.rotate90(),
    {
        let buf = image::RgbaImage::from_raw(self.width, self.height, self.pixels).unwrap();
        let out = image::DynamicImage::ImageRgba8(buf).rotate90().into_rgba8();
        Raster { width: out.width(), height: out.height(), pixels: out.into_raw() }
    }

    /// Trusted: `image::DynamicImage::rotate180` puts the source pixel
    /// `(x, y)` at `(width - 1 - x, height - 1 - y)`.
    #[verifier::external_body]
    pub(crate) fn rotate180(self) -> (r: Raster)
        ensures
            r@ == self@.rotate180(),
    {
        let buf = image::RgbaImage::from_raw(self.width, self.height, self.pixels).unwrap();
        let out = image::DynamicImage::ImageRgba8(buf).rotate180().into_rgba8();
        Raster { width: out.width(), height: out.height(), pixels: out.into_raw() }
    }

    /// Trusted: `image::DynamicImage::rotate270` puts the source pixel
    /// `(x, y)` at `(y, width - 1 - x)` of an image with the sides swapped.
    #[verifier::external_body]
    pub(crate) fn rotate270(self) -> (r: Raster)
        ensures
            r@ == self@.rotate270(),
    {
        let buf = image::RgbaImage::from_raw(self.width, self.height, self.pixels).unwrap();
        let out = image::DynamicImage::ImageRgba8(buf).rotate270().into_rgba8();
        Raster { width: out.width(), height: out.height(), pixels: out.into_raw() }
    }

    /// Trusted: `image::DynamicImage::resize` with the Catmull-Rom filter
    /// returns the image itself where it already has the size asked for, and
    /// otherwise an image that depends on the source and that size alone.
    #[verifier::external_body]
    fn resample(self, nwidth: u32, nheight: u32) -> (r: Raster)
        requires
            self@.width > 0,
            self@.height > 0,
            nwidth > 0,
            nheight > 0,
            16 * self@.width * nheight <= isize::MAX,
            16 * nwidth * nheight <= isize::MAX,
        ensures
            r@ == (if nwidth == self@.width && nheight == self@.height {
                self@
            } else {
                Image::of(
                    resampled(
                        self@.width,
                        self@.height,
                        self@.pixels,
                        nwidth as nat,
                        nheight as nat,
                    ),
                )
            }),
    {
        let buf = image::RgbaImage::from_raw(self.width, self.height, self.pixels).unwrap();
        let out = image::DynamicImage::ImageRgba8(buf)
            .resize(nwidth, nheight, image::imageops::FilterType::CatmullRom)
            .into_rgba8();
        Raster { width: out.width(), height: out.height(), pixels: out.into_raw() }
    }

    /// Trusted: `image::imageops::overlay` leaves the size of the bottom
    /// image and the pixels that `top` does not cover as they are. Under a
    /// clear pixel of `top` the bottom pixel stays, under an opaque one it
    /// becomes that pixel, and under any other the two are mixed.
    #[verifier::external_body]
    fn overlay_onto(self, top: &Raster, x: i64, y: i64) -> (r: Raster)
        ensures
            r@ == Image::from_fn(
                self@.width,
                self@.height,
                |bx: int, by: int, c: int|
                    if x <= bx < x + top@.width && y <= by < y + top@.height {
                        (if top@.pixel(bx - x, by - y)[3] == 0 {
                            self@.pixel(bx, by)
                        } else if top@.pixel(bx - x, by - y)[3] == 255 {
                            top@.pixel(bx - x, by - y)
                        } else {
                            blended(self@.pixel(bx, by), top@.pixel(bx - x, by - y))
                        })[c]
                    } else {
                        self@.channel(bx, by, c)
                    },
            ),
    {
        let mut out = image::RgbaImage::from_raw(self.width, self.height, self.pixels).unwrap();
        let over = image::ImageBuffer::<image::Rgba<u8>, &[u8]>::from_raw(
            top.width,
            top.height,
            top.pixels.as_slice(),
        ).unwrap();
        image::imageops::overlay(&mut out, &over, x, y);
        Raster { width: out.width(), height: out.height(), pixels: out.into_raw() }
    }

    /// The raster resampled with the Catmull-Rom filter to fit `nwidth` by
    /// `nheight`.
    pub fn resize(self, nwidth: u32, nheight: u32) -> (r: Raster)
        requires
            self@.width > 0,
            self@.height > 0,
            nwidth > 0,
            nheight > 0,
            16 * self@.width * nheight <= isize::MAX,
            16 * nwidth * nheight <= isize::MAX,
        ensures
            r@ == self@.resize(nwidth as nat, nheight as nat),
    {
        self.resample(nwidth, nheight)
    }

    /// This raster with `top` laid over it at `(x, y)`.
    pub fn overlay(self, top: &Raster, x: i64, y: i64) -> (r: Raster)
        ensures
            r@ == self@.overlay(top@, x as int, y as int),
    {
        let ghost before = self@;
        let r = self.overlay_onto(top, x, y);
        assert(r@.pixels =~= before.overlay(top@, x as int, y as int).pixels);
        r
    }

    /// The raster turned `q` quarter turns clockwise.
    pub fn rotate(self, q: u8) -> (r: Raster)
        ensures
            r@ == self@.rotate(q as int),
    {
        if q == 1 {
            self.rotate90()
        } else if q == 2 {
            self.rotate180()
        } else if q == 3 {
            self.rotate270()
        } else {
            self
        }
    }
}

} // verus!

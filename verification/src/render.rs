use vstd::prelude::*;
use crate::error::GeometryFault;
use crate::geometry::{
    lemma_quarter_turns_periodic, lemma_same_turns_same_square, mul_round, mul_round_spec, padd,
    psub, quarter_turns, quarter_turns_of, relu, scaled, transform_square, transform_square_spec,
    Pt, Ratio,
};
use crate::raster::{
    lemma_crop_keeps, lemma_overlay_shows, lemma_rotate180_moves, lemma_rotate270_moves,
    lemma_rotate90_moves, lemma_solid_wf, Image, Raster,
};

verus! {

/// The width of the viewport and of every rendered raster.
pub const VIEW_WIDTH: u32 = 1920;

/// The height of the viewport and of every rendered raster.
pub const VIEW_HEIGHT: u32 = 1080;

/// How one source image is placed on the canvas: scaled about its centre,
/// turned by `rotate` degrees and shifted by `(left, top)`.
#[derive(Clone, Copy, Debug)]
pub struct Placement {
    pub scale: Ratio,
    pub left: i32,
    pub top: i32,
    pub rotate: i32,
}

/// What has to be done to a source image to render it: the rectangle to cut
/// out, the quarter turns to give it, the size to bring it to and the place
/// of its top left corner in the viewport.
#[derive(Clone, Copy, Debug, PartialEq, Eq, Structural)]
pub struct ViewportPlan {
    pub crop_x: u32,
    pub crop_y: u32,
    pub crop_w: u32,
    pub crop_h: u32,
    pub turns: u8,
    pub new_w: u32,
    pub new_h: u32,
    pub off_x: i64,
    pub off_y: i64,
}

/// A `ViewportPlan` over the integers.
pub struct PlanModel {
    pub crop_x: int,
    pub crop_y: int,
    pub crop_w: int,
    pub crop_h: int,
    pub turns: int,
    pub new_w: int,
    pub new_h: int,
    pub off_x: int,
    pub off_y: int,
}

impl ViewportPlan {
    pub open spec fn model(&self) -> PlanModel {
        PlanModel {
            crop_x: self.crop_x as int,
            crop_y: self.crop_y as int,
            crop_w: self.crop_w as int,
            crop_h: self.crop_h as int,
            turns: self.turns as int,
            new_w: self.new_w as int,
            new_h: self.new_h as int,
            off_x: self.off_x as int,
            off_y: self.off_y as int,
        }
    }
}

impl PlanModel {
    /// The plan can be carried out on an image of `w` by `h`: the crop is
    /// not empty and lies inside the image, the new size is at least one
    /// pixel each way, and the rasters that resampling makes can be held.
    pub open spec fn fits(self, w: int, h: int) -> bool {
        &&& 0 <= self.crop_x
        &&& 0 <= self.crop_y
        &&& 0 < self.crop_w
        &&& 0 < self.crop_h
        &&& self.crop_x + self.crop_w <= w
        &&& self.crop_y + self.crop_h <= h
        &&& 0 <= self.turns < 4
        &&& 0 < self.new_w
        &&& 0 < self.new_h
        &&& can_hold(turned_width(self.crop_w, self.crop_h, self.turns), self.new_h)
        &&& can_hold(self.new_w, self.new_h)
        &&& 0 <= self.off_x
        &&& 0 <= self.off_y
    }
}

/// A raster of `w` by `h` pixels, four values of four bytes to a pixel, can
/// be allocated.
pub open spec fn can_hold(w: int, h: int) -> bool {
    16 * w * h <= isize::MAX
}

/// The width of a `w` by `h` image after `q` quarter turns.
pub open spec fn turned_width(w: int, h: int, q: int) -> int {
    if q == 1 || q == 3 {
        h
    } else {
        w
    }
}

/// The height of a `w` by `h` image after `q` quarter turns.
pub open spec fn turned_height(w: int, h: int, q: int) -> int {
    if q == 1 || q == 3 {
        w
    } else {
        h
    }
}

/// Where the top left corner of a `w` by `h` image lies when its centre is
/// the origin of the canvas.
pub open spec fn image_origin(w: int, h: int) -> (int, int) {
    (-(w / 2), -(h / 2))
}

/// The top left corner of the viewport on the canvas.
pub open spec fn viewport_corner(w: int, h: int, p: Placement) -> (int, int) {
    (image_origin(w, h).0 - p.left, image_origin(w, h).1 - p.top)
}

/// The viewport as the untransformed image sees it, in the image's own pixel
/// coordinates: the placement undone on the viewport's corners, then their
/// bounding box, least corner first. `None` where a coordinate leaves the
/// coordinate range.
pub open spec fn source_rect(w: int, h: int, p: Placement) -> Option<((int, int), (int, int))> {
    let o = image_origin(w, h);
    let vp = viewport_corner(w, h, p);
    match transform_square_spec(
        vp,
        (vp.0 + VIEW_WIDTH, vp.1 + VIEW_HEIGHT),
        -(p.rotate as int),
        p.scale.den(),
        p.scale.num(),
    ) {
        Some(t) => Some((((t.0).0 - o.0, (t.0).1 - o.1), ((t.1).0 - o.0, (t.1).1 - o.1))),
        None => None,
    }
}

pub open spec fn at_least(a: int, b: int) -> int {
    if a >= b {
        a
    } else {
        b
    }
}

pub open spec fn at_most(a: int, b: int) -> int {
    if a <= b {
        a
    } else {
        b
    }
}

/// The part of the rectangle `rect` that lies inside a `w` by `h` image, as
/// its corner and its size.
pub open spec fn visible_part(rect: ((int, int), (int, int)), w: int, h: int) -> Result<
    (int, int, int, int),
    GeometryFault,
> {
    let x0 = at_least((rect.0).0, 0);
    let y0 = at_least((rect.0).1, 0);
    let x1 = at_most((rect.1).0, w);
    let y1 = at_most((rect.1).1, h);
    if (rect.1).0 < 0 || (rect.1).1 < 0 {
        Err(GeometryFault::NothingVisible)
    } else if x1 <= x0 || y1 <= y0 {
        Err(GeometryFault::EmptyCrop)
    } else {
        Ok((x0, y0, x1 - x0, y1 - y0))
    }
}

/// The size to which a turned crop of `tw` by `th` pixels is brought: each
/// side times `scale` times `zoom`, rounded towards zero.
pub open spec fn scaled_size(tw: int, th: int, scale: Ratio, zoom: Ratio) -> Result<
    (int, int),
    GeometryFault,
> {
    let num = scale.num() * zoom.num();
    let den = scale.den() * zoom.den();
    match (mul_round_spec(num, den, tw), mul_round_spec(num, den, th)) {
        (Some(nw), Some(nh)) => {
            if nw < 1 || nh < 1 {
                Err(GeometryFault::Collapsed)
            } else if !can_hold(tw, nh) || !can_hold(nw, nh) {
                Err(GeometryFault::Overflow)
            } else {
                Ok((nw, nh))
            }
        },
        _ => Err(GeometryFault::Overflow),
    }
}

/// The least corner of the placed image's bounding box on the canvas.
pub open spec fn placed_corner(w: int, h: int, p: Placement) -> Option<(int, int)> {
    let o = image_origin(w, h);
    match transform_square_spec(o, (-o.0, -o.1), p.rotate as int, p.scale.num(), p.scale.den()) {
        Some(t) => Some(t.0),
        None => None,
    }
}

/// Where the top left corner of the rendered crop goes in the viewport: the
/// placed image's corner as the viewport sees it, no coordinate below zero.
pub open spec fn overlay_offset(w: int, h: int, p: Placement) -> Option<(int, int)> {
    match placed_corner(w, h, p) {
        Some(c) => Some(
            (
                at_least(c.0 - viewport_corner(w, h, p).0, 0),
                at_least(c.1 - viewport_corner(w, h, p).1, 0),
            ),
        ),
        None => None,
    }
}

/// The plan for rendering a `w` by `h` image under placement `p` and the
/// display factor `zoom`, or the reason why there is none.
pub open spec fn viewport_plan(w: int, h: int, p: Placement, zoom: Ratio) -> Result<
    PlanModel,
    GeometryFault,
> {
    match source_rect(w, h, p) {
        None => Err(GeometryFault::Overflow),
        Some(rect) => match visible_part(rect, w, h) {
            Err(e) => Err(e),
            Ok(part) => {
                let q = quarter_turns(p.rotate as int);
                match scaled_size(
                    turned_width(part.2, part.3, q),
                    turned_height(part.2, part.3, q),
                    p.scale,
                    zoom,
                ) {
                    Err(e) => Err(e),
                    Ok(size) => match overlay_offset(w, h, p) {
                        None => Err(GeometryFault::Overflow),
                        Some(off) => Ok(
                            PlanModel {
                                crop_x: part.0,
                                crop_y: part.1,
                                crop_w: part.2,
                                crop_h: part.3,
                                turns: q,
                                new_w: size.0,
                                new_h: size.1,
                                off_x: off.0,
                                off_y: off.1,
                            },
                        ),
                    },
                }
            },
        },
    }
}

/// Computes `source_rect`.
pub fn seen_rect(width: u32, height: u32, p: &Placement) -> (r: Option<(Pt, Pt)>)
    ensures
        r matches Some(t) ==> source_rect(width as int, height as int, *p) == Some(
            (((t.0).0 as int, (t.0).1 as int), ((t.1).0 as int, (t.1).1 as int)),
        ),
        r is None ==> source_rect(width as int, height as int, *p) is None,
{
    let sn: u64 = p.scale.numerator() as u64;
    let sd: u64 = p.scale.denominator() as u64;
    let o: Pt = (-((width / 2) as i64), -((height / 2) as i64));
    let vp: Pt = psub(o, (p.left as i64, p.top as i64));
    let vb: Pt = padd(vp, (VIEW_WIDTH as i64, VIEW_HEIGHT as i64));
    match transform_square(vp, vb, -(p.rotate as i64), sd, sn) {
        Some(t) => Some((psub(t.0, o), psub(t.1, o))),
        None => None,
    }
}

/// Computes `visible_part`.
pub fn clip_rect(rect: (Pt, Pt), width: u32, height: u32) -> (r: Result<
    (u32, u32, u32, u32),
    GeometryFault,
>)
    ensures
        r matches Ok(c) ==> visible_part(
            (((rect.0).0 as int, (rect.0).1 as int), ((rect.1).0 as int, (rect.1).1 as int)),
            width as int,
            height as int,
        ) == Ok::<(int, int, int, int), GeometryFault>(
            (c.0 as int, c.1 as int, c.2 as int, c.3 as int),
        ),
        r matches Err(e) ==> visible_part(
            (((rect.0).0 as int, (rect.0).1 as int), ((rect.1).0 as int, (rect.1).1 as int)),
            width as int,
            height as int,
        ) == Err::<(int, int, int, int), GeometryFault>(e),
{
    let rp: Pt = rect.0;
    let rb: Pt = rect.1;
    if rb.0 < 0 || rb.1 < 0 {
        return Err(GeometryFault::NothingVisible);
    }
    let x0: i64 = relu(rp.0);
    let y0: i64 = relu(rp.1);
    let x1: i64 = if rb.0 <= width as i64 {
        rb.0
    } else {
        width as i64
    };
    let y1: i64 = if rb.1 <= height as i64 {
        rb.1
    } else {
        height as i64
    };
    if x1 <= x0 || y1 <= y0 {
        return Err(GeometryFault::EmptyCrop);
    }
    Ok((x0 as u32, y0 as u32, (x1 - x0) as u32, (y1 - y0) as u32))
}

/// Computes `scaled_size`.
pub fn size_after_scaling(tw: u32, th: u32, scale: Ratio, zoom: Ratio) -> (r: Result<
    (u32, u32),
    GeometryFault,
>)
    ensures
        r matches Ok(n) ==> scaled_size(tw as int, th as int, scale, zoom) == Ok::<
            (int, int),
            GeometryFault,
        >((n.0 as int, n.1 as int)),
        r matches Err(e) ==> scaled_size(tw as int, th as int, scale, zoom) == Err::<
            (int, int),
            GeometryFault,
        >(e),
{
    let sn: u64 = scale.numerator() as u64;
    let sd: u64 = scale.denominator() as u64;
    let zn: u64 = zoom.numerator() as u64;
    let zd: u64 = zoom.denominator() as u64;
    assert(sn * zn <= 0xffff_ffff * 0xffff_ffff && sd * zd <= 0xffff_ffff * 0xffff_ffff && sd * zd
        > 0) by (nonlinear_arith)
        requires
            0 < sn <= 0xffff_ffff,
            0 < zn <= 0xffff_ffff,
            0 < sd <= 0xffff_ffff,
            0 < zd <= 0xffff_ffff,
    ;
    let num: u64 = sn * zn;
    let den: u64 = sd * zd;
    let first_side: Option<i64> = mul_round(num, den, tw as i64);
    let second_side: Option<i64> = mul_round(num, den, th as i64);
    let nw: i64 = match first_side {
        Some(v) => v,
        None => { return Err(GeometryFault::Overflow); },
    };
    let nh: i64 = match second_side {
        Some(v) => v,
        None => { return Err(GeometryFault::Overflow); },
    };
    if nw < 1 || nh < 1 {
        return Err(GeometryFault::Collapsed);
    }
    assert(tw * nh <= 0xffff_ffff * 0x7fff_ffff && nw * nh <= 0x7fff_ffff * 0x7fff_ffff && tw * nh
        >= 0 && nw * nh >= 0) by (nonlinear_arith)
        requires
            0 <= tw <= 0xffff_ffff,
            0 < nw <= 0x7fff_ffff,
            0 < nh <= 0x7fff_ffff,
    ;
    let first: u128 = 16u128 * ((tw as u128) * (nh as u128));
    let second: u128 = 16u128 * ((nw as u128) * (nh as u128));
    assert(first == 16 * tw * nh && second == 16 * nw * nh) by (nonlinear_arith)
        requires
            first == 16 * (tw * nh),
            second == 16 * (nw * nh),
    ;
    if first > isize::MAX as u128 || second > isize::MAX as u128 {
        return Err(GeometryFault::Overflow);
    }
    Ok((nw as u32, nh as u32))
}

/// Computes `overlay_offset`.
pub fn offset_in_viewport(width: u32, height: u32, p: &Placement) -> (r: Option<Pt>)
    ensures
        r matches Some(t) ==> overlay_offset(width as int, height as int, *p) == Some(
            (t.0 as int, t.1 as int),
        ) && t.0 >= 0 && t.1 >= 0,
        r is None ==> overlay_offset(width as int, height as int, *p) is None,
{
    let sn: u64 = p.scale.numerator() as u64;
    let sd: u64 = p.scale.denominator() as u64;
    let o: Pt = (-((width / 2) as i64), -((height / 2) as i64));
    let vp: Pt = psub(o, (p.left as i64, p.top as i64));
    match transform_square(o, (-o.0, -o.1), p.rotate as i64, sn, sd) {
        Some(t) => {
            let rel: Pt = psub(t.0, vp);
            Some((relu(rel.0), relu(rel.1)))
        },
        None => None,
    }
}

/// Works out how to render a `width` by `height` image under placement `p`.
pub fn plan_viewport(width: u32, height: u32, p: &Placement, zoom: Ratio) -> (r: Result<
    ViewportPlan,
    GeometryFault,
>)
    ensures
        r matches Ok(plan) ==> viewport_plan(width as int, height as int, *p, zoom) == Ok::<
            PlanModel,
            GeometryFault,
        >(plan.model()) && plan.model().fits(width as int, height as int),
        r matches Err(e) ==> viewport_plan(width as int, height as int, *p, zoom) == Err::<
            PlanModel,
            GeometryFault,
        >(e),
{
    let rect: (Pt, Pt) = match seen_rect(width, height, p) {
        Some(t) => t,
        None => { return Err(GeometryFault::Overflow); },
    };
    let part: (u32, u32, u32, u32) = match clip_rect(rect, width, height) {
        Ok(c) => c,
        Err(e) => { return Err(e); },
    };
    let q: u8 = quarter_turns_of(p.rotate as i64);
    let tw: u32 = if q == 1 || q == 3 {
        part.3
    } else {
        part.2
    };
    let th: u32 = if q == 1 || q == 3 {
        part.2
    } else {
        part.3
    };
    let size: (u32, u32) = match size_after_scaling(tw, th, p.scale, zoom) {
        Ok(n) => n,
        Err(e) => { return Err(e); },
    };
    let off: Pt = match offset_in_viewport(width, height, p) {
        Some(t) => t,
        None => { return Err(GeometryFault::Overflow); },
    };
    Ok(
        ViewportPlan {
            crop_x: part.0,
            crop_y: part.1,
            crop_w: part.2,
            crop_h: part.3,
            turns: q,
            new_w: size.0,
            new_h: size.1,
            off_x: off.0,
            off_y: off.1,
        },
    )
}

/// The rendering that a plan gives of an image: the crop, turned and
/// resampled, laid over an opaque black canvas of the viewport's size.
pub open spec fn compose(img: Image, plan: PlanModel) -> Image {
    Image::solid(VIEW_WIDTH as nat, VIEW_HEIGHT as nat, 0, 0, 0, 255).overlay(
        img.crop(plan.crop_x, plan.crop_y, plan.crop_w as nat, plan.crop_h as nat).rotate(
            plan.turns,
        ).resize(plan.new_w as nat, plan.new_h as nat),
        plan.off_x,
        plan.off_y,
    )
}

/// The rendering of an image under a placement, or the reason why it has
/// none.
pub open spec fn render_spec(img: Image, p: Placement, zoom: Ratio) -> Result<
    Image,
    GeometryFault,
> {
    match viewport_plan(img.width as int, img.height as int, p, zoom) {
        Ok(plan) => Ok(compose(img, plan)),
        Err(e) => Err(e),
    }
}

/// An opaque black raster of the viewport's size.
pub fn blank_image() -> (r: Raster)
    ensures
        r@ == Image::solid(VIEW_WIDTH as nat, VIEW_HEIGHT as nat, 0, 0, 0, 255),
{
    Raster::solid(VIEW_WIDTH, VIEW_HEIGHT, 0, 0, 0, 255)
}

/// Carries out a plan on an image.
pub fn compose_plan(img: &Raster, plan: &ViewportPlan) -> (r: Raster)
    requires
        plan.model().fits(img@.width as int, img@.height as int),
    ensures
        r@ == compose(img@, plan.model()),
        r@.width == VIEW_WIDTH,
        r@.height == VIEW_HEIGHT,
{
    let visible: Raster = img.crop_imm(plan.crop_x, plan.crop_y, plan.crop_w, plan.crop_h);
    let turned: Raster = visible.rotate(plan.turns);
    let sized: Raster = turned.resize(plan.new_w, plan.new_h);
    blank_image().overlay(&sized, plan.off_x, plan.off_y)
}

/// Renders what the viewport shows of `img` under placement `p`.
pub fn render(img: &Raster, p: &Placement, zoom: Ratio) -> (r: Result<Raster, GeometryFault>)
    ensures
        r matches Ok(out) ==> render_spec(img@, *p, zoom) == Ok::<Image, GeometryFault>(out@)
            && out@.width == VIEW_WIDTH && out@.height == VIEW_HEIGHT,
        r matches Err(e) ==> render_spec(img@, *p, zoom) == Err::<Image, GeometryFault>(e),
{
    match plan_viewport(img.width(), img.height(), p, zoom) {
        Ok(plan) => Ok(compose_plan(img, &plan)),
        Err(e) => Err(e),
    }
}

/// A full turn more changes nothing: two placements that differ only by
/// 360 degrees of rotation have the same rendering, or fail alike.
pub proof fn lemma_full_turn(img: Image, p: Placement, q: Placement, zoom: Ratio)
    requires
        q.scale == p.scale,
        q.left == p.left,
        q.top == p.top,
        q.rotate == p.rotate + 360,
    ensures
        render_spec(img, q, zoom) == render_spec(img, p, zoom),
{
    let r = p.rotate as int;
    let w = img.width as int;
    let h = img.height as int;
    let o = image_origin(w, h);
    let vp = viewport_corner(w, h, p);
    lemma_quarter_turns_periodic(r);
    lemma_quarter_turns_periodic(-r);
    assert(-(r + 360) == -r - 360);
    assert(source_rect(w, h, q) == source_rect(w, h, p)) by {
        lemma_same_turns_same_square(
            vp,
            (vp.0 + VIEW_WIDTH, vp.1 + VIEW_HEIGHT),
            -(r + 360),
            -r,
            p.scale.den(),
            p.scale.num(),
        );
    }
    assert(overlay_offset(w, h, q) == overlay_offset(w, h, p)) by {
        lemma_same_turns_same_square(o, (-o.0, -o.1), r + 360, r, p.scale.num(), p.scale.den());
    }
}

/// A rotation of `k` quarter turns, positive or negative, turns the crop by
/// `k` modulo 4 quarter turns clockwise.
pub proof fn lemma_quarter_turns_exact(k: int)
    ensures
        quarter_turns(90 * k) == k % 4,
{
}

/// Where the placement is a whole number `k` of quarter turns, the rendering
/// is the crop turned by `k` modulo 4 quarter turns, resampled and laid over
/// the blank canvas.
pub proof fn lemma_rotation_exact(img: Image, p: Placement, zoom: Ratio, k: int)
    requires
        p.rotate == 90 * k,
        render_spec(img, p, zoom) is Ok,
    ensures
        ({
            let plan = viewport_plan(img.width as int, img.height as int, p, zoom).unwrap();
            &&& plan.turns == k % 4
            &&& render_spec(img, p, zoom).unwrap() == Image::solid(
                VIEW_WIDTH as nat,
                VIEW_HEIGHT as nat,
                0,
                0,
                0,
                255,
            ).overlay(
                img.crop(plan.crop_x, plan.crop_y, plan.crop_w as nat, plan.crop_h as nat).rotate(
                    k % 4,
                ).resize(plan.new_w as nat, plan.new_h as nat),
                plan.off_x,
                plan.off_y,
            )
        }),
{
    lemma_quarter_turns_exact(k);
}

/// A viewport whose greatest corner, seen from the image, has a negative
/// coordinate shows nothing of the image, and rendering fails for that
/// reason.
pub proof fn lemma_nothing_visible(img: Image, p: Placement, zoom: Ratio)
    requires
        source_rect(img.width as int, img.height as int, p) matches Some(rect) && ((rect.1).0 < 0
            || (rect.1).1 < 0),
    ensures
        render_spec(img, p, zoom) == Err::<Image, GeometryFault>(GeometryFault::NothingVisible),
{
}

/// A crop that scales to less than one pixel on either side has no
/// rendering.
pub proof fn lemma_collapsed(img: Image, p: Placement, zoom: Ratio)
    requires
        source_rect(img.width as int, img.height as int, p) matches Some(rect) && (visible_part(
            rect,
            img.width as int,
            img.height as int,
        ) matches Ok(part) && ({
            let q = quarter_turns(p.rotate as int);
            let num = p.scale.num() * zoom.num();
            let den = p.scale.den() * zoom.den();
            ||| scaled(num, den, turned_width(part.2, part.3, q)) < 1
            ||| scaled(num, den, turned_height(part.2, part.3, q)) < 1
        })),
    ensures
        render_spec(img, p, zoom) is Err,
        render_spec(img, p, zoom) matches Err(e) && (e == GeometryFault::Collapsed || e
            == GeometryFault::Overflow),
{
}

/// The plan of the placement that neither scales, turns nor shifts, for an
/// image of the viewport's size: the whole image, as it is, at the corner.
pub proof fn lemma_identity_plan(p: Placement, zoom: Ratio)
    requires
        p.scale.num() == 1,
        p.scale.den() == 1,
        zoom.num() == 1,
        zoom.den() == 1,
        p.left == 0,
        p.top == 0,
        p.rotate == 0,
    ensures
        viewport_plan(VIEW_WIDTH as int, VIEW_HEIGHT as int, p, zoom) == Ok::<
            PlanModel,
            GeometryFault,
        >(
            PlanModel {
                crop_x: 0,
                crop_y: 0,
                crop_w: VIEW_WIDTH as int,
                crop_h: VIEW_HEIGHT as int,
                turns: 0,
                new_w: VIEW_WIDTH as int,
                new_h: VIEW_HEIGHT as int,
                off_x: 0,
                off_y: 0,
            },
        ),
{
    let w = VIEW_WIDTH as int;
    let h = VIEW_HEIGHT as int;
    assert(forall|v: int| -3000 <= v <= 3000 ==> #[trigger] mul_round_spec(1, 1, v) == Some(v));
    assert(source_rect(w, h, p) == Some(((0int, 0int), (w, h))));
    assert(overlay_offset(w, h, p) == Some((0int, 0int)));
    assert(scaled_size(w, h, p.scale, zoom) == Ok::<(int, int), GeometryFault>((w, h)));
}

/// An opaque image of the viewport's size, placed without scale, turn or
/// shift and shown at a display factor of one, is rendered unchanged.
pub proof fn lemma_identity(img: Image, p: Placement, zoom: Ratio)
    requires
        img.wf(),
        img.opaque(),
        img.width == VIEW_WIDTH,
        img.height == VIEW_HEIGHT,
        p.scale.num() == 1,
        p.scale.den() == 1,
        zoom.num() == 1,
        zoom.den() == 1,
        p.left == 0,
        p.top == 0,
        p.rotate == 0,
    ensures
        render_spec(img, p, zoom) == Ok::<Image, GeometryFault>(img),
{
    lemma_identity_plan(p, zoom);
    let w = VIEW_WIDTH as nat;
    let h = VIEW_HEIGHT as nat;
    let whole = img.crop(0, 0, w, h);
    assert(whole.pixels =~= img.pixels);
    assert(whole == img);
    let blank = Image::solid(w, h, 0, 0, 0, 255);
    let out = blank.overlay(img, 0, 0);
    assert forall|i: int| 0 <= i < out.pixels.len() implies out.pixels[i] == img.pixels[i] by {
        let x = (i / 4) % (w as int);
        let y = (i / 4) / (w as int);
        assert(img.channel(x, y, 3) == 255);
        assert(img.pixel(x, y)[3] == img.channel(x, y, 3));
        assert(img.pixel(x, y)[i % 4] == img.pixels[i]);
    }
    assert(out.pixels =~= img.pixels);
    assert(out == img);
}

/// Where `q` quarter turns clockwise take the pixel in column `x` of row
/// `y` of a `w` by `h` image.
pub open spec fn turned_place(w: int, h: int, q: int, x: int, y: int) -> (int, int) {
    if q == 1 {
        (h - 1 - y, x)
    } else if q == 2 {
        (w - 1 - x, h - 1 - y)
    } else if q == 3 {
        (y, w - 1 - x)
    } else {
        (x, y)
    }
}

/// Where a plan keeps the size of the turned crop, every opaque pixel of the
/// crop is shown exactly where the quarter turns and the offset take it, as
/// far as that place lies in the viewport.
pub proof fn lemma_rendered_pixel(img: Image, plan: PlanModel, x: int, y: int, c: int)
    requires
        img.wf(),
        plan.fits(img.width as int, img.height as int),
        plan.new_w == turned_width(plan.crop_w, plan.crop_h, plan.turns),
        plan.new_h == turned_height(plan.crop_w, plan.crop_h, plan.turns),
        0 <= x < plan.crop_w,
        0 <= y < plan.crop_h,
        0 <= c < 4,
        img.channel(plan.crop_x + x, plan.crop_y + y, 3) == 255,
        plan.off_x + turned_place(plan.crop_w, plan.crop_h, plan.turns, x, y).0 < VIEW_WIDTH,
        plan.off_y + turned_place(plan.crop_w, plan.crop_h, plan.turns, x, y).1 < VIEW_HEIGHT,
    ensures
        compose(img, plan).channel(
            plan.off_x + turned_place(plan.crop_w, plan.crop_h, plan.turns, x, y).0,
            plan.off_y + turned_place(plan.crop_w, plan.crop_h, plan.turns, x, y).1,
            c,
        ) == img.channel(plan.crop_x + x, plan.crop_y + y, c),
{
    let part = img.crop(plan.crop_x, plan.crop_y, plan.crop_w as nat, plan.crop_h as nat);
    lemma_crop_keeps(img, plan.crop_x, plan.crop_y, plan.crop_w as nat, plan.crop_h as nat, x, y, c);
    lemma_crop_keeps(img, plan.crop_x, plan.crop_y, plan.crop_w as nat, plan.crop_h as nat, x, y, 3);
    let turned = part.rotate(plan.turns);
    let d = turned_place(plan.crop_w, plan.crop_h, plan.turns, x, y);
    if plan.turns == 1 {
        lemma_rotate90_moves(part, x, y, c);
        lemma_rotate90_moves(part, x, y, 3);
    } else if plan.turns == 2 {
        lemma_rotate180_moves(part, x, y, c);
        lemma_rotate180_moves(part, x, y, 3);
    } else if plan.turns == 3 {
        lemma_rotate270_moves(part, x, y, c);
        lemma_rotate270_moves(part, x, y, 3);
    }
    assert(turned.wf());
    assert(turned.channel(d.0, d.1, c) == part.channel(x, y, c));
    assert(turned.channel(d.0, d.1, 3) == 255);
    assert(turned.resize(plan.new_w as nat, plan.new_h as nat) == turned);
    let blank = Image::solid(VIEW_WIDTH as nat, VIEW_HEIGHT as nat, 0, 0, 0, 255);
    lemma_solid_wf(VIEW_WIDTH as nat, VIEW_HEIGHT as nat, 0, 0, 0, 255);
    lemma_overlay_shows(blank, turned, plan.off_x, plan.off_y, plan.off_x + d.0, plan.off_y + d.1, c);
}

} // verus!

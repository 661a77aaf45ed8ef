//! The menu-bar mascot: which art each state shows, decoding it, and finding
//! the visible part of an image so the icon fills its canvas.
use vstd::prelude::*;
use crate::ui_state::{
    ANSWERING, ERROR, NO_AUDIO, NOTICE, PROVISIONING_ENGINE, PROVISIONING_MODEL, RECORDING_CHAT,
    RECORDING_DICTATE, SPEAKING, STARTING, TRANSCRIBING,
};

verus! {

/// The side of the square menu-bar icon, in pixels.
pub const ICON_SIZE: usize = 32;

/// Pixels with alpha above this count as content (soft halos are kept).
pub const ALPHA_THRESHOLD: u8 = 4;

/// The number of dictation animation frames.
pub const DICTATE_FRAME_COUNT: usize = 4;

// ---------------------------------------------------------------- art

/// A piece of mascot art.
pub enum IconArt {
    Idle,
    Chat,
    Transcribing,
    Answering,
    Speaking,
    Error,
    /// One of the dictation frames, by index.
    DictateFrame(usize),
}

/// The art shown for a state: dictation cycles through its frames; the
/// download, install and start-up states share the transcribing art; a
/// notice and unknown states show the idle art.
pub open spec fn art_for(state: u8, frame: usize) -> IconArt {
    if state == RECORDING_DICTATE {
        IconArt::DictateFrame(frame % DICTATE_FRAME_COUNT)
    } else if state == RECORDING_CHAT {
        IconArt::Chat
    } else if state == TRANSCRIBING {
        IconArt::Transcribing
    } else if state == ANSWERING {
        IconArt::Answering
    } else if state == SPEAKING {
        IconArt::Speaking
    } else if state == ERROR || state == NO_AUDIO {
        IconArt::Error
    } else if state == NOTICE {
        IconArt::Idle
    } else if state == PROVISIONING_MODEL || state == PROVISIONING_ENGINE || state == STARTING {
        IconArt::Transcribing
    } else {
        IconArt::Idle
    }
}

/// Which art to draw for `state` at animation tick `frame`.
pub fn icon_art(state: u8, frame: usize) -> (r: IconArt)
    ensures
        r == art_for(state, frame),
{
    match state {
        RECORDING_DICTATE => IconArt::DictateFrame(frame % DICTATE_FRAME_COUNT),
        RECORDING_CHAT => IconArt::Chat,
        TRANSCRIBING => IconArt::Transcribing,
        ANSWERING => IconArt::Answering,
        SPEAKING => IconArt::Speaking,
        ERROR | NO_AUDIO => IconArt::Error,
        NOTICE => IconArt::Idle,
        PROVISIONING_MODEL | PROVISIONING_ENGINE | STARTING => IconArt::Transcribing,
        _ => IconArt::Idle,
    }
}

/// Whether the state's art is cropped to the box shared by all dictation
/// frames (so the head stays put while the mouth animates) rather than to its
/// own content.
pub fn uses_dictate_crop(state: u8) -> (r: bool)
    ensures
        r == (state == RECORDING_DICTATE),
{
    state == RECORDING_DICTATE
}

// ---------------------------------------------------------------- rectangles

/// A pixel rectangle.
#[derive(Clone, Copy)]
pub struct Rect {
    pub x: usize,
    pub y: usize,
    pub w: usize,
    pub h: usize,
}

/// The pixel `(px, py)` lies in `r`.
pub open spec fn inside(r: Rect, px: int, py: int) -> bool {
    r.x <= px < r.x + r.w && r.y <= py < r.y + r.h
}

pub open spec fn min(a: int, b: int) -> int {
    if a <= b { a } else { b }
}

pub open spec fn max(a: int, b: int) -> int {
    if a >= b { a } else { b }
}

/// The smallest rectangle holding both.
pub open spec fn union_rect(a: Rect, b: Rect) -> Rect {
    let x = min(a.x as int, b.x as int);
    let y = min(a.y as int, b.y as int);
    Rect {
        x: x as usize,
        y: y as usize,
        w: (max(a.x + a.w, b.x + b.w) - x) as usize,
        h: (max(a.y + a.h, b.y + b.h) - y) as usize,
    }
}

/// The far edges of the rectangle fit in `usize`.
pub open spec fn edges_fit(r: Rect) -> bool {
    r.x + r.w <= usize::MAX && r.y + r.h <= usize::MAX
}

impl Rect {
    /// The smallest rectangle holding both.
    pub fn union(self, other: Rect) -> (r: Rect)
        requires
            edges_fit(self),
            edges_fit(other),
        ensures
            r == union_rect(self, other),
            edges_fit(r),
    {
        let x = if self.x <= other.x { self.x } else { other.x };
        let y = if self.y <= other.y { self.y } else { other.y };
        let right = if self.x + self.w >= other.x + other.w { self.x + self.w } else { other.x + other.w };
        let bottom = if self.y + self.h >= other.y + other.h { self.y + self.h } else { other.y + other.h };
        Rect { x, y, w: right - x, h: bottom - y }
    }
}

/// Every pixel of either rectangle lies in their union, and the union is the
/// same whichever comes first.
pub proof fn lemma_union_covers(a: Rect, b: Rect, px: int, py: int)
    requires
        edges_fit(a),
        edges_fit(b),
    ensures
        inside(a, px, py) || inside(b, px, py) ==> inside(union_rect(a, b), px, py),
        union_rect(a, b) == union_rect(b, a),
{
}

/// Every pixel of the union lies in the span of the two rectangles: it adds
/// no column left of both, right of both, and no row above or below both.
pub proof fn lemma_union_is_smallest(a: Rect, b: Rect)
    requires
        edges_fit(a),
        edges_fit(b),
    ensures
        union_rect(a, b).x == a.x || union_rect(a, b).x == b.x,
        union_rect(a, b).y == a.y || union_rect(a, b).y == b.y,
        union_rect(a, b).x + union_rect(a, b).w == a.x + a.w || union_rect(a, b).x + union_rect(a, b).w == b.x + b.w,
        union_rect(a, b).y + union_rect(a, b).h == a.y + a.h || union_rect(a, b).y + union_rect(a, b).h == b.y + b.h,
{
}

// ---------------------------------------------------------------- content

/// The pixel `(px, py)` of an RGBA image `width` wide is content.
pub open spec fn visible(pixels: Seq<u8>, width: int, px: int, py: int) -> bool {
    pixels[(py * width + px) * 4 + 3] > ALPHA_THRESHOLD
}

/// `(px, py)` is a pixel of a `width` x `height` image.
pub open spec fn in_image(width: int, height: int, px: int, py: int) -> bool {
    0 <= px < width && 0 <= py < height
}

/// The image has content somewhere.
pub open spec fn has_content(pixels: Seq<u8>, width: int, height: int) -> bool {
    exists|px: int, py: int| in_image(width, height, px, py) && #[trigger] visible(pixels, width, px, py)
}

/// `r` is the bounding box of the image's content: it holds every content
/// pixel, and content touches each of its four edges.
pub open spec fn bounds_content(pixels: Seq<u8>, width: int, height: int, r: Rect) -> bool {
    &&& forall|px: int, py: int|
        in_image(width, height, px, py) && #[trigger] visible(pixels, width, px, py) ==> inside(r, px, py)
    &&& exists|px: int, py: int|
        in_image(width, height, px, py) && #[trigger] visible(pixels, width, px, py) && px == r.x
    &&& exists|px: int, py: int|
        in_image(width, height, px, py) && #[trigger] visible(pixels, width, px, py) && py == r.y
    &&& exists|px: int, py: int|
        in_image(width, height, px, py) && #[trigger] visible(pixels, width, px, py) && px == r.x + r.w - 1
    &&& exists|px: int, py: int|
        in_image(width, height, px, py) && #[trigger] visible(pixels, width, px, py) && py == r.y + r.h - 1
}

/// The bounding box of the content, or the whole image when it has none.
pub open spec fn content_rect(pixels: Seq<u8>, width: int, height: int) -> Rect {
    if has_content(pixels, width, height) {
        choose|r: Rect| bounds_content(pixels, width, height, r)
    } else {
        Rect { x: 0, y: 0, w: width as usize, h: height as usize }
    }
}

/// Content has one bounding box.
pub proof fn lemma_bounds_unique(pixels: Seq<u8>, width: int, height: int, r: Rect, q: Rect)
    requires
        bounds_content(pixels, width, height, r),
        bounds_content(pixels, width, height, q),
    ensures
        r == q,
{
    let (ax, ay) = choose|px: int, py: int|
        in_image(width, height, px, py) && #[trigger] visible(pixels, width, px, py) && px == r.x;
    let (bx, by) = choose|px: int, py: int|
        in_image(width, height, px, py) && #[trigger] visible(pixels, width, px, py) && px == q.x;
    let (cx, cy) = choose|px: int, py: int|
        in_image(width, height, px, py) && #[trigger] visible(pixels, width, px, py) && py == r.y;
    let (dx, dy) = choose|px: int, py: int|
        in_image(width, height, px, py) && #[trigger] visible(pixels, width, px, py) && py == q.y;
    let (ex, ey) = choose|px: int, py: int|
        in_image(width, height, px, py) && #[trigger] visible(pixels, width, px, py) && px == r.x + r.w - 1;
    let (fx, fy) = choose|px: int, py: int|
        in_image(width, height, px, py) && #[trigger] visible(pixels, width, px, py) && px == q.x + q.w - 1;
    let (gx, gy) = choose|px: int, py: int|
        in_image(width, height, px, py) && #[trigger] visible(pixels, width, px, py) && py == r.y + r.h - 1;
    let (hx, hy) = choose|px: int, py: int|
        in_image(width, height, px, py) && #[trigger] visible(pixels, width, px, py) && py == q.y + q.h - 1;
    assert(inside(q, ax, ay) && inside(r, bx, by));
    assert(inside(q, cx, cy) && inside(r, dx, dy));
    assert(inside(q, ex, ey) && inside(r, fx, fy));
    assert(inside(q, gx, gy) && inside(r, hx, hy));
}

/// The pixel `(px, py)` comes before `(x, y)` in row order.
pub open spec fn scanned(x: int, y: int, px: int, py: int) -> bool {
    py < y || (py == y && px < x)
}

proof fn lemma_row_fits(y: int, width: int, height: int)
    requires
        0 <= y < height,
        0 <= width,
    ensures
        y * width + width <= width * height,
        0 <= y * width,
        (y + 1) * width == y * width + width,
{
    assert((y + 1) * width == y * width + width) by (nonlinear_arith);
    assert(y * width + width <= width * height) by (nonlinear_arith)
        requires
            0 <= y < height,
            0 <= width,
    ;
    assert(0 <= y * width) by (nonlinear_arith)
        requires
            0 <= y,
            0 <= width,
    ;
}

/// The bounding box of the pixels with alpha above the threshold, or the whole
/// image when there are none.
pub fn content_bounds(pixels: &[u8], width: usize, height: usize) -> (r: Rect)
    requires
        width * height * 4 <= pixels@.len(),
    ensures
        !has_content(pixels@, width as int, height as int) ==> r == (Rect { x: 0, y: 0, w: width, h: height }),
        has_content(pixels@, width as int, height as int) ==> bounds_content(pixels@, width as int, height as int, r),
        has_content(pixels@, width as int, height as int) ==> r.x + r.w <= width && r.y + r.h <= height && r.w >= 1 && r.h >= 1,
        r == content_rect(pixels@, width as int, height as int),
{
    let ghost p = pixels@;
    let ghost wd = width as int;
    let ghost ht = height as int;
    let n = pixels.len();
    let mut min_x = width;
    let mut min_y = height;
    let mut max_x: usize = 0;
    let mut max_y: usize = 0;
    let mut found = false;
    let ghost mut a: (int, int) = (0, 0);
    let ghost mut b: (int, int) = (0, 0);
    let ghost mut c: (int, int) = (0, 0);
    let ghost mut d: (int, int) = (0, 0);
    let mut y: usize = 0;
    let mut row: usize = 0;
    while y < height
        invariant
            p == pixels@,
            wd == width,
            ht == height,
            width * height * 4 <= pixels@.len(),
            pixels@.len() == n,
            y <= height,
            row == y * width,
            !found ==> min_x == width && min_y == height && max_x == 0 && max_y == 0,
            !found ==> forall|px: int, py: int|
                in_image(wd, ht, px, py) && scanned(0, y as int, px, py) ==> !#[trigger] visible(p, wd, px, py),
            found ==> forall|px: int, py: int|
                in_image(wd, ht, px, py) && scanned(0, y as int, px, py) && #[trigger] visible(p, wd, px, py)
                    ==> min_x <= px <= max_x && min_y <= py <= max_y,
            found ==> in_image(wd, ht, a.0, a.1) && visible(p, wd, a.0, a.1) && a.0 == min_x,
            found ==> in_image(wd, ht, b.0, b.1) && visible(p, wd, b.0, b.1) && b.1 == min_y,
            found ==> in_image(wd, ht, c.0, c.1) && visible(p, wd, c.0, c.1) && c.0 == max_x,
            found ==> in_image(wd, ht, d.0, d.1) && visible(p, wd, d.0, d.1) && d.1 == max_y,
        decreases height - y,
    {
        proof {
            lemma_row_fits(y as int, wd, ht);
        }
        let mut x: usize = 0;
        while x < width
            invariant
                p == pixels@,
                wd == width,
                ht == height,
                width * height * 4 <= pixels@.len(),
                pixels@.len() == n,
                y < height,
                x <= width,
                row == y * width,
                row + width <= width * height,
                !found ==> min_x == width && min_y == height && max_x == 0 && max_y == 0,
                !found ==> forall|px: int, py: int|
                    in_image(wd, ht, px, py) && scanned(x as int, y as int, px, py) ==> !#[trigger] visible(p, wd, px, py),
                found ==> forall|px: int, py: int|
                    in_image(wd, ht, px, py) && scanned(x as int, y as int, px, py) && #[trigger] visible(p, wd, px, py)
                        ==> min_x <= px <= max_x && min_y <= py <= max_y,
                found ==> in_image(wd, ht, a.0, a.1) && visible(p, wd, a.0, a.1) && a.0 == min_x,
                found ==> in_image(wd, ht, b.0, b.1) && visible(p, wd, b.0, b.1) && b.1 == min_y,
                found ==> in_image(wd, ht, c.0, c.1) && visible(p, wd, c.0, c.1) && c.0 == max_x,
                found ==> in_image(wd, ht, d.0, d.1) && visible(p, wd, d.0, d.1) && d.1 == max_y,
            decreases width - x,
        {
            let i = (row + x) * 4 + 3;
            assert(i == (y * wd + x) * 4 + 3);
            if pixels[i] > ALPHA_THRESHOLD {
                assert(visible(p, wd, x as int, y as int));
                if !found || x < min_x {
                    proof { a = (x as int, y as int); }
                    min_x = x;
                }
                if !found || y < min_y {
                    proof { b = (x as int, y as int); }
                    min_y = y;
                }
                if !found || x > max_x {
                    proof { c = (x as int, y as int); }
                    max_x = x;
                }
                if !found || y > max_y {
                    proof { d = (x as int, y as int); }
                    max_y = y;
                }
                found = true;
            } else {
                assert(!visible(p, wd, x as int, y as int));
            }
            x = x + 1;
        }
        assert forall|px: int, py: int|
            in_image(wd, ht, px, py) && scanned(0, y + 1, px, py) implies scanned(x as int, y as int, px, py) by {}
        y = y + 1;
        row = row + width;
    }
    if !found {
        assert(!has_content(p, wd, ht)) by {
            assert forall|px: int, py: int| in_image(wd, ht, px, py) implies !#[trigger] visible(p, wd, px, py) by {
                assert(scanned(0, ht, px, py));
            }
        }
        return Rect { x: 0, y: 0, w: width, h: height };
    }
    assert(has_content(p, wd, ht)) by {
        assert(in_image(wd, ht, a.0, a.1) && visible(p, wd, a.0, a.1));
    }
    proof {
        assert(scanned(0, ht, a.0, a.1));
        assert(scanned(0, ht, b.0, b.1));
        assert(scanned(0, ht, c.0, c.1));
        assert(scanned(0, ht, d.0, d.1));
    }
    let r = Rect { x: min_x, y: min_y, w: max_x - min_x + 1, h: max_y - min_y + 1 };
    proof {
        assert forall|px: int, py: int|
            in_image(wd, ht, px, py) && #[trigger] visible(p, wd, px, py) implies inside(r, px, py) by {
            assert(scanned(0, ht, px, py));
        }
        assert(in_image(wd, ht, a.0, a.1) && visible(p, wd, a.0, a.1) && a.0 == r.x);
        assert(in_image(wd, ht, b.0, b.1) && visible(p, wd, b.0, b.1) && b.1 == r.y);
        assert(in_image(wd, ht, c.0, c.1) && visible(p, wd, c.0, c.1) && c.0 == r.x + r.w - 1);
        assert(in_image(wd, ht, d.0, d.1) && visible(p, wd, d.0, d.1) && d.1 == r.y + r.h - 1);
        assert(bounds_content(p, wd, ht, r));
        lemma_bounds_unique(p, wd, ht, r, choose|q: Rect| bounds_content(p, wd, ht, q));
    }
    r
}

// ---------------------------------------------------------------- decoding

/// An 8-bit RGBA image, four bytes a pixel, row after row.
pub struct Rgba {
    pub pixels: Vec<u8>,
    pub width: usize,
    pub height: usize,
}

/// The pixel bytes cover the whole image.
pub open spec fn rgba_fits(img: Rgba) -> bool {
    img.width * img.height * 4 <= img.pixels@.len()
}

/// What the `png` crate decodes from `bytes` (`Decoder::new` with
/// `read_info`, then `Reader::output_buffer_size` and `Reader::next_frame`):
/// the first frame's bytes, width, height, and the PNG codes of its color type
/// and bit depth; or the decoder's error text (`None`: the frame size overflows).
pub uninterp spec fn png_first_frame(bytes: Seq<u8>) -> Result<(Seq<u8>, u32, u32, u8, u8), Option<Seq<char>>>;

/// A decoded frame by its views.
pub open spec fn frame_view(r: Result<(Vec<u8>, u32, u32, u8, u8), Option<String>>) -> Result<(Seq<u8>, u32, u32, u8, u8), Option<Seq<char>>> {
    match r {
        Ok(f) => Ok((f.0@, f.1, f.2, f.3, f.4)),
        Err(Some(t)) => Err(Some(t@)),
        Err(None) => Err(None),
    }
}

/// Decodes the first frame of a PNG with the `png` crate.
/// Trusted: the result is the named `png_first_frame(bytes)`; decoding itself
/// is left to the crate.
#[verifier::external_body]
fn decode_png(bytes: &[u8]) -> (r: Result<(Vec<u8>, u32, u32, u8, u8), Option<String>>)
    ensures
        png_first_frame(bytes@) == frame_view(r),
{
    let mut reader = png::Decoder::new(std::io::Cursor::new(bytes)).read_info().map_err(|e| Some(e.to_string()))?;
    let mut pixels = vec![0u8; reader.output_buffer_size().ok_or(None)?];
    let info = reader.next_frame(&mut pixels).map_err(|e| Some(e.to_string()))?;
    pixels.truncate(info.buffer_size());
    Ok((pixels, info.width, info.height, info.color_type as u8, info.bit_depth as u8))
}

/// The PNG color type code of RGBA.
pub const PNG_COLOR_RGBA: u8 = 6;

/// What an icon file decodes to: its RGBA pixels, width and height; or why not.
pub open spec fn rgba_of(bytes: Seq<u8>) -> Result<(Seq<u8>, int, int), Seq<char>> {
    match png_first_frame(bytes) {
        Err(Some(e)) => Err(e),
        Err(None) => Err("invalid png buffer size"@),
        Ok((px, w, h, color, depth)) => if color != PNG_COLOR_RGBA || depth != 8 {
            Err("expected 8-bit RGBA png"@)
        } else if w * h * 4 > px.len() {
            Err("png frame shorter than its size"@)
        } else {
            Ok((px, w as int, h as int))
        },
    }
}

/// Decodes an icon file, which must be an 8-bit RGBA PNG.
pub fn decode_rgba(bytes: &[u8]) -> (r: Result<Rgba, String>)
    ensures
        r matches Ok(img) ==> rgba_fits(img) && rgba_of(bytes@) == Ok::<(Seq<u8>, int, int), Seq<char>>((img.pixels@, img.width as int, img.height as int)),
        r matches Err(e) ==> rgba_of(bytes@) == Err::<(Seq<u8>, int, int), Seq<char>>(e@),
{
    match decode_png(bytes) {
        Err(Some(e)) => Err(e),
        Err(None) => Err("invalid png buffer size".to_string()),
        Ok((pixels, w, h, color, depth)) => {
            if color != PNG_COLOR_RGBA || depth != 8 {
                return Err("expected 8-bit RGBA png".to_string());
            }
            assert((w as int) * (h as int) <= 0xffff_ffff * 0xffff_ffff) by (nonlinear_arith)
                requires
                    w <= 0xffff_ffff,
                    h <= 0xffff_ffff,
            ;
            let need: u128 = (w as u128) * (h as u128) * 4;
            if need > pixels.len() as u128 {
                return Err("png frame shorter than its size".to_string());
            }
            Ok(Rgba { pixels, width: w as usize, height: h as usize })
        },
    }
}

/// The rectangles merged left to right; one pixel at the origin when there are none.
pub open spec fn union_all(rects: Seq<Rect>) -> Rect
    decreases rects.len(),
{
    if rects.len() == 0 {
        Rect { x: 0, y: 0, w: 1, h: 1 }
    } else if rects.len() == 1 {
        rects[0]
    } else {
        union_rect(union_all(rects.drop_last()), rects.last())
    }
}

/// The content box of each image.
pub open spec fn content_rects(frames: Seq<Rgba>) -> Seq<Rect> {
    frames.map_values(|f: Rgba| content_rect(f.pixels@, f.width as int, f.height as int))
}

/// The crop box shared by the dictation frames: the union of their content
/// boxes (`dictate_crop`, over the frames that decoded).
pub fn dictate_crop(frames: &Vec<Rgba>) -> (r: Rect)
    requires
        forall|k: int| 0 <= k < frames@.len() ==> rgba_fits(#[trigger] frames@[k]),
    ensures
        r == union_all(content_rects(frames@)),
{
    let ghost rects = content_rects(frames@);
    if frames.len() == 0 {
        return Rect { x: 0, y: 0, w: 1, h: 1 };
    }
    let f0 = &frames[0];
    let mut acc = content_bounds(f0.pixels.as_slice(), f0.width, f0.height);
    assert(rects.take(1) =~= seq![rects[0]]);
    let mut i: usize = 1;
    while i < frames.len()
        invariant
            1 <= i <= frames@.len(),
            rects == content_rects(frames@),
            forall|k: int| 0 <= k < frames@.len() ==> rgba_fits(#[trigger] frames@[k]),
            acc == union_all(rects.take(i as int)),
            edges_fit(acc),
        decreases frames@.len() - i,
    {
        let f = &frames[i];
        let b = content_bounds(f.pixels.as_slice(), f.width, f.height);
        assert(rects.take(i + 1).drop_last() =~= rects.take(i as int));
        acc = acc.union(b);
        i = i + 1;
    }
    assert(rects.take(frames@.len() as int) =~= rects);
    acc
}

// ---------------------------------------------------------------- scaling

/// Byte `ch` of the canvas pixel `(dx, dy)` of a square canvas `size` wide.
pub open spec fn canvas_at(out: Seq<u8>, size: int, dx: int, dy: int, ch: int) -> u8 {
    out[(dy * size + dx) * 4 + ch]
}

/// The canvas pixel `(dx, dy)` lies in the `dw` x `dh` area centred on a
/// `size` canvas.
pub open spec fn in_area(size: int, dw: int, dh: int, dx: int, dy: int) -> bool {
    (size - dw) / 2 <= dx < (size - dw) / 2 + dw && (size - dh) / 2 <= dy < (size - dh) / 2 + dh
}

/// Byte `ch` of canvas pixel `(dx, dy)` when `rect` of the image is scaled by
/// nearest neighbour to `dw` x `dh` and centred on a transparent `size`
/// canvas: the source pixel is `rect.x + col * rect.w / dw`,
/// `rect.y + row * rect.h / dh` for the area's column and row.
pub open spec fn placed_pixel(img: Rgba, rect: Rect, size: int, dw: int, dh: int, dx: int, dy: int, ch: int) -> u8 {
    if in_area(size, dw, dh, dx, dy) {
        let sx = rect.x + (dx - (size - dw) / 2) * rect.w / dw;
        let sy = rect.y + (dy - (size - dh) / 2) * rect.h / dh;
        img.pixels@[(sy * img.width + sx) * 4 + ch]
    } else {
        0
    }
}

/// The area byte `(col, row, ch)` comes before `(x, y, c)` in copying order.
pub open spec fn copied_before(col: int, row: int, ch: int, x: int, y: int, c: int) -> bool {
    row < y || (row == y && (col < x || (col == x && ch < c)))
}

/// The canvas once the area bytes before `(x, y, c)` are copied.
pub open spec fn canvas_so_far(img: Rgba, rect: Rect, size: int, dw: int, dh: int, x: int, y: int, c: int, dx: int, dy: int, ch: int) -> u8 {
    if in_area(size, dw, dh, dx, dy) && copied_before(dx - (size - dw) / 2, dy - (size - dh) / 2, ch, x, y, c) {
        placed_pixel(img, rect, size, dw, dh, dx, dy, ch)
    } else {
        0
    }
}

proof fn lemma_scaled_below(i: int, n: int, len: int)
    requires
        0 <= i < n,
        0 < len,
    ensures
        0 <= i * len / n < len,
        i * len <= n * len,
{
    assert(0 <= i * len) by (nonlinear_arith)
        requires
            0 <= i,
            0 < len,
    ;
    assert(i * len < n * len) by (nonlinear_arith)
        requires
            i < n,
            0 < len,
    ;
    assert(i * len / n < len) by (nonlinear_arith)
        requires
            0 <= i * len < n * len,
            0 < n,
    ;
    assert(0 <= i * len / n) by (nonlinear_arith)
        requires
            0 <= i * len,
            0 < n,
    ;
}

proof fn lemma_cell_index(rows: int, cols: int, row: int, col: int)
    requires
        0 <= row < rows,
        0 <= col < cols,
    ensures
        0 <= row * cols + col,
        row * cols + col + 1 <= rows * cols,
{
    assert(0 <= row * cols) by (nonlinear_arith)
        requires
            0 <= row,
            0 <= col < cols,
    ;
    assert(row * cols + cols <= rows * cols) by (nonlinear_arith)
        requires
            row < rows,
            0 < cols,
    ;
}

proof fn lemma_canvas_index_unique(size: int, dx: int, dy: int, ch: int, x: int, y: int, c: int)
    requires
        0 <= dx < size,
        0 <= dy < size,
        0 <= ch < 4,
        0 <= x < size,
        0 <= y < size,
        0 <= c < 4,
        (dy * size + dx) * 4 + ch == (y * size + x) * 4 + c,
    ensures
        dx == x && dy == y && ch == c,
{
    let a = dy * size + dx;
    let b = y * size + x;
    assert(a == b && ch == c) by (nonlinear_arith)
        requires
            a * 4 + ch == b * 4 + c,
            0 <= ch < 4,
            0 <= c < 4,
    ;
    assert(dy == y) by (nonlinear_arith)
        requires
            dy * size + dx == y * size + x,
            0 <= dx < size,
            0 <= x < size,
    ;
}

/// Copies `rect` of the image, scaled by nearest neighbour to `dw` x `dh`,
/// into the centre of a transparent `size` x `size` canvas.
pub fn place_scaled(img: &Rgba, rect: Rect, size: usize, dw: usize, dh: usize) -> (out: Vec<u8>)
    requires
        rgba_fits(*img),
        1 <= rect.w,
        1 <= rect.h,
        rect.x + rect.w <= img.width,
        rect.y + rect.h <= img.height,
        1 <= dw <= size,
        1 <= dh <= size,
        size * size * 4 <= usize::MAX,
        dw * rect.w <= usize::MAX,
        dh * rect.h <= usize::MAX,
    ensures
        out@.len() == size * size * 4,
        forall|dx: int, dy: int, ch: int|
            0 <= dx < size && 0 <= dy < size && 0 <= ch < 4 ==> #[trigger] canvas_at(out@, size as int, dx, dy, ch)
                == placed_pixel(*img, rect, size as int, dw as int, dh as int, dx, dy, ch),
{
    let ghost sz = size as int;
    let ghost w = dw as int;
    let ghost h = dh as int;
    let n = size * size * 4;
    let mut out: Vec<u8> = Vec::new();
    while out.len() < n
        invariant
            n == size * size * 4,
            out@.len() <= n,
            forall|k: int| 0 <= k < out@.len() ==> out@[k] == 0,
        decreases n - out@.len(),
    {
        out.push(0);
    }
    proof {
        assert forall|dx: int, dy: int, ch: int| 0 <= dx < sz && 0 <= dy < sz && 0 <= ch < 4 implies
            #[trigger] canvas_at(out@, sz, dx, dy, ch) == canvas_so_far(*img, rect, sz, w, h, 0, 0, 0, dx, dy, ch) by {
            lemma_cell_index(sz, sz, dy, dx);
        }
    }
    let off_x = (size - dw) / 2;
    let off_y = (size - dh) / 2;
    let mut y: usize = 0;
    while y < dh
        invariant
            sz == size, w == dw, h == dh,
            rgba_fits(*img),
            1 <= rect.w, 1 <= rect.h,
            rect.x + rect.w <= img.width,
            rect.y + rect.h <= img.height,
            1 <= dw <= size, 1 <= dh <= size,
            size * size * 4 <= usize::MAX,
            dw * rect.w <= usize::MAX,
            dh * rect.h <= usize::MAX,
            off_x == (size - dw) / 2,
            off_y == (size - dh) / 2,
            y <= dh,
            out@.len() == size * size * 4,
            forall|dx: int, dy: int, ch: int| 0 <= dx < sz && 0 <= dy < sz && 0 <= ch < 4 ==>
                #[trigger] canvas_at(out@, sz, dx, dy, ch) == canvas_so_far(*img, rect, sz, w, h, 0, y as int, 0, dx, dy, ch),
        decreases dh - y,
    {
        proof {
            lemma_scaled_below(y as int, h, rect.h as int);
        }
        let sy = rect.y + y * rect.h / dh;
        let mut x: usize = 0;
        while x < dw
            invariant
                sz == size, w == dw, h == dh,
                rgba_fits(*img),
                1 <= rect.w, 1 <= rect.h,
                rect.x + rect.w <= img.width,
                rect.y + rect.h <= img.height,
                1 <= dw <= size, 1 <= dh <= size,
                size * size * 4 <= usize::MAX,
                dw * rect.w <= usize::MAX,
                off_x == (size - dw) / 2,
                off_y == (size - dh) / 2,
                y < dh,
                x <= dw,
                sy == rect.y + y * rect.h / (dh as int),
                rect.y <= sy < rect.y + rect.h,
                out@.len() == size * size * 4,
                forall|dx: int, dy: int, ch: int| 0 <= dx < sz && 0 <= dy < sz && 0 <= ch < 4 ==>
                    #[trigger] canvas_at(out@, sz, dx, dy, ch) == canvas_so_far(*img, rect, sz, w, h, x as int, y as int, 0, dx, dy, ch),
            decreases dw - x,
        {
            proof {
                lemma_scaled_below(x as int, w, rect.w as int);
                lemma_cell_index(img.height as int, img.width as int, sy as int, rect.x + x * rect.w / (dw as int));
                lemma_cell_index(sz, sz, (y + off_y) as int, (x + off_x) as int);
            }
            let sx = rect.x + x * rect.w / dw;
            let plen = img.pixels.len();
            assert(img.height * img.width == img.width * img.height) by (nonlinear_arith);
            let src = (sy * img.width + sx) * 4;
            let dst = ((y + off_y) * size + (x + off_x)) * 4;
            let mut c: usize = 0;
            while c < 4
                invariant
                    sz == size, w == dw, h == dh,
                    rgba_fits(*img),
                    off_x == (size - dw) / 2,
                    off_y == (size - dh) / 2,
                    y < dh, x < dw, c <= 4,
                    1 <= dw <= size, 1 <= dh <= size,
                    sy == rect.y + y * rect.h / (dh as int),
                    sx == rect.x + x * rect.w / (dw as int),
                    src == (sy * img.width + sx) * 4,
                    src + 4 <= img.pixels@.len(),
                    dst == ((y + off_y) * size + (x + off_x)) * 4,
                    dst + 4 <= size * size * 4,
                    out@.len() == size * size * 4,
                    forall|dx: int, dy: int, ch: int| 0 <= dx < sz && 0 <= dy < sz && 0 <= ch < 4 ==>
                        #[trigger] canvas_at(out@, sz, dx, dy, ch) == canvas_so_far(*img, rect, sz, w, h, x as int, y as int, c as int, dx, dy, ch),
                decreases 4 - c,
            {
                let ghost before = out@;
                let v = img.pixels[src + c];
                out.set(dst + c, v);
                proof {
                    assert forall|dx: int, dy: int, ch: int| 0 <= dx < sz && 0 <= dy < sz && 0 <= ch < 4 implies
                        #[trigger] canvas_at(out@, sz, dx, dy, ch) == canvas_so_far(*img, rect, sz, w, h, x as int, y as int, c + 1, dx, dy, ch) by {
                        assert(canvas_at(before, sz, dx, dy, ch) == canvas_so_far(*img, rect, sz, w, h, x as int, y as int, c as int, dx, dy, ch));
                        lemma_cell_index(sz, sz, dy, dx);
                        if (dy * sz + dx) * 4 + ch == (dst + c) as int {
                            lemma_canvas_index_unique(sz, dx, dy, ch, (x + off_x) as int, (y + off_y) as int, c as int);
                            assert(dx - (sz - w) / 2 == x);
                            assert(dy - (sz - h) / 2 == y);
                            assert(in_area(sz, w, h, dx, dy));
                            assert(copied_before(x as int, y as int, ch, x as int, y as int, c + 1));
                            assert(placed_pixel(*img, rect, sz, w, h, dx, dy, ch) == img.pixels@[src + c]);
                            assert(canvas_at(out@, sz, dx, dy, ch) == v);
                        } else {
                            assert(canvas_at(out@, sz, dx, dy, ch) == canvas_at(before, sz, dx, dy, ch));
                            if in_area(sz, w, h, dx, dy) && dx - (sz - w) / 2 == x && dy - (sz - h) / 2 == y && ch == c {
                                assert((dy * sz + dx) * 4 + ch == (dst + c) as int);
                            }
                        }
                    }
                }
                c = c + 1;
            }
            proof {
                assert forall|dx: int, dy: int, ch: int| 0 <= dx < sz && 0 <= dy < sz && 0 <= ch < 4 implies
                    #[trigger] canvas_at(out@, sz, dx, dy, ch) == canvas_so_far(*img, rect, sz, w, h, x + 1, y as int, 0, dx, dy, ch) by {
                    assert(canvas_at(out@, sz, dx, dy, ch) == canvas_so_far(*img, rect, sz, w, h, x as int, y as int, 4, dx, dy, ch));
                }
            }
            x = x + 1;
        }
        proof {
            assert forall|dx: int, dy: int, ch: int| 0 <= dx < sz && 0 <= dy < sz && 0 <= ch < 4 implies
                #[trigger] canvas_at(out@, sz, dx, dy, ch) == canvas_so_far(*img, rect, sz, w, h, 0, y + 1, 0, dx, dy, ch) by {
                assert(canvas_at(out@, sz, dx, dy, ch) == canvas_so_far(*img, rect, sz, w, h, w, y as int, 0, dx, dy, ch));
            }
        }
        y = y + 1;
    }
    proof {
        assert forall|dx: int, dy: int, ch: int| 0 <= dx < sz && 0 <= dy < sz && 0 <= ch < 4 implies
            #[trigger] canvas_at(out@, sz, dx, dy, ch) == placed_pixel(*img, rect, sz, w, h, dx, dy, ch) by {
            assert(canvas_at(out@, sz, dx, dy, ch) == canvas_so_far(*img, rect, sz, w, h, 0, h, 0, dx, dy, ch));
        }
    }
    out
}

} // verus!

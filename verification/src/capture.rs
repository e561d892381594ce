//! Screenshots of the game window.
//!
//! Frame numbers come from the ruler; screenshots are only taken on demand while the
//! game is paused (the opening pixel trigger, formation matching, refreshing the deploy
//! bar before each deploy). The capture backend itself is platform code of the
//! application; this module holds the frame and its pixel access.
use vstd::prelude::*;

use crate::geom::{Point, Rect};

verus! {

/// Why the game window could not be used or captured.
#[derive(Debug)]
pub enum CaptureError {
    /// No window of the named process.
    WindowNotFound(String),
    WindowNotUsable(String),
    /// The client area changed size: the capture session and the coordinate mapping
    /// must be rebuilt.
    WindowResized,
    FrameTimeout,
    Backend(String),
    /// The platform has no Windows Graphics Capture.
    Unsupported,
}

/// The user-facing explanation of a capture error.
pub open spec fn capture_error_message(e: CaptureError) -> Seq<char> {
    match e {
        CaptureError::WindowNotFound(p) => "找不到 "@ + p@ + " 的窗口，请先启动游戏"@,
        CaptureError::WindowNotUsable(m) => "游戏窗口不可用："@ + m@,
        CaptureError::WindowResized => "游戏窗口尺寸已改变，需要重新建立捕获会话并重算坐标映射"@,
        CaptureError::FrameTimeout => "等待截图帧超时"@,
        CaptureError::Backend(m) => "截图后端错误："@ + m@,
        CaptureError::Unsupported => "当前系统不支持 Windows Graphics Capture（需要 Windows 10 1803 或更高）"@,
    }
}

impl CaptureError {
    /// See [`capture_error_message`].
    pub fn message(&self) -> (s: String)
        ensures
            s@ == capture_error_message(*self),
    {
        match self {
            CaptureError::WindowNotFound(p) => {
                let mut s = String::from_str("找不到 ");
                s.append(p.as_str());
                s.append(" 的窗口，请先启动游戏");
                s
            },
            CaptureError::WindowNotUsable(m) => {
                let mut s = String::from_str("游戏窗口不可用：");
                s.append(m.as_str());
                s
            },
            CaptureError::WindowResized => String::from_str(
                "游戏窗口尺寸已改变，需要重新建立捕获会话并重算坐标映射",
            ),
            CaptureError::FrameTimeout => String::from_str("等待截图帧超时"),
            CaptureError::Backend(m) => {
                let mut s = String::from_str("截图后端错误：");
                s.append(m.as_str());
                s
            },
            CaptureError::Unsupported => String::from_str(
                "当前系统不支持 Windows Graphics Capture（需要 Windows 10 1803 或更高）",
            ),
        }
    }
}

/// Bytes per pixel (BGRA8).
pub const BYTES_PER_PIXEL: usize = 4;

/// A BGRA8 screenshot of the client area, rows packed `width * 4` bytes apart.
#[derive(Clone, Debug, PartialEq)]
pub struct Frame {
    pub width: u32,
    pub height: u32,
    pub pixels: Vec<u8>,
}

/// Whether `(x, y)` lies in a `width`×`height` frame.
pub open spec fn in_frame(width: int, height: int, x: int, y: int) -> bool {
    0 <= x < width && 0 <= y < height
}

/// Where the pixel `(x, y)` starts in a frame `width` pixels wide.
pub open spec fn pixel_offset(width: int, x: int, y: int) -> int {
    (y * width + x) * 4
}

proof fn lemma_pixel_in_buffer(width: int, height: int, x: int, y: int)
    requires
        0 <= x < width,
        0 <= y < height,
    ensures
        0 <= pixel_offset(width, x, y),
        pixel_offset(width, x, y) + 4 <= width * height * 4,
        y * width + x < width * height,
        0 <= y * width <= y * width + x,
{
    assert(y * width + x < width * height) by (nonlinear_arith)
        requires
            0 <= x < width,
            0 <= y < height,
    ;
    assert(0 <= y * width) by (nonlinear_arith)
        requires
            0 <= y,
            0 <= width,
    ;
}

impl Frame {
    /// The buffer holds exactly `width * height` pixels.
    pub open spec fn wf(&self) -> bool {
        self.pixels@.len() == self.width * self.height * 4
    }

    /// A frame of `pixels`, which must hold `width * height` BGRA8 pixels.
    pub fn new(width: u32, height: u32, pixels: Vec<u8>) -> (f: Self)
        requires
            pixels@.len() == width * height * 4,
        ensures
            f.width == width,
            f.height == height,
            f.pixels@ == pixels@,
            f.wf(),
    {
        Frame { width, height, pixels }
    }

    /// The BGRA of `(x, y)`; `None` outside the frame.
    pub fn pixel(&self, x: i32, y: i32) -> (r: Option<[u8; 4]>)
        requires
            self.wf(),
        ensures
            match r {
                Some(p) => in_frame(self.width as int, self.height as int, x as int, y as int)
                    && p@ == self.pixels@.subrange(
                    pixel_offset(self.width as int, x as int, y as int),
                    pixel_offset(self.width as int, x as int, y as int) + 4,
                ),
                None => !in_frame(self.width as int, self.height as int, x as int, y as int),
            },
    {
        if x < 0 || y < 0 || (x as i64) >= (self.width as i64) || (y as i64) >= (self.height as i64) {
            return None;
        }
        proof {
            lemma_pixel_in_buffer(self.width as int, self.height as int, x as int, y as int);
        }
        let len = self.pixels.len();
        assert(len == self.width * self.height * 4);
        let row: usize = (y as usize) * (self.width as usize);
        let offset = (row + (x as usize)) * BYTES_PER_PIXEL;
        let p = [
            self.pixels[offset],
            self.pixels[offset + 1],
            self.pixels[offset + 2],
            self.pixels[offset + 3],
        ];
        assert(p@ =~= self.pixels@.subrange(offset as int, offset + 4));
        Some(p)
    }

    /// The RGB of `(x, y)` (alpha dropped); `None` outside the frame.
    pub fn rgb(&self, x: i32, y: i32) -> (r: Option<[u8; 3]>)
        requires
            self.wf(),
        ensures
            match r {
                Some(c) => in_frame(self.width as int, self.height as int, x as int, y as int)
                    && ({
                    let o = pixel_offset(self.width as int, x as int, y as int);
                    c@ == seq![self.pixels@[o + 2], self.pixels@[o + 1], self.pixels@[o]]
                }),
                None => !in_frame(self.width as int, self.height as int, x as int, y as int),
            },
    {
        match self.pixel(x, y) {
            Some(p) => {
                let c = [p[2], p[1], p[0]];
                let ghost o = pixel_offset(self.width as int, x as int, y as int);
                proof {
                    lemma_pixel_in_buffer(self.width as int, self.height as int, x as int, y as int);
                }
                assert(p@[2] == self.pixels@[o + 2]);
                assert(p@[1] == self.pixels@[o + 1]);
                assert(p@[0] == self.pixels@[o]);
                assert(c@ =~= seq![p@[2], p@[1], p@[0]]);
                Some(c)
            },
            None => None,
        }
    }

    /// The whole frame as a rectangle at the origin.
    pub fn bounds(&self) -> (r: Rect)
        ensures
            r.x == 0 && r.y == 0,
            r.width == self.width as i32,
            r.height == self.height as i32,
    {
        #[verifier::truncate]
        let w = self.width as i32;
        #[verifier::truncate]
        let h = self.height as i32;
        Rect::new(0, 0, w, h)
    }
}

/// The frame after painting `(x, y)` with `rgb` (stored as BGR; alpha kept), where the
/// point lies in the frame.
pub open spec fn painted(pixels: Seq<u8>, width: int, height: int, at: Point, rgb: Seq<u8>) -> Seq<u8> {
    if in_frame(width, height, at.x as int, at.y as int) {
        let o = pixel_offset(width, at.x as int, at.y as int);
        pixels.update(o, rgb[2]).update(o + 1, rgb[1]).update(o + 2, rgb[0])
    } else {
        pixels
    }
}

/// Paints one pixel; points outside the frame are ignored.
pub fn put(frame: &mut Frame, at: Point, rgb: [u8; 3])
    requires
        old(frame).wf(),
    ensures
        final(frame).wf(),
        final(frame).width == old(frame).width,
        final(frame).height == old(frame).height,
        final(frame).pixels@ == painted(
            old(frame).pixels@,
            old(frame).width as int,
            old(frame).height as int,
            at,
            rgb@,
        ),
{
    if at.x < 0 || at.y < 0 || (at.x as i64) >= (frame.width as i64) || (at.y as i64) >= (
    frame.height as i64) {
        return ;
    }
    proof {
        lemma_pixel_in_buffer(frame.width as int, frame.height as int, at.x as int, at.y as int);
    }
    let len = frame.pixels.len();
    assert(len == frame.width * frame.height * 4);
    let row: usize = (at.y as usize) * (frame.width as usize);
    let i = (row + (at.x as usize)) * BYTES_PER_PIXEL;
    frame.pixels.set(i, rgb[2]);
    frame.pixels.set(i + 1, rgb[1]);
    frame.pixels.set(i + 2, rgb[0]);
}

/// The byte `c` (0 = blue, 1 = green, 2 = red, 3 = alpha) of the pixel `(x, y)`.
pub open spec fn byte_at(pixels: Seq<u8>, width: int, x: int, y: int, c: int) -> u8 {
    pixels[pixel_offset(width, x, y) + c]
}

/// Byte `c` of a pixel painted with `rgb` whose byte `c` was `before`: the colour is
/// stored as BGR and alpha is kept.
pub open spec fn painted_byte(rgb: Seq<u8>, c: int, before: u8) -> u8 {
    if c == 0 {
        rgb[2]
    } else if c == 1 {
        rgb[1]
    } else if c == 2 {
        rgb[0]
    } else {
        before
    }
}

/// Whether `(x, y)` lies on the border that [`outline`] draws for `rect`: its top and
/// bottom rows across `rect.x .. right`, and its left and right columns down
/// `rect.y .. bottom`.
pub open spec fn on_outline(rect: Rect, x: int, y: int) -> bool {
    let right = rect.x + rect.width;
    let bottom = rect.y + rect.height;
    ||| rect.x <= x < right && (y == rect.y || y == bottom - 1)
    ||| rect.y <= y < bottom && (x == rect.x || x == right - 1)
}

/// Whether `(x, y)` lies on the cross of half-width `arm` centred on `at`.
pub open spec fn on_cross(at: Point, arm: int, x: int, y: int) -> bool {
    ||| y == at.y && at.x - arm <= x <= at.x + arm
    ||| x == at.x && at.y - arm <= y <= at.y + arm
}

/// The frame's bytes are those of `before` with exactly the pixels on `mark` painted.
pub open spec fn painted_where(
    after: Seq<u8>,
    before: Seq<u8>,
    width: int,
    height: int,
    rgb: Seq<u8>,
    mark: spec_fn(int, int) -> bool,
) -> bool {
    forall|x: int, y: int, c: int|
        in_frame(width, height, x, y) && 0 <= c < 4 ==> #[trigger] byte_at(after, width, x, y, c)
            == if mark(x, y) {
            painted_byte(rgb, c, byte_at(before, width, x, y, c))
        } else {
            byte_at(before, width, x, y, c)
        }
}

proof fn lemma_offset_injective(w: int, h: int, x1: int, y1: int, c1: int, x2: int, y2: int, c2: int)
    requires
        in_frame(w, h, x1, y1),
        in_frame(w, h, x2, y2),
        0 <= c1 < 4,
        0 <= c2 < 4,
        pixel_offset(w, x1, y1) + c1 == pixel_offset(w, x2, y2) + c2,
    ensures
        x1 == x2,
        y1 == y2,
        c1 == c2,
{
    let p1 = y1 * w + x1;
    let p2 = y2 * w + x2;
    assert(p1 == p2 && c1 == c2) by {
        assert(4 * p1 + c1 == 4 * p2 + c2);
    }
    assert(y1 == y2) by (nonlinear_arith)
        requires
            y1 * w + x1 == y2 * w + x2,
            0 <= x1 < w,
            0 <= x2 < w,
    ;
}

/// What painting one point does to every pixel of the frame.
proof fn lemma_painted_bytes(before: Seq<u8>, w: int, h: int, at: Point, rgb: Seq<u8>)
    requires
        before.len() == w * h * 4,
    ensures
        forall|x: int, y: int, c: int|
            in_frame(w, h, x, y) && 0 <= c < 4 ==> #[trigger] byte_at(painted(before, w, h, at, rgb), w, x, y, c)
                == if x == at.x && y == at.y {
                painted_byte(rgb, c, byte_at(before, w, x, y, c))
            } else {
                byte_at(before, w, x, y, c)
            },
{
    assert forall|x: int, y: int, c: int| in_frame(w, h, x, y) && 0 <= c < 4 implies #[trigger] byte_at(
        painted(before, w, h, at, rgb),
        w,
        x,
        y,
        c,
    ) == if x == at.x && y == at.y {
        painted_byte(rgb, c, byte_at(before, w, x, y, c))
    } else {
        byte_at(before, w, x, y, c)
    } by {
        lemma_pixel_in_buffer(w, h, x, y);
        if in_frame(w, h, at.x as int, at.y as int) {
            lemma_pixel_in_buffer(w, h, at.x as int, at.y as int);
            let o = pixel_offset(w, at.x as int, at.y as int);
            let k = pixel_offset(w, x, y) + c;
            if k == o {
                lemma_offset_injective(w, h, x, y, c, at.x as int, at.y as int, 0);
            } else if k == o + 1 {
                lemma_offset_injective(w, h, x, y, c, at.x as int, at.y as int, 1);
            } else if k == o + 2 {
                lemma_offset_injective(w, h, x, y, c, at.x as int, at.y as int, 2);
            } else if x == at.x && y == at.y {
                assert(c == 3);
            }
        }
    }
}

/// Draws the one-pixel border of `rect` (for diagnostic images); what falls outside the
/// frame is skipped.
pub fn outline(frame: &mut Frame, rect: Rect, rgb: [u8; 3])
    requires
        old(frame).wf(),
        rect.x + rect.width <= i32::MAX,
        rect.y + rect.height <= i32::MAX,
        rect.x + rect.width >= i32::MIN + 1,
        rect.y + rect.height >= i32::MIN + 1,
    ensures
        final(frame).wf(),
        final(frame).width == old(frame).width,
        final(frame).height == old(frame).height,
        painted_where(
            final(frame).pixels@,
            old(frame).pixels@,
            old(frame).width as int,
            old(frame).height as int,
            rgb@,
            |x: int, y: int| on_outline(rect, x, y),
        ),
{
    let ghost w = frame.width as int;
    let ghost h = frame.height as int;
    let ghost start = frame.pixels@;
    let right = rect.x + rect.width;
    let bottom = rect.y + rect.height;
    let mut x = rect.x;
    while x < right
        invariant
            frame.wf(),
            frame.width == old(frame).width,
            frame.height == old(frame).height,
            w == frame.width,
            h == frame.height,
            start == old(frame).pixels@,
            right == rect.x + rect.width,
            bottom == rect.y + rect.height,
            bottom >= i32::MIN + 1,
            rect.x <= x <= right || x == rect.x,
            painted_where(
                frame.pixels@,
                start,
                w,
                h,
                rgb@,
                |px: int, py: int| rect.x <= px < x && (py == rect.y || py == bottom - 1),
            ),
        decreases right - x,
    {
        let ghost before = frame.pixels@;
        let spot = Point { x, y: rect.y };
        put(frame, spot, rgb);
        let ghost mid = frame.pixels@;
        proof {
            lemma_painted_bytes(before, w, h, spot, rgb@);
        }
        let spot = Point { x, y: bottom - 1 };
        put(frame, spot, rgb);
        proof {
            lemma_painted_bytes(mid, w, h, spot, rgb@);
        }
        x = x + 1;
    }
    let mut y = rect.y;
    while y < bottom
        invariant
            frame.wf(),
            frame.width == old(frame).width,
            frame.height == old(frame).height,
            w == frame.width,
            h == frame.height,
            start == old(frame).pixels@,
            right == rect.x + rect.width,
            bottom == rect.y + rect.height,
            right >= i32::MIN + 1,
            rect.y <= y <= bottom || y == rect.y,
            painted_where(
                frame.pixels@,
                start,
                w,
                h,
                rgb@,
                |px: int, py: int|
                    (rect.x <= px < right && (py == rect.y || py == bottom - 1)) || (rect.y <= py < y
                        && (px == rect.x || px == right - 1)),
            ),
        decreases bottom - y,
    {
        let ghost before = frame.pixels@;
        let spot = Point { x: rect.x, y };
        put(frame, spot, rgb);
        let ghost mid = frame.pixels@;
        proof {
            lemma_painted_bytes(before, w, h, spot, rgb@);
        }
        let spot = Point { x: right - 1, y };
        put(frame, spot, rgb);
        proof {
            lemma_painted_bytes(mid, w, h, spot, rgb@);
        }
        y = y + 1;
    }
}

/// Draws a cross of half-width `arm` centred on `at` (for diagnostic images); what falls
/// outside the frame is skipped.
pub fn cross(frame: &mut Frame, at: Point, rgb: [u8; 3], arm: i32)
    requires
        old(frame).wf(),
        0 <= arm,
        at.x - arm >= i32::MIN && at.x + arm <= i32::MAX,
        at.y - arm >= i32::MIN && at.y + arm <= i32::MAX,
    ensures
        final(frame).wf(),
        final(frame).width == old(frame).width,
        final(frame).height == old(frame).height,
        painted_where(
            final(frame).pixels@,
            old(frame).pixels@,
            old(frame).width as int,
            old(frame).height as int,
            rgb@,
            |x: int, y: int| on_cross(at, arm as int, x, y),
        ),
{
    let ghost w = frame.width as int;
    let ghost h = frame.height as int;
    let ghost start = frame.pixels@;
    let last: i64 = arm as i64;
    let mut d: i64 = -last;
    while d <= last
        invariant
            frame.wf(),
            frame.width == old(frame).width,
            frame.height == old(frame).height,
            w == frame.width,
            h == frame.height,
            start == old(frame).pixels@,
            last == arm,
            -last <= d <= last + 1,
            0 <= arm,
            at.x - arm >= i32::MIN && at.x + arm <= i32::MAX,
            at.y - arm >= i32::MIN && at.y + arm <= i32::MAX,
            painted_where(
                frame.pixels@,
                start,
                w,
                h,
                rgb@,
                |px: int, py: int|
                    (py == at.y && at.x - arm <= px < at.x + d) || (px == at.x && at.y - arm <= py
                        < at.y + d),
            ),
        decreases last + 1 - d,
    {
        let step = d as i32;
        let ghost before = frame.pixels@;
        let spot = Point { x: at.x + step, y: at.y };
        put(frame, spot, rgb);
        let ghost mid = frame.pixels@;
        proof {
            lemma_painted_bytes(before, w, h, spot, rgb@);
        }
        let spot = Point { x: at.x, y: at.y + step };
        put(frame, spot, rgb);
        proof {
            lemma_painted_bytes(mid, w, h, spot, rgb@);
        }
        d = d + 1;
    }
}

} // verus!

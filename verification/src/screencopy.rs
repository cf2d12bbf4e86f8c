//! Screenshots: which part of an output a client gets, and into which buffer.

use vstd::prelude::*;

use crate::geometry::Rect;
use crate::output_configuration::Transform;

verus! {

/// The output is turned on its side.
pub open spec fn on_its_side(transform: Transform) -> bool {
    transform is Rotated90 || transform is Rotated270 || transform is Flipped90
        || transform is Flipped270
}

/// The size of an upright picture of an output.
pub open spec fn upright(mode: Option<(i32, i32)>, transform: Transform) -> Option<(i32, i32)> {
    match mode {
        Some((w, h)) => if on_its_side(transform) {
            Some((h, w))
        } else {
            Some((w, h))
        },
        None => None,
    }
}

/// The size of an upright picture of an output, which has one while it has a mode.
pub fn output_capture_size(mode: Option<(i32, i32)>, transform: Transform) -> (r: Option<(i32, i32)>)
    ensures
        r == upright(mode, transform),
{
    match mode {
        Some((w, h)) => {
            let sideways: bool = match transform {
                Transform::Rotated90 => true,
                Transform::Rotated270 => true,
                Transform::Flipped90 => true,
                Transform::Flipped270 => true,
                _ => false,
            };
            if sideways {
                Some((h, w))
            } else {
                Some((w, h))
            }
        },
        None => None,
    }
}

/// The lesser of two numbers.
pub open spec fn lesser(a: int, b: int) -> int {
    if a < b {
        a
    } else {
        b
    }
}

/// The greater of two numbers.
pub open spec fn greater(a: int, b: int) -> int {
    if a < b {
        b
    } else {
        a
    }
}

/// A point, in whole pixels, lies in a rectangle.
pub open spec fn pixel_in(x: int, y: int, rect: Rect) -> bool {
    rect.x <= x < rect.x + rect.w && rect.y <= y < rect.y + rect.h
}

/// `r` has exactly the pixels of `region` that lie in a picture of the size.
pub open spec fn is_part(r: Rect, size: (i32, i32), region: Rect) -> bool {
    forall|x: int, y: int| #[trigger]
        pixel_in(x, y, r) <==> pixel_in(x, y, region) && 0 <= x < size.0 && 0 <= y < size.1
}

/// A picture of the size has a pixel of `region`.
pub open spec fn overlaps(size: (i32, i32), region: Rect) -> bool {
    lesser(size.0 as int, region.x + region.w) > greater(0, region.x as int) && lesser(
        size.1 as int,
        region.y + region.h,
    ) > greater(0, region.y as int)
}

/// The part of an output that a capture copies: all of it, or what it has of a
/// region, given in pixels of the upright picture. There is none where the output
/// has no mode or nothing of the region.
pub fn output_capture_rect(
    mode: Option<(i32, i32)>,
    transform: Transform,
    region: Option<Rect>,
) -> (r: Option<Rect>)
    requires
        mode is Some ==> (mode->0).0 >= 0 && (mode->0).1 >= 0,
        region is Some ==> (region->0).w >= 0 && (region->0).h >= 0,
    ensures
        match upright(mode, transform) {
            None => r is None,
            Some(size) => match region {
                None => if size.0 > 0 && size.1 > 0 {
                    r == Some(Rect { x: 0, y: 0, w: size.0, h: size.1 })
                } else {
                    r is None
                },
                Some(region) => {
                    &&& r is Some == overlaps(size, region)
                    &&& r is Some ==> is_part(r->0, size, region) && (r->0).w > 0 && (r->0).h > 0
                        && (r->0).x >= 0 && (r->0).y >= 0 && (r->0).w <= size.0 && (r->0).h
                        <= size.1
                },
            },
        },
{
    let (w, h): (i32, i32) = match output_capture_size(mode, transform) {
        Some(size) => size,
        None => {
            return None;
        },
    };
    let rect: Rect = match region {
        Some(region) => region,
        None => Rect { x: 0, y: 0, w, h },
    };
    let left: i64 = if rect.x < 0 {
        0
    } else {
        rect.x as i64
    };
    let top: i64 = if rect.y < 0 {
        0
    } else {
        rect.y as i64
    };
    let far_right: i64 = rect.x as i64 + rect.w as i64;
    let far_bottom: i64 = rect.y as i64 + rect.h as i64;
    let right: i64 = if (w as i64) < far_right {
        w as i64
    } else {
        far_right
    };
    let bottom: i64 = if (h as i64) < far_bottom {
        h as i64
    } else {
        far_bottom
    };
    if right <= left || bottom <= top {
        return None;
    }
    Some(
        Rect { x: left as i32, y: top as i32, w: (right - left) as i32, h: (bottom - top) as i32 },
    )
}

/// How the pixels of a buffer are laid out.
#[derive(Clone, Copy, Debug, PartialEq, Eq, Structural)]
pub enum PixelFormat {
    Argb8888,
    Xrgb8888,
    Other,
}

/// What a client is offered for a frame, with alpha in its pixels.
#[derive(Clone, Copy, Debug, PartialEq, Eq, Structural)]
pub struct FrameOffer {
    pub width: u32,
    pub height: u32,
    pub stride: u32,
    /// A buffer of graphics memory will do as well.
    pub dmabuf: bool,
}

/// A frame that a client may copy once.
pub struct ScreencopyFrame {
    /// The output and its part; none where there is nothing to copy.
    pub capture: Option<(u64, Rect)>,
    pub overlay_cursor: bool,
    pub copied: bool,
}

/// What becomes of a request for a frame: one without a part fails at once.
pub fn capture_output(
    output: Option<u64>,
    mode: Option<(i32, i32)>,
    part: Option<Rect>,
    overlay_cursor: i32,
    graphics_memory: bool,
    excluded_layers: bool,
) -> (r: (ScreencopyFrame, Option<FrameOffer>))
    requires
        part is Some ==> 0 < (part->0).w <= 0x1fff_ffff && 0 < (part->0).h,
    ensures
        !r.0.copied,
        if output is Some && part is Some {
            let rect = part->0;
            &&& r.0.capture == Some((output->0, rect))
            &&& r.0.overlay_cursor == (overlay_cursor != 0)
            &&& r.1 is Some
            &&& (r.1->0).width == rect.w
            &&& (r.1->0).height == rect.h
            &&& (r.1->0).stride == rect.w * 4
            &&& (r.1->0).dmabuf == (mode == Some((rect.w, rect.h)) && graphics_memory
                && !excluded_layers)
        } else {
            r.0.capture is None && !r.0.overlay_cursor && r.1 is None
        },
{
    match (output, part) {
        (Some(output), Some(rect)) => {
            let full: bool = match mode {
                Some((w, h)) => w == rect.w && h == rect.h,
                None => false,
            };
            let offer: FrameOffer = FrameOffer {
                width: rect.w as u32,
                height: rect.h as u32,
                stride: rect.w as u32 * 4,
                dmabuf: full && graphics_memory && !excluded_layers,
            };
            (
                ScreencopyFrame {
                    capture: Some((output, rect)),
                    overlay_cursor: overlay_cursor != 0,
                    copied: false,
                },
                Some(offer),
            )
        },
        _ => (ScreencopyFrame { capture: None, overlay_cursor: false, copied: false }, None),
    }
}

/// A buffer that a client hands in.
#[derive(Clone, Copy, Debug, PartialEq, Eq, Structural)]
pub enum FrameBuffer {
    GraphicsMemory { width: i32, height: i32, format: PixelFormat },
    SharedMemory { width: i32, height: i32, format: PixelFormat },
    Other,
}

/// What becomes of a request to copy a frame.
#[derive(Clone, Copy, Debug, PartialEq, Eq, Structural)]
pub enum CopyReply {
    /// The frame was copied before: nothing.
    Ignored,
    Failed,
    /// The whole output is drawn into the buffer.
    Draw { output: u64, cursor: bool, damage: bool },
    /// A part of the output is written to the buffer.
    Write { output: u64, rect: Rect, cursor: bool, damage: bool },
}

/// The layout has eight bits for each colour in the order that is offered.
pub open spec fn format_fits(format: PixelFormat) -> bool {
    format is Argb8888 || format is Xrgb8888
}

fn fits(format: PixelFormat) -> (r: bool)
    ensures
        r == format_fits(format),
{
    match format {
        PixelFormat::Argb8888 => true,
        PixelFormat::Xrgb8888 => true,
        PixelFormat::Other => false,
    }
}

/// What becomes of a frame that is copied for the first time. Graphics memory has to
/// have the size of the whole output, shared memory at least that of the part.
pub open spec fn copy_reply(
    capture: Option<(u64, Rect)>,
    cursor: bool,
    damage: bool,
    buffer: FrameBuffer,
    full: Option<(i32, i32)>,
    graphics_memory: bool,
    excluded_layers: bool,
) -> CopyReply {
    match capture {
        None => CopyReply::Failed,
        Some((output, rect)) => match buffer {
            FrameBuffer::GraphicsMemory { width, height, format } => if full == Some((width, height))
                && rect == (Rect { x: 0, y: 0, w: width, h: height }) && format_fits(format)
                && graphics_memory && !excluded_layers {
                CopyReply::Draw { output, cursor, damage }
            } else {
                CopyReply::Failed
            },
            FrameBuffer::SharedMemory { width, height, format } => if width >= rect.w && height
                >= rect.h && format_fits(format) {
                CopyReply::Write { output, rect, cursor, damage }
            } else {
                CopyReply::Failed
            },
            FrameBuffer::Other => CopyReply::Failed,
        },
    }
}

impl ScreencopyFrame {
    /// A client hands in a buffer; only the first counts. It may ask to be told what
    /// changed too.
    pub fn copy(
        &mut self,
        buffer: FrameBuffer,
        damage: bool,
        full: Option<(i32, i32)>,
        graphics_memory: bool,
        excluded_layers: bool,
    ) -> (r: CopyReply)
        ensures
            *final(self) == (ScreencopyFrame { copied: true, ..*old(self) }),
            r == if old(self).copied {
                CopyReply::Ignored
            } else {
                copy_reply(
                    old(self).capture,
                    old(self).overlay_cursor,
                    damage,
                    buffer,
                    full,
                    graphics_memory,
                    excluded_layers,
                )
            },
    {
        if self.copied {
            return CopyReply::Ignored;
        }
        self.copied = true;
        let cursor: bool = self.overlay_cursor;
        let (output, rect): (u64, Rect) = match self.capture {
            Some(capture) => capture,
            None => {
                return CopyReply::Failed;
            },
        };
        match buffer {
            FrameBuffer::GraphicsMemory { width, height, format } => {
                let whole: bool = match full {
                    Some((w, h)) => w == width && h == height && rect.x == 0 && rect.y == 0
                        && rect.w == w && rect.h == h,
                    None => false,
                };
                if whole && fits(format) && graphics_memory && !excluded_layers {
                    CopyReply::Draw { output, cursor, damage }
                } else {
                    CopyReply::Failed
                }
            },
            FrameBuffer::SharedMemory { width, height, format } => if width >= rect.w && height
                >= rect.h && fits(format) {
                CopyReply::Write { output, rect, cursor, damage }
            } else {
                CopyReply::Failed
            },
            FrameBuffer::Other => CopyReply::Failed,
        }
    }
}

/// No more is written to a client's buffer than it has room for.
pub proof fn law_writes_stay_in_the_buffer(
    capture: Option<(u64, Rect)>,
    cursor: bool,
    damage: bool,
    width: i32,
    height: i32,
    format: PixelFormat,
    full: Option<(i32, i32)>,
    graphics_memory: bool,
    excluded_layers: bool,
)
    ensures
        ({
            let buffer = FrameBuffer::SharedMemory { width, height, format };
            match copy_reply(
                capture,
                cursor,
                damage,
                buffer,
                full,
                graphics_memory,
                excluded_layers,
            ) {
                CopyReply::Write { rect, .. } => rect.w <= width && rect.h <= height,
                CopyReply::Draw { .. } => false,
                _ => true,
            }
        }),
{
}

} // verus!

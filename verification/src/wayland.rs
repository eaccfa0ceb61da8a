//! The state of the display surface, and how a finished frame is laid
//! out for it.

use vstd::prelude::*;
use crate::draw::{PaintCommand, Renderer};

verus! {

/// Bytes in one pixel, in the renderer's buffer and in the display's.
pub const BYTES_PER_PIXEL: usize = 4;

/// What to hand to the display for one frame: a buffer of `width` by
/// `height` pixels with `stride` bytes per row, `size` bytes in all, taken
/// from the shared region after growing it to `size` where `grow_pool`
/// says so. The whole buffer counts as changed.
#[derive(Clone, Copy, Debug, PartialEq, Eq, Structural)]
pub struct Presentation {
    pub width: i32,
    pub height: i32,
    pub stride: i32,
    pub size: usize,
    pub grow_pool: bool,
}

/// Whether a buffer of this size can be described to the display, whose
/// protocol counts bytes in 32 bits with a sign.
pub open spec fn fits_display(width: u32, height: u32) -> bool {
    width > 0 && height > 0 && 4 * width * height <= i32::MAX
}

/// The frame for a surface of the given size and a shared region of
/// `pool_len` bytes.
pub open spec fn presentation_spec(width: u32, height: u32, pool_len: usize) -> Presentation {
    Presentation {
        width: width as i32,
        height: height as i32,
        stride: (4 * width) as i32,
        size: (4 * width * height) as usize,
        grow_pool: pool_len < 4 * width * height,
    }
}

/// Where byte `i` of the display's buffer comes from in the renderer's:
/// red and blue change places within each pixel.
pub open spec fn source_index(i: int) -> int {
    if i % 4 == 0 {
        i + 2
    } else if i % 4 == 2 {
        i - 2
    } else {
        i
    }
}

/// The bytes of the complete pixels of `pixels`, each reordered from
/// red, green, blue, alpha to blue, green, red, alpha. No value changes.
pub open spec fn presentation_bytes(pixels: Seq<u8>) -> Seq<u8> {
    Seq::new((pixels.len() / 4 * 4) as nat, |i: int| pixels[source_index(i)])
}

/// Presenting reorders bytes within each pixel and changes no value:
/// every byte of the display's buffer is a byte of the same pixel of the
/// renderer's, alpha stays in place, and reordering twice gives the
/// complete pixels back as they were.
pub proof fn lemma_presentation_only_reorders(pixels: Seq<u8>)
    ensures
        presentation_bytes(pixels).len() == pixels.len() / 4 * 4,
        forall|i: int|
            0 <= i < presentation_bytes(pixels).len() ==> 0 <= source_index(i) < pixels.len()
                && source_index(i) / 4 == i / 4 && #[trigger] presentation_bytes(pixels)[i]
                == pixels[source_index(i)] && (i % 4 == 3 ==> source_index(i) == i),
        presentation_bytes(presentation_bytes(pixels)) == pixels.take(
            (pixels.len() / 4 * 4) as int,
        ),
{
    let once = presentation_bytes(pixels);
    let twice = presentation_bytes(once);
    assert(once.len() / 4 * 4 == once.len());
    assert forall|i: int| 0 <= i < twice.len() implies twice[i] == pixels[i] by {
        assert(source_index(source_index(i)) == i);
    }
    assert(twice =~= pixels.take((pixels.len() / 4 * 4) as int));
}

/// Writes the pixels of `pixels` into `region` in the display's byte
/// order: as many complete pixels as both hold. The rest of `region` is
/// left as it was.
pub fn write_presentation(pixels: &[u8], region: &mut [u8])
    ensures
        final(region)@.len() == old(region)@.len(),
        forall|i: int|
            0 <= i < final(region)@.len() ==> #[trigger] final(region)@[i] == (if i < pixels@.len()
                / 4 * 4 && i < old(region)@.len() / 4 * 4 {
                presentation_bytes(pixels@)[i]
            } else {
                old(region)@[i]
            }),
{
    let available = pixels.len();
    let room = region.len();
    let count = if available < room {
        available / 4
    } else {
        room / 4
    };
    let mut i: usize = 0;
    while i < count
        invariant
            0 <= i <= count,
            available == pixels@.len(),
            room == region@.len(),
            count <= pixels@.len() / 4,
            count <= region@.len() / 4,
            count == pixels@.len() / 4 || count == region@.len() / 4,
            region@.len() == old(region)@.len(),
            forall|k: int|
                0 <= k < region@.len() ==> #[trigger] region@[k] == (if k < 4 * i {
                    presentation_bytes(pixels@)[k]
                } else {
                    old(region)@[k]
                }),
        decreases count - i,
    {
        let r = pixels[i * 4];
        let g = pixels[i * 4 + 1];
        let b = pixels[i * 4 + 2];
        let a = pixels[i * 4 + 3];
        region[i * 4] = b;
        region[i * 4 + 1] = g;
        region[i * 4 + 2] = r;
        region[i * 4 + 3] = a;
        i += 1;
    }
}

/// What the compositor knows of its surface.
pub struct WaylandApp {
    pub renderer: Renderer,
    pub width: u32,
    pub height: u32,
    /// Whether the display has told the surface its size.
    pub configured: bool,
    /// Whether the surface has changed since the last frame.
    pub needs_render: bool,
}

impl WaylandApp {
    /// A surface of the given size that the display has not configured yet.
    pub fn new(width: u32, height: u32) -> (app: WaylandApp)
        ensures
            app.width == width,
            app.height == height,
            app.renderer.width == width,
            app.renderer.height == height,
            app.renderer@ == Seq::<PaintCommand>::empty(),
            !app.configured,
            !app.needs_render,
    {
        WaylandApp {
            renderer: Renderer::new(width, height),
            width,
            height,
            configured: false,
            needs_render: false,
        }
    }

    /// The bytes that a shared region for this surface needs; `None` where
    /// the count does not fit.
    pub fn region_size(&self) -> (size: Option<usize>)
        ensures
            size is Some <==> 4 * self.width * self.height <= usize::MAX,
            size is Some ==> size->Some_0 == 4 * self.width * self.height,
    {
        let row: u128 = 4 * (self.width as u128);
        assert(row * self.height <= 0x4_0000_0000 * 0x1_0000_0000) by (nonlinear_arith)
            requires
                0 <= row <= 0x4_0000_0000,
                0 <= self.height <= 0x1_0000_0000,
        ;
        let bytes: u128 = row * (self.height as u128);
        if bytes <= usize::MAX as u128 {
            Some(bytes as usize)
        } else {
            None
        }
    }

    /// The display has configured the surface. A size with both extents
    /// positive becomes the surface's size, with a fresh renderer for it;
    /// with any other size the surface keeps what it has. Either way the
    /// surface is configured from now on and due for a frame. Tells
    /// whether the size was taken.
    pub fn configure(&mut self, width: u32, height: u32) -> (resized: bool)
        ensures
            resized <==> width > 0 && height > 0,
            final(self).configured,
            final(self).needs_render,
            resized ==> final(self).width == width && final(self).height == height
                && final(self).renderer.width == width && final(self).renderer.height == height
                && final(self).renderer@ == Seq::<PaintCommand>::empty(),
            !resized ==> final(self).width == old(self).width && final(self).height == old(self).height && final(self).renderer == old(self).renderer,
    {
        let resized = width > 0 && height > 0;
        if resized {
            self.width = width;
            self.height = height;
            self.renderer = Renderer::new(width, height);
        }
        self.configured = true;
        self.needs_render = true;
        resized
    }

    /// Whether a frame of this surface can be presented.
    pub open spec fn presentable(&self) -> bool {
        self.configured && fits_display(self.renderer.width, self.renderer.height)
    }

    /// The frame to present for what the renderer holds, given a shared
    /// region of `pool_len` bytes; `None` before the first configure, and
    /// for a size that the display cannot take.
    pub fn render_if_configured(&self, pool_len: usize) -> (frame: Option<Presentation>)
        ensures
            frame is Some <==> self.presentable(),
            frame is Some ==> frame->Some_0 == presentation_spec(
                self.renderer.width,
                self.renderer.height,
                pool_len,
            ),
    {
        if !self.configured {
            return None;
        }
        let width = self.renderer.width;
        let height = self.renderer.height;
        if width == 0 || height == 0 {
            return None;
        }
        let row: u128 = 4 * (width as u128);
        assert(row * height <= 0x4_0000_0000 * 0x1_0000_0000) by (nonlinear_arith)
            requires
                0 <= row <= 0x4_0000_0000,
                0 <= height <= 0x1_0000_0000,
        ;
        let bytes: u128 = row * (height as u128);
        if bytes > i32::MAX as u128 {
            return None;
        }
        assert(4 * width <= bytes && height <= bytes) by (nonlinear_arith)
            requires
                bytes == 4 * width * height,
                width > 0,
                height > 0,
        ;
        Some(
            Presentation {
                width: width as i32,
                height: height as i32,
                stride: (4 * width) as i32,
                size: bytes as usize,
                grow_pool: (pool_len as u128) < bytes,
            },
        )
    }
}

} // verus!

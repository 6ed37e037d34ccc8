use vstd::prelude::*;
use crate::button::ButtonView;
use crate::session::Foam;

verus! {

/// Why a draw could not be completed.
#[derive(Clone, Copy, Debug, PartialEq, Eq, Structural)]
pub enum DrawError {
    /// No buffer of the needed size can be had.
    Allocation,
    /// A drawing primitive failed in the middle of the frame.
    Drawing,
}

/// One step of drawing a frame, in the order the steps are taken.
#[derive(Clone, Copy, Debug, PartialEq, Eq, Structural)]
pub enum RenderStep {
    /// Clear the whole buffer to transparent.
    Clear,
    /// Composite the background image scaled to the target width.
    Image,
    /// Stand-in for a background image that could not be loaded: a solid
    /// square at the origin.
    Fallback,
    /// Draw the caption centred beneath the image.
    Caption,
    /// Paint the buttons in registration order.
    Buttons,
    /// Hand the buffer to the compositor.
    Submit,
}

/// The physical size of a frame buffer: pixels across and down, and bytes
/// per row (four per pixel).
#[derive(Clone, Copy, Debug, PartialEq, Eq, Structural)]
pub struct FrameGeometry {
    pub width: i32,
    pub height: i32,
    pub stride: i32,
}

/// Largest byte size a shared-memory buffer may have.
pub const MAX_BUFFER_BYTES: i64 = 0x7fff_ffff;

/// The steps of a frame: everything when the background image loaded, and
/// otherwise the fallback square alone; the buffer is submitted either way.
pub open spec fn frame_steps(image_loaded: bool) -> Seq<RenderStep> {
    if image_loaded {
        seq![RenderStep::Clear, RenderStep::Image, RenderStep::Caption, RenderStep::Buttons, RenderStep::Submit]
    } else {
        seq![RenderStep::Clear, RenderStep::Fallback, RenderStep::Submit]
    }
}

/// Physical width and height of a `sc_width` x `sc_height` surface at
/// `scale`, and whether a buffer for it stays within the byte limit.
pub open spec fn geometry_fits(sc_width: int, sc_height: int, scale: int) -> bool {
    &&& sc_width * scale * 4 <= MAX_BUFFER_BYTES
    &&& sc_height * scale <= MAX_BUFFER_BYTES
    &&& sc_width * scale * 4 * (sc_height * scale) <= MAX_BUFFER_BYTES
}

/// A buffer with every button painted over `canvas`, in registration order.
pub open spec fn paint_all(bs: Seq<ButtonView>, canvas: Seq<u8>, stride: int) -> Seq<u8>
    decreases bs.len(),
{
    if bs.len() == 0 {
        canvas
    } else {
        bs.last().painted(paint_all(bs.drop_last(), canvas, stride), stride)
    }
}

pub proof fn lemma_paint_all_len(bs: Seq<ButtonView>, canvas: Seq<u8>, stride: int)
    ensures
        paint_all(bs, canvas, stride).len() == canvas.len(),
    decreases bs.len(),
{
    if bs.len() > 0 {
        lemma_paint_all_len(bs.drop_last(), canvas, stride);
    }
}

/// A frame whose background image failed to load is still drawn and
/// submitted: it shows the fallback square in place of the image.
pub proof fn lemma_fallback_frame_submits()
    ensures
        frame_steps(false).contains(RenderStep::Fallback),
        !frame_steps(false).contains(RenderStep::Image),
        frame_steps(false).last() == RenderStep::Submit,
{
    assert(frame_steps(false)[1] == RenderStep::Fallback);
    assert forall|i: int| 0 <= i < frame_steps(false).len() implies frame_steps(false)[i] != RenderStep::Image by {}
}

/// The drawing steps of a frame.
pub fn plan_frame(image_loaded: bool) -> (r: Vec<RenderStep>)
    ensures
        r@ == frame_steps(image_loaded),
{
    let r = if image_loaded {
        vec![RenderStep::Clear, RenderStep::Image, RenderStep::Caption, RenderStep::Buttons, RenderStep::Submit]
    } else {
        vec![RenderStep::Clear, RenderStep::Fallback, RenderStep::Submit]
    };
    assert(r@ =~= frame_steps(image_loaded));
    r
}

/// Sets every byte of the buffer to zero.
pub fn clear_canvas(canvas: &mut [u8])
    ensures
        final(canvas)@.len() == old(canvas)@.len(),
        forall|i: int| 0 <= i < final(canvas)@.len() ==> #[trigger] final(canvas)@[i] == 0u8,
{
    let n = canvas.len();
    let mut i: usize = 0;
    while i < n
        invariant
            n == canvas@.len(),
            n == old(canvas)@.len(),
            i <= n,
            forall|j: int| 0 <= j < i ==> #[trigger] canvas@[j] == 0u8,
        decreases n - i,
    {
        canvas[i] = 0;
        i = i + 1;
    }
}

impl Foam {
    /// The physical size of the next frame buffer: the logical surface size
    /// times the scale factor. Fails with `Allocation` when such a buffer
    /// would exceed the byte limit.
    pub fn frame_geometry(&self) -> (r: Result<FrameGeometry, DrawError>)
        requires
            self@.wf(),
        ensures
            geometry_fits(self@.sc_width, self@.sc_height, self@.scale_factor) <==> r is Ok,
            r is Err ==> r == Err::<FrameGeometry, DrawError>(DrawError::Allocation),
            r matches Ok(g) ==> {
                &&& g.width == self@.sc_width * self@.scale_factor
                &&& g.height == self@.sc_height * self@.scale_factor
                &&& g.stride == g.width * 4
            },
    {
        let scale = self.scale_factor as u64;
        proof {
            let (a, b, c) = (self.sc_width as int, self.sc_height as int, scale as int);
            assert(a * c <= 0xffff_ffff * 0x7fff_ffff) by (nonlinear_arith)
                requires
                    0 <= a <= 0xffff_ffff,
                    0 <= c <= 0x7fff_ffff,
            ;
            assert(b * c <= 0xffff_ffff * 0x7fff_ffff) by (nonlinear_arith)
                requires
                    0 <= b <= 0xffff_ffff,
                    0 <= c <= 0x7fff_ffff,
            ;
        }
        let width = self.sc_width as u64 * scale;
        let height = self.sc_height as u64 * scale;
        if width > 0x1fff_ffff || height > MAX_BUFFER_BYTES as u64 {
            return Err(DrawError::Allocation);
        }
        let stride = width * 4;
        proof {
            assert(stride * height <= 0x7fff_fffc * 0x7fff_ffff) by (nonlinear_arith)
                requires
                    0 <= stride <= 0x7fff_fffc,
                    0 <= height <= 0x7fff_ffff,
            ;
        }
        if stride * height > MAX_BUFFER_BYTES as u64 {
            return Err(DrawError::Allocation);
        }
        Ok(FrameGeometry { width: width as i32, height: height as i32, stride: stride as i32 })
    }

    /// Paints every button into `canvas`, in registration order.
    pub fn paint_buttons(&self, canvas: &mut [u8], stride: i32)
        requires
            forall|i: int|
                0 <= i < self@.buttons.len() ==> (#[trigger] self@.buttons[i]).fits(
                    old(canvas)@.len() as int,
                    stride as int,
                ),
        ensures
            final(canvas)@ == paint_all(self@.buttons, old(canvas)@, stride as int),
    {
        let ghost bs = self@.buttons;
        let n = self.buttons.len();
        let mut i: usize = 0;
        while i < n
            invariant
                n == bs.len(),
                bs == self@.buttons,
                i <= n,
                canvas@.len() == old(canvas)@.len(),
                canvas@ == paint_all(bs.subrange(0, i as int), old(canvas)@, stride as int),
                forall|k: int|
                    0 <= k < bs.len() ==> (#[trigger] bs[k]).fits(old(canvas)@.len() as int, stride as int),
            decreases n - i,
        {
            proof {
                assert(bs.subrange(0, i + 1).drop_last() =~= bs.subrange(0, i as int));
                assert(self.buttons@[i as int]@ == bs[i as int]);
            }
            self.buttons[i].draw(canvas, stride);
            i = i + 1;
        }
        assert(bs.subrange(0, n as int) =~= bs);
    }
}

} // verus!

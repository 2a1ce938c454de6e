use vstd::prelude::*;

verus! {

/// Width of the screen, in pixels.
pub const SCREEN_WIDTH: usize = 64;

/// Height of the screen, in pixels.
pub const SCREEN_HEIGHT: usize = 32;

/// Number of pixels on the screen.
pub const N_PIXELS: usize = SCREEN_WIDTH * SCREEN_HEIGHT;

/// A screen with every pixel off.
pub open spec fn blank_screen() -> Seq<bool> {
    Seq::new(N_PIXELS as nat, |p: int| false)
}

/// A monochrome 64x32 screen, row-major: pixel `(x, y)` is `buffer[x + y * SCREEN_WIDTH]`.
pub struct Display {
    pub buffer: [bool; N_PIXELS],
}

impl Display {
    /// A screen with every pixel off.
    pub fn new() -> (r: Display)
        ensures
            r.buffer@ == blank_screen(),
    {
        let r = Display { buffer: [false; N_PIXELS] };
        assert(r.buffer@ =~= blank_screen());
        r
    }

    /// Turns every pixel off.
    pub fn clear(&mut self)
        ensures
            final(self).buffer@ == blank_screen(),
    {
        self.buffer = [false; N_PIXELS];
        assert(self.buffer@ =~= blank_screen());
    }
}

/// Colour of a lit pixel, as 0xAARRGGBB.
pub const COLOR_ON: u32 = 0xFFFFFFFF;

/// Colour of a dark pixel, as 0xAARRGGBB.
pub const COLOR_OFF: u32 = 0xFF000000;

/// The colour a pixel is shown in.
pub open spec fn color_of(on: bool) -> u32 {
    if on {
        COLOR_ON
    } else {
        COLOR_OFF
    }
}

/// Turns a row-major pixel grid into a `width * height` frame of colours;
/// cells past the end of `buffer` stay 0.
pub fn buffer_to_u32(buffer: &[bool], width: usize, height: usize) -> (r: Vec<u32>)
    requires
        width * height <= usize::MAX,
        buffer@.len() <= width * height,
    ensures
        r@.len() == width * height,
        forall|k: int|
            0 <= k < width * height ==> #[trigger] r@[k] == if k < buffer@.len() {
                color_of(buffer@[k])
            } else {
                0
            },
{
    let total: usize = width * height;
    let mut result: Vec<u32> = Vec::new();
    let mut k: usize = 0;
    while k < total
        invariant
            total == width * height,
            buffer@.len() <= total,
            k <= total,
            result@.len() == k,
            forall|j: int|
                0 <= j < k ==> #[trigger] result@[j] == if j < buffer@.len() {
                    color_of(buffer@[j])
                } else {
                    0
                },
        decreases total - k,
    {
        let color: u32 = if k < buffer.len() {
            if buffer[k] {
                COLOR_ON
            } else {
                COLOR_OFF
            }
        } else {
            0
        };
        result.push(color);
        k = k + 1;
    }
    result
}

} // verus!

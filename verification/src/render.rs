//! Drawing into a window's buffer, and the life of that window.
use vstd::prelude::*;

verus! {

// ---------------------------------------------------------------------------
// Pixels

/// A frame's pixels: four bytes each, red, green, blue and alpha, in rows that
/// may be longer than the window is wide.
pub struct FrameBuffer<'a> {
    pub width: i32,
    pub height: i32,
    pub stride_pixels: i32,
    pub bits: &'a mut [u8],
}

/// One of the four bytes of a colour `0xRRGGBBAA`.
pub open spec fn channel(rgba: u32, i: int) -> u8 {
    if i == 0 {
        (rgba / 0x1000000) as u8
    } else if i == 1 {
        (rgba / 0x10000 % 0x100) as u8
    } else if i == 2 {
        (rgba / 0x100 % 0x100) as u8
    } else {
        (rgba % 0x100) as u8
    }
}

/// Where the bytes of a pixel begin.
pub open spec fn pixel_offset(stride: int, x: int, y: int) -> int {
    (y * stride + x) * 4
}

/// Whether a buffer of `len` bytes holds the pixel.
pub open spec fn holds_pixel(
    width: int,
    height: int,
    stride: int,
    len: int,
    x: int,
    y: int,
) -> bool {
    &&& 0 <= x < width
    &&& 0 <= y < height
    &&& 0 <= pixel_offset(stride, x, y)
    &&& pixel_offset(stride, x, y) + 4 <= len
}

/// The bytes with the four from `offset` on set to the colour.
pub open spec fn painted(bytes: Seq<u8>, offset: int, rgba: u32) -> Seq<u8> {
    Seq::new(
        bytes.len(),
        |k: int|
            if offset <= k < offset + 4 {
                channel(rgba, k - offset)
            } else {
                bytes[k]
            },
    )
}

/// Whether the byte at `k` belongs to a pixel that comes before the one at `x`
/// in row `y`.
pub open spec fn covered_before(
    width: int,
    height: int,
    stride: int,
    len: int,
    k: int,
    x: int,
    y: int,
) -> bool {
    exists|a: int, b: int|
        {
            &&& #[trigger] holds_pixel(width, height, stride, len, a, b)
            &&& pixel_offset(stride, a, b) <= k < pixel_offset(stride, a, b) + 4
            &&& b < y || (b == y && a < x)
        }
}

/// Whether the byte at `k` belongs to a pixel.
pub open spec fn covered(width: int, height: int, stride: int, len: int, k: int) -> bool {
    exists|a: int, b: int|
        #[trigger] holds_pixel(width, height, stride, len, a, b) && pixel_offset(stride, a, b) <= k
            < pixel_offset(stride, a, b) + 4
}

fn offset_of(stride: i32, x: i32, y: i32) -> (r: i128)
    ensures
        r == pixel_offset(stride as int, x as int, y as int),
        -0x8000000000000000_0000 <= r <= 0x8000000000000000_0000,
{
    let a: i128 = y as i128;
    let b: i128 = stride as i128;
    proof {
        assert(-0x4000000000000000 <= a * b <= 0x4000000000000000) by (nonlinear_arith)
            requires
                -0x80000000 <= a <= 0x7fffffff,
                -0x80000000 <= b <= 0x7fffffff,
        ;
    }
    (a * b + x as i128) * 4
}

impl<'a> FrameBuffer<'a> {
    /// Whether the buffer holds the pixel.
    pub open spec fn holds(&self, x: int, y: int) -> bool {
        holds_pixel(
            self.width as int,
            self.height as int,
            self.stride_pixels as int,
            self.bits@.len() as int,
            x,
            y,
        )
    }

    pub fn width(&self) -> (r: i32)
        ensures
            r == self.width,
    {
        self.width
    }

    pub fn height(&self) -> (r: i32)
        ensures
            r == self.height,
    {
        self.height
    }

    pub fn stride_pixels(&self) -> (r: i32)
        ensures
            r == self.stride_pixels,
    {
        self.stride_pixels
    }

    /// Sets one pixel. One outside the window, or outside the buffer, is ignored.
    pub fn put_pixel(&mut self, x: i32, y: i32, rgba: u32)
        ensures
            final(self).width == old(self).width,
            final(self).height == old(self).height,
            final(self).stride_pixels == old(self).stride_pixels,
            final(self).bits@ == (if old(self).holds(x as int, y as int) {
                painted(
                    old(self).bits@,
                    pixel_offset(old(self).stride_pixels as int, x as int, y as int),
                    rgba,
                )
            } else {
                old(self).bits@
            }),
    {
        if x < 0 || y < 0 || x >= self.width || y >= self.height {
            return ;
        }
        let offset = offset_of(self.stride_pixels, x, y);
        if offset < 0 || offset + 4 > self.bits.len() as i128 {
            return ;
        }
        let o = offset as usize;
        let ghost before = self.bits@;
        self.bits[o] = (rgba / 0x1000000) as u8;
        self.bits[o + 1] = (rgba / 0x10000 % 0x100) as u8;
        self.bits[o + 2] = (rgba / 0x100 % 0x100) as u8;
        self.bits[o + 3] = (rgba % 0x100) as u8;
        assert(self.bits@ =~= painted(before, o as int, rgba));
    }

    /// Fills the window with one colour. Bytes that belong to no pixel, such as
    /// those that pad a row, are left as they are.
    pub fn clear(&mut self, rgba: u32)
        ensures
            final(self).width == old(self).width,
            final(self).height == old(self).height,
            final(self).stride_pixels == old(self).stride_pixels,
            final(self).bits@.len() == old(self).bits@.len(),
            forall|k: int|
                0 <= k < final(self).bits@.len() ==> #[trigger] final(self).bits@[k] == (
                if covered(
                    old(self).width as int,
                    old(self).height as int,
                    old(self).stride_pixels as int,
                    old(self).bits@.len() as int,
                    k,
                ) {
                    channel(rgba, k % 4)
                } else {
                    old(self).bits@[k]
                }),
    {
        let ghost start = self.bits@;
        let ghost len = self.bits@.len() as int;
        let ghost w = self.width as int;
        let ghost h = self.height as int;
        let ghost s = self.stride_pixels as int;
        let mut y: i32 = 0;
        while y < self.height
            invariant
                0 <= y,
                h > 0 ==> y <= h,
                h <= 0 ==> y == 0,
                self.width == w,
                self.height == h,
                self.stride_pixels == s,
                old(self).width == w,
                old(self).height == h,
                old(self).stride_pixels == s,
                start == old(self).bits@,
                self.bits@.len() == len,
                start.len() == len,
                forall|k: int|
                    0 <= k < len ==> #[trigger] self.bits@[k] == (if covered_before(
                        w,
                        h,
                        s,
                        len,
                        k,
                        0,
                        y as int,
                    ) {
                        channel(rgba, k % 4)
                    } else {
                        start[k]
                    }),
            decreases h - y,
        {
            let mut x: i32 = 0;
            while x < self.width
                invariant
                    0 <= y < h,
                    0 <= x,
                    w > 0 ==> x <= w,
                    w <= 0 ==> x == 0,
                    self.width == w,
                    self.height == h,
                    self.stride_pixels == s,
                    old(self).width == w,
                    old(self).height == h,
                    old(self).stride_pixels == s,
                    start == old(self).bits@,
                    self.bits@.len() == len,
                    start.len() == len,
                    forall|k: int|
                        0 <= k < len ==> #[trigger] self.bits@[k] == (if covered_before(
                            w,
                            h,
                            s,
                            len,
                            k,
                            x as int,
                            y as int,
                        ) {
                            channel(rgba, k % 4)
                        } else {
                            start[k]
                        }),
                decreases w - x,
            {
                let ghost before = self.bits@;
                self.put_pixel(x, y, rgba);
                proof {
                    let off = pixel_offset(s, x as int, y as int);
                    let held = holds_pixel(w, h, s, len, x as int, y as int);
                    assert forall|k: int| 0 <= k < len implies #[trigger] self.bits@[k] == (
                    if covered_before(w, h, s, len, k, x + 1, y as int) {
                        channel(rgba, k % 4)
                    } else {
                        start[k]
                    }) by {
                        if held && off <= k < off + 4 {
                            assert(k % 4 == k - off);
                            assert(covered_before(w, h, s, len, k, x + 1, y as int));
                        } else {
                            assert(self.bits@[k] == before[k]);
                            assert(covered_before(w, h, s, len, k, x + 1, y as int)
                                == covered_before(w, h, s, len, k, x as int, y as int)) by {
                                if covered_before(w, h, s, len, k, x + 1, y as int) {
                                    let (a, b) = choose|a: int, b: int|
                                        {
                                            &&& #[trigger] holds_pixel(w, h, s, len, a, b)
                                            &&& pixel_offset(s, a, b) <= k < pixel_offset(s, a, b)
                                                + 4
                                            &&& b < y || (b == y && a < x + 1)
                                        };
                                    assert(!(b == y && a == x));
                                }
                                if covered_before(w, h, s, len, k, x as int, y as int) {
                                    let (a, b) = choose|a: int, b: int|
                                        {
                                            &&& #[trigger] holds_pixel(w, h, s, len, a, b)
                                            &&& pixel_offset(s, a, b) <= k < pixel_offset(s, a, b)
                                                + 4
                                            &&& b < y || (b == y && a < x)
                                        };
                                    assert(b < y || (b == y && a < x + 1));
                                }
                            }
                        }
                    }
                }
                x += 1;
            }
            proof {
                assert forall|k: int| 0 <= k < len implies covered_before(w, h, s, len, k, x as int, y as int)
                    == #[trigger] covered_before(w, h, s, len, k, 0, y + 1) by {
                    if covered_before(w, h, s, len, k, x as int, y as int) {
                        let (a, b) = choose|a: int, b: int|
                            {
                                &&& #[trigger] holds_pixel(w, h, s, len, a, b)
                                &&& pixel_offset(s, a, b) <= k < pixel_offset(s, a, b) + 4
                                &&& b < y || (b == y && a < x)
                            };
                        assert(b < y + 1);
                    }
                    if covered_before(w, h, s, len, k, 0, y + 1) {
                        let (a, b) = choose|a: int, b: int|
                            {
                                &&& #[trigger] holds_pixel(w, h, s, len, a, b)
                                &&& pixel_offset(s, a, b) <= k < pixel_offset(s, a, b) + 4
                                &&& b < y + 1 || (b == y + 1 && a < 0)
                            };
                        assert(b < y || (b == y && a < x));
                    }
                }
            }
            y += 1;
        }
        proof {
            assert forall|k: int| 0 <= k < len implies #[trigger] covered_before(
                w,
                h,
                s,
                len,
                k,
                0,
                y as int,
            ) == covered(w, h, s, len, k) by {
                if covered(w, h, s, len, k) {
                    let (a, b) = choose|a: int, b: int|
                        #[trigger] holds_pixel(w, h, s, len, a, b) && pixel_offset(s, a, b) <= k
                            < pixel_offset(s, a, b) + 4;
                    assert(b < y || (b == y && a < 0));
                }
            }
        }
    }

    /// The bytes of the buffer, row by row.
    pub fn raw_bytes_mut(&mut self) -> (r: &mut [u8])
        ensures
            r@ == old(self).bits@,
            final(self).bits@ == final(r)@,
            final(self).width == old(self).width,
            final(self).height == old(self).height,
            final(self).stride_pixels == old(self).stride_pixels,
    {
        self.bits
    }
}

/// A pixel that was just set reads as the colour, and setting it leaves every
/// other pixel as it was, provided that rows do not overlap.
pub proof fn pixel_reads_back(
    bytes: Seq<u8>,
    width: int,
    height: int,
    stride: int,
    x: int,
    y: int,
    rgba: u32,
    a: int,
    b: int,
    i: int,
)
    requires
        holds_pixel(width, height, stride, bytes.len() as int, x, y),
        holds_pixel(width, height, stride, bytes.len() as int, a, b),
        width <= stride,
        0 <= i < 4,
    ensures
        painted(bytes, pixel_offset(stride, x, y), rgba)[pixel_offset(stride, a, b) + i] == (if a
            == x && b == y {
            channel(rgba, i)
        } else {
            bytes[pixel_offset(stride, a, b) + i]
        }),
{
    if !(a == x && b == y) {
        pixels_differ(stride, x, y, a, b);
    }
}

/// Different pixels of a window whose rows do not overlap have different bytes.
proof fn pixels_differ(stride: int, x: int, y: int, a: int, b: int)
    requires
        0 <= x < stride,
        0 <= a < stride,
        !(a == x && b == y),
    ensures
        pixel_offset(stride, a, b) + 4 <= pixel_offset(stride, x, y) || pixel_offset(stride, x, y)
            + 4 <= pixel_offset(stride, a, b),
{
    if b < y {
        assert(b * stride + stride <= y * stride) by (nonlinear_arith)
            requires
                b + 1 <= y,
                0 < stride,
        ;
    } else if y < b {
        assert(y * stride + stride <= b * stride) by (nonlinear_arith)
            requires
                y + 1 <= b,
                0 < stride,
        ;
    }
}

/// The whole of a colour can be told from its four bytes.
pub proof fn channels_make_the_colour(rgba: u32)
    ensures
        rgba == channel(rgba, 0) * 0x1000000 + channel(rgba, 1) * 0x10000 + channel(rgba, 2) * 0x100
            + channel(rgba, 3),
{
    assert(rgba == (rgba / 0x1000000) * 0x1000000 + (rgba / 0x10000 % 0x100) * 0x10000 + (rgba
        / 0x100 % 0x100) * 0x100 + rgba % 0x100) by (nonlinear_arith);
}

// ---------------------------------------------------------------------------
// The life of a window

/// Why the render loop ended.
#[derive(Debug, Clone, Copy, PartialEq, Eq, Structural)]
pub enum ExitReason {
    /// The activity is being torn down.
    Destroyed,
    /// Drawing asked for a clean exit.
    DrawRequestedExit,
}

/// What is known of the activity: the addresses of its window and its input
/// queue (0 for none), a count that changes with every new or resized window,
/// whether it is being torn down, and whether it has the focus.
#[derive(Debug, Clone, Copy, PartialEq, Eq, Structural)]
pub struct ShellState {
    pub window: usize,
    pub input_queue: usize,
    pub window_generation: i32,
    pub should_destroy: bool,
    pub has_focus: bool,
}

/// What the system tells the activity.
#[derive(Debug, Clone, Copy, PartialEq, Eq, Structural)]
pub enum LifecycleEvent {
    Destroy,
    FocusChanged(bool),
    WindowCreated(usize),
    WindowResized,
    WindowDestroyed,
    InputQueueCreated(usize),
    InputQueueDestroyed,
    /// Anything that the state does not depend on.
    Other,
}

/// The number after `n`, beginning anew after the greatest.
pub open spec fn next_generation(n: i32) -> i32 {
    if n == i32::MAX {
        i32::MIN
    } else {
        (n + 1) as i32
    }
}

impl ShellState {
    /// The state after an event.
    pub open spec fn after(self, event: LifecycleEvent) -> ShellState {
        match event {
            LifecycleEvent::Destroy => ShellState { should_destroy: true, ..self },
            LifecycleEvent::FocusChanged(has_focus) => ShellState { has_focus, ..self },
            LifecycleEvent::WindowCreated(window) => ShellState {
                window,
                window_generation: next_generation(self.window_generation),
                ..self
            },
            LifecycleEvent::WindowResized => ShellState {
                window_generation: next_generation(self.window_generation),
                ..self
            },
            LifecycleEvent::WindowDestroyed => ShellState { window: 0, ..self },
            LifecycleEvent::InputQueueCreated(input_queue) => ShellState { input_queue, ..self },
            LifecycleEvent::InputQueueDestroyed => ShellState { input_queue: 0, ..self },
            LifecycleEvent::Other => self,
        }
    }

    /// Before the first event.
    pub fn new() -> (r: Self)
        ensures
            r == (ShellState {
                window: 0,
                input_queue: 0,
                window_generation: 0,
                should_destroy: false,
                has_focus: true,
            }),
    {
        ShellState {
            window: 0,
            input_queue: 0,
            window_generation: 0,
            should_destroy: false,
            has_focus: true,
        }
    }

    /// The state after an event.
    pub fn on_event(self, event: LifecycleEvent) -> (r: Self)
        ensures
            r == self.after(event),
    {
        let next: i32 = if self.window_generation == i32::MAX {
            i32::MIN
        } else {
            self.window_generation + 1
        };
        match event {
            LifecycleEvent::Destroy => ShellState { should_destroy: true, ..self },
            LifecycleEvent::FocusChanged(has_focus) => ShellState { has_focus, ..self },
            LifecycleEvent::WindowCreated(window) => ShellState {
                window,
                window_generation: next,
                ..self
            },
            LifecycleEvent::WindowResized => ShellState { window_generation: next, ..self },
            LifecycleEvent::WindowDestroyed => ShellState { window: 0, ..self },
            LifecycleEvent::InputQueueCreated(input_queue) => ShellState { input_queue, ..self },
            LifecycleEvent::InputQueueDestroyed => ShellState { input_queue: 0, ..self },
            LifecycleEvent::Other => self,
        }
    }

    /// The window, where there is one.
    pub fn native_window(&self) -> (r: Option<usize>)
        ensures
            r == (if self.window == 0 {
                None
            } else {
                Some(self.window)
            }),
    {
        if self.window == 0 {
            None
        } else {
            Some(self.window)
        }
    }

    /// The input queue, where there is one.
    pub fn input_queue(&self) -> (r: Option<usize>)
        ensures
            r == (if self.input_queue == 0 {
                None
            } else {
                Some(self.input_queue)
            }),
    {
        if self.input_queue == 0 {
            None
        } else {
            Some(self.input_queue)
        }
    }

    /// How long to wait for events, in milliseconds: not at all where there is a
    /// window to draw into, else for as long as it takes.
    pub fn poll_timeout(&self) -> (r: i32)
        ensures
            r == (if self.window == 0 {
                -1i32
            } else {
                0i32
            }),
    {
        if self.window == 0 {
            -1
        } else {
            0
        }
    }
}

/// What the render loop does after it has waited for events.
#[derive(Debug, Clone, Copy, PartialEq, Eq, Structural)]
pub enum FrameAction {
    Exit(ExitReason),
    /// Wait again.
    Wait,
    /// Draw into the window, after declaring the geometry of its buffers where
    /// `configure`.
    Draw { window: usize, configure: bool },
}

/// The render loop: the generation of the window whose geometry it declared last.
#[derive(Debug, Clone, Copy, PartialEq, Eq, Structural)]
pub struct RenderLoop {
    pub configured_generation: i32,
}

impl RenderLoop {
    /// Before the first frame.
    pub fn new() -> (r: Self)
        ensures
            r.configured_generation == -1,
    {
        RenderLoop { configured_generation: -1 }
    }

    /// What to do in the given state.
    pub open spec fn action(self, state: ShellState) -> FrameAction {
        if state.should_destroy {
            FrameAction::Exit(ExitReason::Destroyed)
        } else if state.window == 0 {
            FrameAction::Wait
        } else {
            FrameAction::Draw {
                window: state.window,
                configure: state.window_generation != self.configured_generation,
            }
        }
    }

    /// What to do after waiting for events. A window that is drawn into counts as
    /// configured from then on.
    pub fn next(&mut self, state: &ShellState) -> (r: FrameAction)
        ensures
            r == old(self).action(*state),
            final(self).configured_generation == (if r is Draw {
                state.window_generation
            } else {
                old(self).configured_generation
            }),
    {
        if state.should_destroy {
            return FrameAction::Exit(ExitReason::Destroyed);
        }
        match state.native_window() {
            None => FrameAction::Wait,
            Some(window) => {
                let configure = state.window_generation != self.configured_generation;
                self.configured_generation = state.window_generation;
                FrameAction::Draw { window, configure }
            },
        }
    }

    /// Whether the loop ends after a frame. One that could not be locked is tried
    /// again; else it is drawing that decides.
    pub fn after_frame(&self, locked: bool, keep_running: bool) -> (r: Option<ExitReason>)
        ensures
            r == (if locked && !keep_running {
                Some(ExitReason::DrawRequestedExit)
            } else {
                None
            }),
    {
        if locked && !keep_running {
            Some(ExitReason::DrawRequestedExit)
        } else {
            None
        }
    }
}

/// How many bytes a locked buffer has, where its dimensions are possible ones.
pub fn buffer_len(stride: i32, height: i32) -> (r: Option<usize>)
    ensures
        match r {
            Some(n) => stride >= 0 && height >= 0 && n == stride * height * 4,
            None => stride < 0 || height < 0 || stride * height * 4 > usize::MAX,
        },
{
    if stride < 0 || height < 0 {
        return None;
    }
    let a: u128 = stride as u128;
    let b: u128 = height as u128;
    proof {
        assert(a * b <= 0x4000000000000000) by (nonlinear_arith)
            requires
                a <= 0x7fffffff,
                b <= 0x7fffffff,
        ;
    }
    let n: u128 = a * b * 4;
    assert(n == stride * height * 4);
    if n > usize::MAX as u128 {
        None
    } else {
        Some(n as usize)
    }
}

/// A window that is new or was resized is configured before the next frame is
/// drawn into it, if the loop was up to date before.
pub proof fn changed_window_is_configured(state: ShellState, render: RenderLoop, event: LifecycleEvent)
    requires
        render.configured_generation == state.window_generation,
        event is WindowCreated || event is WindowResized,
    ensures
        render.action(state.after(event)) matches FrameAction::Draw {
            window,
            configure,
        } ==> configure,
{
}

/// Nothing is drawn without a window, and once the activity is being torn down
/// the loop ends, whatever happens besides.
pub proof fn destroyed_is_final(state: ShellState, render: RenderLoop, event: LifecycleEvent)
    ensures
        render.action(state.after(LifecycleEvent::WindowDestroyed)) is Draw ==> false,
        state.should_destroy ==> state.after(event).should_destroy,
        state.should_destroy ==> render.action(state) == FrameAction::Exit(ExitReason::Destroyed),
{
}

/// In a buffer of whole rows, clearing reaches the pixels of every row up to the width,
/// and leaves what pads a row.
pub proof fn clearing_reaches_every_pixel(
    width: int,
    height: int,
    stride: int,
    len: int,
    x: int,
    y: int,
    i: int,
)
    requires
        0 <= width <= stride,
        0 <= height,
        len == stride * height * 4,
        0 <= x < stride,
        0 <= y < height,
        0 <= i < 4,
    ensures
        covered(width, height, stride, len, pixel_offset(stride, x, y) + i) <==> x < width,
{
    let k = pixel_offset(stride, x, y) + i;
    assert(0 <= y * stride && y * stride + stride <= stride * height) by (nonlinear_arith)
        requires
            0 <= y < height,
            0 <= stride,
    ;
    if x < width {
        assert(holds_pixel(width, height, stride, len, x, y));
    }
    if covered(width, height, stride, len, k) {
        let (a, b) = choose|a: int, b: int|
            #[trigger] holds_pixel(width, height, stride, len, a, b) && pixel_offset(stride, a, b)
                <= k < pixel_offset(stride, a, b) + 4;
        if !(a == x && b == y) {
            pixels_differ(stride, x, y, a, b);
        }
    }
}

/// Only what is about the window changes the window, and the same holds of the input
/// queue, the focus and the end.
pub proof fn events_change_their_own(state: ShellState, event: LifecycleEvent)
    ensures
        state.after(event).window == (match event {
            LifecycleEvent::WindowCreated(w) => w,
            LifecycleEvent::WindowDestroyed => 0,
            _ => state.window,
        }),
        state.after(event).input_queue == (match event {
            LifecycleEvent::InputQueueCreated(q) => q,
            LifecycleEvent::InputQueueDestroyed => 0,
            _ => state.input_queue,
        }),
        state.after(event).has_focus == (match event {
            LifecycleEvent::FocusChanged(f) => f,
            _ => state.has_focus,
        }),
        state.after(event).should_destroy == (state.should_destroy || event is Destroy),
        state.after(event).window_generation == state.window_generation <==> !(
        event is WindowCreated || event is WindowResized),
{
}

/// A frame is drawn exactly where there is a window and no end was asked for, and on
/// that window.
pub proof fn frames_are_drawn_on_windows(state: ShellState, render: RenderLoop)
    ensures
        render.action(state) is Exit <==> state.should_destroy,
        render.action(state) is Wait <==> !state.should_destroy && state.window == 0,
        render.action(state) matches FrameAction::Draw { window, configure } ==> window
            == state.window && window != 0 && (configure <==> render.configured_generation
            != state.window_generation),
{
}

} // verus!

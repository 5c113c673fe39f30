//! The painter: a tartan of dark squares and squares lit in the colour that
//! the colour-mode cell selects, at an intensity that breathes.

use crate::framebuffer::{
    lemma_index_in_range, lemma_put_keeps_others, lemma_put_then_get, Canvas, Framebuffer,
};
use std::sync::atomic::AtomicU32;
use std::sync::atomic::Ordering;
use vstd::prelude::*;

verus! {

/// The side of two squares of the tartan, a dark one and a lit one.
pub const PITCH: usize = 16;

/// Milliseconds that the painter rests between two repaints.
pub const FRAME_INTERVAL_MS: u64 = 50;

/// Single steps of the intensity per repaint.
pub const STEPS_PER_FRAME: u8 = 8;

/// The upper mark: a rising intensity turns once it has passed it.
pub const LEVEL_HIGH: u8 = 240;

/// The lower mark: a falling intensity turns once it has passed it.
pub const LEVEL_LOW: u8 = 10;

/// Whether `(x, y)` lies in a dark square. Rows whose place within the
/// pitch is in the upper half start half a pitch further on.
pub open spec fn is_dark(x: nat, y: nat) -> bool {
    let pitch = PITCH as nat;
    let phase: nat = if y % pitch < pitch / 2 {
        pitch / 2
    } else {
        0
    };
    (phase + x) % pitch < pitch / 2
}

/// The colour of a lit pixel in a colour mode at intensity `v`: black,
/// grey, red, green, blue for the modes 0 to 4, and none for any other.
pub open spec fn mode_colour(mode: u32, v: u8) -> Option<(u8, u8, u8)> {
    if mode == 0 {
        Some((0u8, 0u8, 0u8))
    } else if mode == 1 {
        Some((v, v, v))
    } else if mode == 2 {
        Some((v, 0u8, 0u8))
    } else if mode == 3 {
        Some((0u8, v, 0u8))
    } else if mode == 4 {
        Some((0u8, 0u8, v))
    } else {
        None
    }
}

/// What the painter writes at `(x, y)`, if anything.
pub open spec fn pixel_colour(x: nat, y: nat, mode: u32, v: u8) -> Option<(u8, u8, u8)> {
    if is_dark(x, y) {
        Some((0u8, 0u8, 0u8))
    } else {
        mode_colour(mode, v)
    }
}

/// The canvas after the painter's visit to `(x, y)`.
pub open spec fn paint_pixel_spec(canvas: Canvas, x: nat, y: nat, mode: u32, v: u8) -> Canvas {
    match pixel_colour(x, y, mode, v) {
        Some(colour) => canvas.put(x, y, colour.0, colour.1, colour.2),
        None => canvas,
    }
}

/// Whether a colour is one that some colour mode gives at intensity `v`.
pub open spec fn is_lit_colour(colour: (u8, u8, u8), v: u8) -> bool {
    exists|mode: u32| mode_colour(mode, v) == Some(colour)
}

/// What a repaint leaves at `(x, y)`: black in a dark square; in a lit
/// square the colour of some mode, or what was there if the mode read for
/// that pixel was not a known one.
pub open spec fn repainted(before: Canvas, after: Canvas, x: nat, y: nat, v: u8) -> bool {
    if is_dark(x, y) {
        after.get(x, y) == (0u8, 0u8, 0u8)
    } else {
        after.get(x, y) == before.get(x, y) || is_lit_colour(after.get(x, y), v)
    }
}

/// The intensity and its direction as a mathematical value.
pub struct BreathState {
    pub level: u8,
    pub rising: bool,
}

impl BreathState {
    /// A rising intensity has not passed the upper mark; a falling one has
    /// passed it by no more than one unit and has not passed the lower mark.
    pub open spec fn wf(self) -> bool {
        if self.rising {
            self.level <= LEVEL_HIGH
        } else {
            LEVEL_LOW <= self.level <= LEVEL_HIGH + 1
        }
    }

    /// One single step: one unit in the current direction, and a turn once
    /// the mark is passed.
    pub open spec fn tick(self) -> BreathState {
        if self.rising {
            BreathState { level: (self.level + 1) as u8, rising: self.level + 1 <= LEVEL_HIGH }
        } else {
            BreathState { level: (self.level - 1) as u8, rising: self.level - 1 < LEVEL_LOW }
        }
    }

    /// `count` single steps.
    pub open spec fn ticks(self, count: nat) -> BreathState
        decreases count,
    {
        if count == 0 {
            self
        } else {
            self.tick().ticks((count - 1) as nat)
        }
    }
}

/// A single step keeps the intensity well formed and moves it by one unit.
pub proof fn lemma_tick_keeps_wf(b: BreathState)
    requires
        b.wf(),
    ensures
        b.tick().wf(),
        b.tick().level == b.level + 1 || b.tick().level == b.level - 1,
        b.tick().level <= LEVEL_HIGH + 1,
        b.level >= LEVEL_LOW - 1 ==> b.tick().level >= LEVEL_LOW - 1,
{
}

/// Any number of single steps keeps the intensity well formed, never
/// takes it beyond one unit above the upper mark, and never takes it back
/// beyond one unit below the lower mark once it has been that high.
pub proof fn lemma_ticks_keep_wf(b: BreathState, count: nat)
    requires
        b.wf(),
    ensures
        b.ticks(count).wf(),
        count > 0 ==> b.ticks(count).level <= LEVEL_HIGH + 1,
        b.level >= LEVEL_LOW - 1 ==> b.ticks(count).level >= LEVEL_LOW - 1,
    decreases count,
{
    if count > 0 {
        lemma_tick_keeps_wf(b);
        lemma_ticks_keep_wf(b.tick(), (count - 1) as nat);
        if count > 1 {
        } else {
            assert(b.tick().ticks(0) == b.tick());
        }
    }
}

/// Whatever the colour-mode cell holds, a visit of the painter keeps the
/// canvas well formed and of the same size; a value that is no known mode
/// leaves a lit pixel as it was.
pub proof fn lemma_any_mode_is_safe(canvas: Canvas, x: nat, y: nat, mode: u32, v: u8)
    requires
        canvas.wf(),
    ensures
        paint_pixel_spec(canvas, x, y, mode, v).wf(),
        paint_pixel_spec(canvas, x, y, mode, v).width == canvas.width,
        paint_pixel_spec(canvas, x, y, mode, v).height == canvas.height,
        mode > 4 && !is_dark(x, y) ==> paint_pixel_spec(canvas, x, y, mode, v) == canvas,
{
    if canvas.contains(x, y) {
        lemma_index_in_range(canvas, x, y);
    }
}

/// A visit of the painter inside the canvas leaves there what `repainted`
/// describes and touches no other pixel.
pub proof fn lemma_visit_repaints(canvas: Canvas, x: nat, y: nat, mode: u32, v: u8)
    requires
        canvas.wf(),
        canvas.contains(x, y),
    ensures
        repainted(canvas, paint_pixel_spec(canvas, x, y, mode, v), x, y, v),
        forall|x2: nat, y2: nat|
            canvas.contains(x2, y2) && (x2 != x || y2 != y) ==> #[trigger] paint_pixel_spec(
                canvas,
                x,
                y,
                mode,
                v,
            ).get(x2, y2) == canvas.get(x2, y2),
{
    let after = paint_pixel_spec(canvas, x, y, mode, v);
    match pixel_colour(x, y, mode, v) {
        Some(colour) => {
            lemma_put_then_get(canvas, x, y, colour.0, colour.1, colour.2);
            if !is_dark(x, y) {
                assert(mode_colour(mode, v) == Some(after.get(x, y)));
            }
            assert forall|x2: nat, y2: nat|
                canvas.contains(x2, y2) && (x2 != x || y2 != y) implies #[trigger] after.get(
                x2,
                y2,
            ) == canvas.get(x2, y2) by {
                lemma_put_keeps_others(canvas, x, y, colour.0, colour.1, colour.2, x2, y2);
            }
        },
        None => {},
    }
}

/// Whether `(x, y)` lies in a dark square.
pub fn dark_square(x: usize, y: usize) -> (dark: bool)
    ensures
        dark == is_dark(x as nat, y as nat),
{
    let phase: usize = if y % PITCH < PITCH / 2 {
        PITCH / 2
    } else {
        0
    };
    (phase + x % PITCH) % PITCH < PITCH / 2
}

/// The painter's visit to one pixel, for the colour mode that was read for
/// it: black in a dark square, the mode's colour in a lit one, and nothing
/// at all where the mode is not a known one.
pub fn paint_pixel(fb: &mut Framebuffer, x: usize, y: usize, mode: u32, v: u8)
    ensures
        final(fb)@ == paint_pixel_spec(old(fb)@, x as nat, y as nat, mode, v),
{
    if dark_square(x, y) {
        fb.put(x, y, 0, 0, 0);
    } else if mode == 0 {
        fb.put(x, y, 0, 0, 0);
    } else if mode == 1 {
        fb.put(x, y, v, v, v);
    } else if mode == 2 {
        fb.put(x, y, v, 0, 0);
    } else if mode == 3 {
        fb.put(x, y, 0, v, 0);
    } else if mode == 4 {
        fb.put(x, y, 0, 0, v);
    }
}

/// What the colour-mode cell holds at this moment. Any session may write
/// the cell at any time, so nothing is known of the value.
fn read_mode(cell: &AtomicU32) -> u32 {
    cell.load(Ordering::Relaxed)
}

/// One repaint of the whole framebuffer at intensity `v`, row by row. The
/// colour-mode cell is read anew for every pixel, so the lit pixels of one
/// repaint need not agree on a mode.
pub fn paint_frame(fb: &mut Framebuffer, cell: &AtomicU32, v: u8)
    ensures
        final(fb)@.wf(),
        final(fb)@.width == old(fb)@.width,
        final(fb)@.height == old(fb)@.height,
        forall|x: nat, y: nat|
            old(fb)@.contains(x, y) ==> #[trigger] repainted(old(fb)@, final(fb)@, x, y, v),
{
    proof {
        use_type_invariant(&*fb);
    }
    let width: usize = fb.width();
    let height: usize = fb.height();
    let mut y: usize = 0;
    while y < height
        invariant
            y <= height,
            fb@.wf(),
            fb@.width == width == old(fb)@.width,
            fb@.height == height == old(fb)@.height,
            forall|x2: nat, y2: nat|
                old(fb)@.contains(x2, y2) && y2 < y ==> #[trigger] repainted(
                    old(fb)@,
                    fb@,
                    x2,
                    y2,
                    v,
                ),
            forall|x2: nat, y2: nat|
                old(fb)@.contains(x2, y2) && y2 >= y ==> #[trigger] fb@.get(x2, y2) == old(
                    fb,
                )@.get(x2, y2),
        decreases height - y,
    {
        let mut x: usize = 0;
        while x < width
            invariant
                x <= width,
                y < height,
                fb@.wf(),
                fb@.width == width == old(fb)@.width,
                fb@.height == height == old(fb)@.height,
                forall|x2: nat, y2: nat|
                    old(fb)@.contains(x2, y2) && (y2 < y || (y2 == y && x2 < x))
                        ==> #[trigger] repainted(old(fb)@, fb@, x2, y2, v),
                forall|x2: nat, y2: nat|
                    old(fb)@.contains(x2, y2) && !(y2 < y || (y2 == y && x2 < x))
                        ==> #[trigger] fb@.get(x2, y2) == old(fb)@.get(x2, y2),
            decreases width - x,
        {
            let ghost before = fb@;
            let mode: u32 = read_mode(cell);
            paint_pixel(fb, x, y, mode, v);
            proof {
                lemma_any_mode_is_safe(before, x as nat, y as nat, mode, v);
                lemma_visit_repaints(before, x as nat, y as nat, mode, v);
                assert(before.get(x as nat, y as nat) == old(fb)@.get(x as nat, y as nat));
                assert forall|x2: nat, y2: nat|
                    old(fb)@.contains(x2, y2) && (y2 < y || (y2 == y && x2 < x + 1))
                    implies #[trigger] repainted(old(fb)@, fb@, x2, y2, v) by {
                    if x2 == x && y2 == y {
                        assert(repainted(before, fb@, x2, y2, v));
                    } else {
                        assert(repainted(old(fb)@, before, x2, y2, v));
                        assert(fb@.get(x2, y2) == before.get(x2, y2));
                    }
                }
                assert forall|x2: nat, y2: nat|
                    old(fb)@.contains(x2, y2) && !(y2 < y || (y2 == y && x2 < x + 1))
                    implies #[trigger] fb@.get(x2, y2) == old(fb)@.get(x2, y2) by {
                    assert(fb@.get(x2, y2) == before.get(x2, y2));
                    assert(before.get(x2, y2) == old(fb)@.get(x2, y2));
                }
            }
            x = x + 1;
        }
        y = y + 1;
    }
}

/// The breathing intensity: a level and the direction it moves in.
pub struct Breath {
    level: u8,
    rising: bool,
}

impl View for Breath {
    type V = BreathState;

    closed spec fn view(&self) -> BreathState {
        BreathState { level: self.level, rising: self.rising }
    }
}

impl Breath {
    #[verifier::type_invariant]
    pub open spec fn wf(self) -> bool {
        self@.wf()
    }

    /// Darkness, about to rise.
    pub fn new() -> (breath: Self)
        ensures
            breath@ == (BreathState { level: 0, rising: true }),
            breath.wf(),
    {
        Breath { level: 0, rising: true }
    }

    /// The intensity now.
    pub fn level(&self) -> (level: u8)
        ensures
            level == self@.level,
    {
        self.level
    }

    /// Whether the intensity is rising.
    pub fn is_rising(&self) -> (rising: bool)
        ensures
            rising == self@.rising,
    {
        self.rising
    }

    /// Moves the intensity on by the single steps of one repaint.
    pub fn step(&mut self)
        ensures
            final(self)@ == old(self)@.ticks(STEPS_PER_FRAME as nat),
            final(self).wf(),
    {
        proof {
            use_type_invariant(&*self);
        }
        let mut level: u8 = self.level;
        let mut rising: bool = self.rising;
        let mut done: u8 = 0;
        while done < STEPS_PER_FRAME
            invariant
                done <= STEPS_PER_FRAME,
                (BreathState { level, rising }).wf(),
                (BreathState { level, rising }).ticks((STEPS_PER_FRAME - done) as nat) == old(
                    self,
                )@.ticks(STEPS_PER_FRAME as nat),
            decreases STEPS_PER_FRAME - done,
        {
            if rising {
                level = level + 1;
                if level > LEVEL_HIGH {
                    rising = false;
                }
            } else {
                level = level - 1;
                if level < LEVEL_LOW {
                    rising = true;
                }
            }
            done = done + 1;
        }
        *self = Breath { level, rising };
    }
}

} // verus!

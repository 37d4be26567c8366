//! The reference backend: a fixed-size boolean frame buffer, two timer
//! registers, a 16-entry keypad with last-pressed tracking, and a
//! caller-supplied random-byte source.

use vstd::prelude::*;
use crate::chip8::data::{Key, Nibble, Word};
use crate::chip8::platform::{
    bit_of_byte, blank_screen, default_platform_model, draw_collision, draw_hit, draw_model,
    draw_screen, rng_rest, sprite_covers, Platform, PlatformModel, Point, Sprite, SCREEN_HEIGHT,
    SCREEN_WIDTH,
};

verus! {

broadcast use vstd::array::group_array_axioms;

/// Number of keypad keys.
pub const KEYPAD_SIZE: usize = 16;

/// The highest valid keypad index.
pub const KEYPAD_LAST: u8 = 15;

/// Whether a key was last seen pressed or released.
#[derive(Clone, Copy, Debug, PartialEq, Eq, Structural)]
pub enum KeyEventKind {
    Pressed,
    Released,
}

impl Default for KeyEventKind {
    /// A key starts out released.
    fn default() -> (k: KeyEventKind)
        ensures
            k == KeyEventKind::Released,
    {
        KeyEventKind::Released
    }
}

/// The sequence of row views of a fixed grid of pixel rows.
pub open spec fn rows_view(rows: Seq<[bool; 64]>) -> Seq<Seq<bool>> {
    rows.map_values(|row: [bool; 64]| row@)
}

/// A fixed grid of boolean pixels, `SCREEN_WIDTH` by `SCREEN_HEIGHT`.
/// The pixel state is always the XOR-accumulated result of all draws since
/// the last clear.
pub struct FrameBuffer([[bool; 64]; 32]);

impl View for FrameBuffer {
    type V = Seq<Seq<bool>>;

    closed spec fn view(&self) -> Seq<Seq<bool>> {
        rows_view(self.0@)
    }
}

impl FrameBuffer {
    /// An all-off frame buffer.
    pub fn new() -> (fb: FrameBuffer)
        ensures
            fb@ == blank_screen(),
    {
        let mut rows = [[false;64];32];
        let mut y: usize = 0;
        while y < 32
            invariant
                y <= 32,
                forall|yy: int, xx: int|
                    0 <= yy < y && 0 <= xx < 64 ==> #[trigger] rows@[yy]@[xx] == false,
            decreases 32 - y,
        {
            let mut x: usize = 0;
            while x < 64
                invariant
                    y < 32,
                    x <= 64,
                    forall|yy: int, xx: int|
                        0 <= yy < y && 0 <= xx < 64 ==> #[trigger] rows@[yy]@[xx] == false,
                    forall|xx: int| 0 <= xx < x ==> #[trigger] rows@[y as int]@[xx] == false,
                decreases 64 - x,
            {
                rows[y][x] = false;
                x += 1;
            }
            y += 1;
        }
        let fb = FrameBuffer(rows);
        proof {
            assert forall|yi: int| 0 <= yi < 32 implies fb@[yi] =~= blank_screen()[yi] by {
                assert(fb@[yi] == rows@[yi]@);
            }
            assert(fb@ =~= blank_screen());
        }
        fb
    }

    /// Whether `(x, y)` lies on the screen.
    pub fn is_in_bounds(&self, x: u8, y: u8) -> (r: bool)
        ensures
            r == (x < 64 && y < 32),
    {
        (x as usize) < SCREEN_WIDTH && (y as usize) < SCREEN_HEIGHT
    }

    /// One pixel.
    pub fn pixel(&self, x: usize, y: usize) -> (b: bool)
        requires
            x < 64,
            y < 32,
        ensures
            b == self@[y as int][x as int],
    {
        self.0[y][x]
    }

    /// The rows, top to bottom, each left to right.
    pub fn iter_rows(&self) -> (rows: &[[bool; 64]; 32])
        ensures
            rows_view(rows@) == self@,
    {
        &self.0
    }

    /// The rows, mutable. The view tracks whatever the caller writes.
    pub fn iter_rows_mut(&mut self) -> (rows: &mut [[bool; 64]; 32])
        ensures
            rows_view((*rows)@) == old(self)@,
            final(self)@ == rows_view(final(rows)@),
    {
        &mut self.0
    }
}

impl Default for FrameBuffer {
    fn default() -> (fb: FrameBuffer)
        ensures
            fb@ == blank_screen(),
    {
        FrameBuffer::new()
    }
}

/// A source of random bytes for the reference backend. Its whole future
/// output is determined by its current state, so two runs from equal
/// states replay identically.
pub trait RandomNumberGenerator: Sized {
    /// The bytes this source has yet to produce, in order.
    spec fn upcoming(&self) -> Seq<u8>;

    /// The next byte: the head of `upcoming`, or zero once exhausted.
    fn get_random_word(&mut self) -> (w: Word)
        ensures
            w == (if old(self).upcoming().len() > 0 {
                old(self).upcoming()[0]
            } else {
                0u8
            }),
            final(self).upcoming() == rng_rest(old(self).upcoming()),
    ;
}

/// A random-byte source that replays a fixed buffer, then yields zero.
pub struct StreamRng {
    bytes: Vec<u8>,
    pos: usize,
}

impl StreamRng {
    pub fn new(bytes: Vec<u8>) -> (rng: StreamRng)
        ensures
            rng.upcoming() == bytes@,
    {
        let rng = StreamRng { bytes, pos: 0 };
        proof {
            assert(rng.upcoming() =~= rng.bytes@);
        }
        rng
    }
}

impl RandomNumberGenerator for StreamRng {
    closed spec fn upcoming(&self) -> Seq<u8> {
        if self.pos <= self.bytes@.len() {
            self.bytes@.subrange(self.pos as int, self.bytes@.len() as int)
        } else {
            Seq::empty()
        }
    }

    fn get_random_word(&mut self) -> (w: Word) {
        if self.pos < self.bytes.len() {
            let b = self.bytes[self.pos];
            self.pos = self.pos + 1;
            proof {
                assert(self.upcoming() =~= rng_rest(old(self).upcoming()));
            }
            b
        } else {
            proof {
                assert(old(self).upcoming().len() == 0);
                assert(self.upcoming() =~= rng_rest(old(self).upcoming()));
            }
            0
        }
    }
}

/// The reference implementation of the capability interface.
pub(crate) struct ManagedPlatform<R: RandomNumberGenerator> {
    pub(crate) rand: R,
    pub(crate) frame_buffer: FrameBuffer,
    pub(crate) delay_timer: Word,
    pub(crate) sound_timer: Word,
    pub(crate) keypad: [KeyEventKind; 16],
    pub(crate) last_key: Option<Key>,
}

/// A timer decrement: down by one, floored at zero.
pub open spec fn tick(v: u8) -> u8 {
    if v > 0 {
        (v - 1) as u8
    } else {
        0
    }
}

/// Whether the sprite bit scanned at row `r`, column `c` has already been
/// applied when the draw loop has fully handled rows below `rl` and, on
/// row `rl` itself, columns below `cl`.
spec fn covered_upto(x0: int, y0: int, rows: Seq<u8>, x: int, y: int, rl: int, cl: int) -> bool {
    &&& sprite_covers(x0, y0, rows, x, y)
    &&& (y - y0 < rl || (y - y0 == rl && x - x0 < cl))
}

/// The screen with exactly the already-scanned sprite bits applied.
spec fn draw_progress(
    s: Seq<Seq<bool>>,
    x0: int,
    y0: int,
    rows: Seq<u8>,
    rl: int,
    cl: int,
) -> Seq<Seq<bool>> {
    Seq::new(
        s.len(),
        |y: int|
            Seq::new(
                s[y].len(),
                |x: int|
                    if covered_upto(x0, y0, rows, x, y, rl, cl) {
                        !s[y][x]
                    } else {
                        s[y][x]
                    },
            ),
    )
}

/// Whether some already-scanned sprite bit hit a set pixel.
spec fn hit_progress(s: Seq<Seq<bool>>, x0: int, y0: int, rows: Seq<u8>, rl: int, cl: int) -> bool {
    exists|y: int, x: int|
        0 <= y < s.len() && 0 <= x < s[y].len() && #[trigger] covered_upto(
            x0,
            y0,
            rows,
            x,
            y,
            rl,
            cl,
        ) && s[y][x]
}

/// Scanning one more column moves the hit condition forward by exactly the
/// pixel at `(x0 + cl, y0 + rl)`.
proof fn lemma_hit_step(s: Seq<Seq<bool>>, x0: int, y0: int, rows: Seq<u8>, rl: int, cl: int)
    requires
        0 <= rl < rows.len(),
        0 <= cl < 8,
    ensures
        hit_progress(s, x0, y0, rows, rl, cl + 1) == (hit_progress(s, x0, y0, rows, rl, cl) || (0
            <= y0 + rl < s.len() && 0 <= x0 + cl < s[y0 + rl].len() && bit_of_byte(rows[rl], cl)
            && s[y0 + rl][x0 + cl])),
{
    let yy = y0 + rl;
    let xx = x0 + cl;
    if hit_progress(s, x0, y0, rows, rl, cl + 1) {
        let (y, x) = choose|y: int, x: int|
            0 <= y < s.len() && 0 <= x < s[y].len() && #[trigger] covered_upto(
                x0,
                y0,
                rows,
                x,
                y,
                rl,
                cl + 1,
            ) && s[y][x];
        if covered_upto(x0, y0, rows, x, y, rl, cl) {
            assert(hit_progress(s, x0, y0, rows, rl, cl));
        } else {
            assert(y == yy && x == xx);
        }
    }
    if hit_progress(s, x0, y0, rows, rl, cl) {
        let (y, x) = choose|y: int, x: int|
            0 <= y < s.len() && 0 <= x < s[y].len() && #[trigger] covered_upto(
                x0,
                y0,
                rows,
                x,
                y,
                rl,
                cl,
            ) && s[y][x];
        assert(covered_upto(x0, y0, rows, x, y, rl, cl + 1));
    }
    if 0 <= yy < s.len() && 0 <= xx < s[yy].len() && bit_of_byte(rows[rl], cl) && s[yy][xx] {
        assert(covered_upto(x0, y0, rows, xx, yy, rl, cl + 1));
    }
}

/// A fully scanned row is the same progress as the start of the next row.
proof fn lemma_row_step(s: Seq<Seq<bool>>, x0: int, y0: int, rows: Seq<u8>, rl: int)
    requires
        0 <= rl,
    ensures
        draw_progress(s, x0, y0, rows, rl, 8) == draw_progress(s, x0, y0, rows, rl + 1, 0),
        hit_progress(s, x0, y0, rows, rl, 8) == hit_progress(s, x0, y0, rows, rl + 1, 0),
{
    assert forall|y: int, x: int| #[trigger] covered_upto(x0, y0, rows, x, y, rl, 8)
        == covered_upto(x0, y0, rows, x, y, rl + 1, 0) by {
        if sprite_covers(x0, y0, rows, x, y) {
            assert(x0 <= x <= x0 + 7);
        }
    }
    assert forall|y: int| 0 <= y < s.len() implies #[trigger] draw_progress(
        s,
        x0,
        y0,
        rows,
        rl,
        8,
    )[y] =~= draw_progress(s, x0, y0, rows, rl + 1, 0)[y] by {}
    assert(draw_progress(s, x0, y0, rows, rl, 8) =~= draw_progress(s, x0, y0, rows, rl + 1, 0));
    if hit_progress(s, x0, y0, rows, rl, 8) {
        let (y, x) = choose|y: int, x: int|
            0 <= y < s.len() && 0 <= x < s[y].len() && #[trigger] covered_upto(
                x0,
                y0,
                rows,
                x,
                y,
                rl,
                8,
            ) && s[y][x];
        assert(covered_upto(x0, y0, rows, x, y, rl + 1, 0));
        assert(hit_progress(s, x0, y0, rows, rl + 1, 0));
    }
    if hit_progress(s, x0, y0, rows, rl + 1, 0) {
        let (y, x) = choose|y: int, x: int|
            0 <= y < s.len() && 0 <= x < s[y].len() && #[trigger] covered_upto(
                x0,
                y0,
                rows,
                x,
                y,
                rl + 1,
                0,
            ) && s[y][x];
        assert(covered_upto(x0, y0, rows, x, y, rl, 8));
        assert(hit_progress(s, x0, y0, rows, rl, 8));
    }
}

/// Bit `c` of a sprite row byte, executable form.
fn row_bit(byte: u8, c: usize) -> (b: bool)
    requires
        c < 8,
    ensures
        b == bit_of_byte(byte, c as int),
{
    if c == 0 {
        byte / 128 % 2 == 1
    } else if c == 1 {
        byte / 64 % 2 == 1
    } else if c == 2 {
        byte / 32 % 2 == 1
    } else if c == 3 {
        byte / 16 % 2 == 1
    } else if c == 4 {
        byte / 8 % 2 == 1
    } else if c == 5 {
        byte / 4 % 2 == 1
    } else if c == 6 {
        byte / 2 % 2 == 1
    } else {
        byte % 2 == 1
    }
}

impl<R: RandomNumberGenerator> ManagedPlatform<R> {
    /// A fresh backend: blank screen, zeroed timers, all keys released.
    pub(crate) fn new(rand: R) -> (p: ManagedPlatform<R>)
        ensures
            p.model() == default_platform_model(rand.upcoming()),
    {
        let p = ManagedPlatform {
            rand,
            frame_buffer: FrameBuffer::new(),
            delay_timer: 0,
            sound_timer: 0,
            keypad: [KeyEventKind::Released;16],
            last_key: None,
        };
        proof {
            assert(p.model().keys =~= default_platform_model(p.rand.upcoming()).keys);
            assert(p.model() =~= default_platform_model(p.rand.upcoming()));
        }
        p
    }

    /// Decrement the delay timer, floored at zero.
    pub(crate) fn tick_delay(&mut self)
        ensures
            final(self).model() == (PlatformModel {
                delay: tick(old(self).model().delay),
                ..old(self).model()
            }),
    {
        if self.delay_timer > 0 {
            self.delay_timer = self.delay_timer - 1;
        }
    }

    /// Decrement the sound timer, floored at zero.
    pub(crate) fn tick_sound(&mut self)
        ensures
            final(self).model() == (PlatformModel {
                sound: tick(old(self).model().sound),
                ..old(self).model()
            }),
    {
        if self.sound_timer > 0 {
            self.sound_timer = self.sound_timer - 1;
        }
    }

    /// The frame buffer, read-only.
    pub(crate) fn frame_buffer_ref(&self) -> (fb: &FrameBuffer)
        ensures
            fb@ == self.model().screen,
    {
        &self.frame_buffer
    }

    /// The delay timer.
    pub(crate) fn delay(&self) -> (t: u8)
        ensures
            t == self.model().delay,
    {
        self.delay_timer
    }

    /// The sound timer.
    pub(crate) fn sound(&self) -> (t: u8)
        ensures
            t == self.model().sound,
    {
        self.sound_timer
    }

    /// Record an external key event.
    pub(crate) fn set_key(&mut self, key: Key, is_down: bool)
        requires
            key.wf(),
        ensures
            final(self).model() == (PlatformModel {
                keys: old(self).model().keys.update(key@, is_down),
                last_key: if is_down {
                    Some(key)
                } else {
                    old(self).model().last_key
                },
                ..old(self).model()
            }),
    {
        if is_down {
            self.keypad[key.as_usize()] = KeyEventKind::Pressed;
            self.last_key = Some(key);
        } else {
            self.keypad[key.as_usize()] = KeyEventKind::Released;
        }
        proof {
            assert(self.model().keys =~= old(self).model().keys.update(key@, is_down));
        }
    }
}

impl<R: RandomNumberGenerator> Platform for ManagedPlatform<R> {
    closed spec fn model(&self) -> PlatformModel {
        PlatformModel {
            screen: self.frame_buffer@,
            delay: self.delay_timer,
            sound: self.sound_timer,
            keys: self.keypad@.map_values(|k: KeyEventKind| k is Pressed),
            last_key: self.last_key,
            rng: self.rand.upcoming(),
        }
    }

    fn clear_screen(&mut self) {
        self.frame_buffer = FrameBuffer::new();
    }

    fn draw_sprite(&mut self, pos: Point, sprite: Sprite<'_>) -> (collision: bool) {
        let rows = sprite.as_slice();
        let x0 = (pos.0 % 64) as usize;
        let y0 = (pos.1 % 32) as usize;
        let ghost s0 = self.frame_buffer@;
        let ghost grows = rows@;
        let nrows = rows.len();
        let rmax = if nrows < 32 - y0 {
            nrows
        } else {
            32 - y0
        };
        let mut collision = false;
        let mut r: usize = 0;
        proof {
            assert forall|y: int| 0 <= y < 32 implies #[trigger] s0[y].len() == 64 by {}
            let p0 = draw_progress(s0, x0 as int, y0 as int, grows, 0, 0);
            assert forall|y: int| 0 <= y < 32 implies #[trigger] self.frame_buffer@[y] =~= p0[y]
                by {}
            assert(self.frame_buffer@ =~= p0);
        }
        while r < rmax
            invariant
                x0 < 64,
                y0 < 32,
                x0 == pos.0 as int % 64,
                y0 == pos.1 as int % 32,
                rmax <= grows.len(),
                rmax <= 32 - y0,
                grows.len() < 32 - y0 ==> rmax == grows.len(),
                grows.len() >= 32 - y0 ==> rmax == 32 - y0,
                r <= rmax,
                rows@ == grows,
                sprite@ == grows,
                s0 == old(self).frame_buffer@,
                s0.len() == 32,
                forall|y: int| 0 <= y < 32 ==> #[trigger] s0[y].len() == 64,
                self.frame_buffer@ == draw_progress(s0, x0 as int, y0 as int, grows, r as int, 0),
                collision == hit_progress(s0, x0 as int, y0 as int, grows, r as int, 0),
                self.delay_timer == old(self).delay_timer,
                self.sound_timer == old(self).sound_timer,
                self.keypad == old(self).keypad,
                self.last_key == old(self).last_key,
                self.rand == old(self).rand,
            decreases rmax - r,
        {
            let byte = rows[r];
            let mut c: usize = 0;
            while c < 8
                invariant
                    x0 < 64,
                    y0 < 32,
                    rmax <= grows.len(),
                    rmax <= 32 - y0,
                    r < rmax,
                    c <= 8,
                    rows@ == grows,
                    sprite@ == grows,
                    byte == grows[r as int],
                    s0 == old(self).frame_buffer@,
                    s0.len() == 32,
                    forall|y: int| 0 <= y < 32 ==> #[trigger] s0[y].len() == 64,
                    self.frame_buffer@ == draw_progress(
                        s0,
                        x0 as int,
                        y0 as int,
                        grows,
                        r as int,
                        c as int,
                    ),
                    collision == hit_progress(s0, x0 as int, y0 as int, grows, r as int, c as int),
                    self.delay_timer == old(self).delay_timer,
                    self.sound_timer == old(self).sound_timer,
                    self.keypad == old(self).keypad,
                    self.last_key == old(self).last_key,
                    self.rand == old(self).rand,
                decreases 8 - c,
            {
                let ghost xi = x0 as int;
                let ghost yi = y0 as int;
                let ghost ri = r as int;
                let ghost ci = c as int;
                proof {
                    lemma_hit_step(s0, xi, yi, grows, ri, ci);
                }
                if row_bit(byte, c) {
                    let xx = x0 + c;
                    let yy = y0 + r;
                    if xx < 64 {
                        proof {
                            assert(!covered_upto(xi, yi, grows, xx as int, yy as int, ri, ci));
                            assert(self.frame_buffer@[yy as int][xx as int] == s0[yy as int][xx
                                as int]);
                        }
                        let was = self.frame_buffer.0[yy][xx];
                        let ghost pre = self.frame_buffer@;
                        collision = collision || was;
                        self.frame_buffer.0[yy][xx] = !was;
                        proof {
                            let prev = draw_progress(s0, xi, yi, grows, ri, ci);
                            let next = draw_progress(s0, xi, yi, grows, ri, ci + 1);
                            assert forall|y: int, x: int|
                                0 <= y < 32 && 0 <= x < 64 && !(y == yy as int && x == xx
                                    as int) implies covered_upto(x0 as int, yi, grows, x, y, ri, ci)
                                == covered_upto(xi, yi, grows, x, y, ri, ci + 1) by {}
                            assert(covered_upto(xi, yi, grows, xx as int, yy as int, ri, ci + 1));
                            assert(self.frame_buffer@[yy as int] == pre[yy as int].update(
                                xx as int,
                                !was,
                            ));
                            assert forall|y: int| 0 <= y < 32 implies #[trigger] self
                                .frame_buffer@[y] =~= next[y] by {
                                if y == yy as int {
                                    assert forall|x: int| 0 <= x < 64 implies self
                                        .frame_buffer@[y][x] == next[y][x] by {
                                        if x != xx as int {
                                            assert(self.frame_buffer@[y][x] == prev[y][x]);
                                        }
                                    }
                                } else {
                                    assert(self.frame_buffer@[y] == prev[y]);
                                    assert forall|x: int| 0 <= x < 64 implies prev[y][x]
                                        == next[y][x] by {}
                                }
                            }
                            assert(self.frame_buffer@ =~= next);
                        }
                    } else {
                        proof {
                            assert forall|y: int, x: int|
                                0 <= y < 32 && 0 <= x < 64 implies covered_upto(
                                xi,
                                yi,
                                grows,
                                x,
                                y,
                                ri,
                                ci,
                            ) == covered_upto(xi, yi, grows, x, y, ri, ci + 1) by {}
                            assert forall|y: int| 0 <= y < 32 implies #[trigger] draw_progress(
                                s0,
                                xi,
                                yi,
                                grows,
                                ri,
                                ci,
                            )[y] =~= draw_progress(s0, xi, yi, grows, ri, ci + 1)[y] by {}
                            assert(draw_progress(s0, xi, yi, grows, ri, ci) =~= draw_progress(
                                s0,
                                xi,
                                yi,
                                grows,
                                ri,
                                ci + 1,
                            ));
                        }
                    }
                } else {
                    proof {
                        assert forall|y: int, x: int|
                            0 <= y < 32 && 0 <= x < 64 implies covered_upto(
                            xi,
                            yi,
                            grows,
                            x,
                            y,
                            ri,
                            ci,
                        ) == covered_upto(xi, yi, grows, x, y, ri, ci + 1) by {}
                        assert forall|y: int| 0 <= y < 32 implies #[trigger] draw_progress(
                            s0,
                            xi,
                            yi,
                            grows,
                            ri,
                            ci,
                        )[y] =~= draw_progress(s0, xi, yi, grows, ri, ci + 1)[y] by {}
                        assert(draw_progress(s0, xi, yi, grows, ri, ci) =~= draw_progress(
                            s0,
                            xi,
                            yi,
                            grows,
                            ri,
                            ci + 1,
                        ));
                    }
                }
                c += 1;
            }
            proof {
                lemma_row_step(s0, x0 as int, y0 as int, grows, r as int);
            }
            r += 1;
        }
        proof {
            let xi = x0 as int;
            let yi = y0 as int;
            assert forall|y: int, x: int| 0 <= y < 32 && 0 <= x < 64 implies covered_upto(
                xi,
                yi,
                grows,
                x,
                y,
                rmax as int,
                0,
            ) == sprite_covers(xi, yi, grows, x, y) by {}
            assert forall|y: int| 0 <= y < 32 implies #[trigger] draw_progress(
                s0,
                xi,
                yi,
                grows,
                rmax as int,
                0,
            )[y] =~= draw_screen(s0, xi, yi, grows)[y] by {}
            assert(draw_progress(s0, xi, yi, grows, rmax as int, 0) =~= draw_screen(
                s0,
                xi,
                yi,
                grows,
            ));
            if hit_progress(s0, xi, yi, grows, rmax as int, 0) {
                let (y, x) = choose|y: int, x: int|
                    0 <= y < s0.len() && 0 <= x < s0[y].len() && #[trigger] covered_upto(
                        xi,
                        yi,
                        grows,
                        x,
                        y,
                        rmax as int,
                        0,
                    ) && s0[y][x];
                assert(sprite_covers(xi, yi, grows, x, y));
            }
            if draw_collision(s0, xi, yi, grows) {
                let (y, x) = choose|y: int, x: int|
                    0 <= y < s0.len() && 0 <= x < s0[y].len() && #[trigger] sprite_covers(
                        xi,
                        yi,
                        grows,
                        x,
                        y,
                    ) && s0[y][x];
                assert(covered_upto(xi, yi, grows, x, y, rmax as int, 0));
            }
            assert(collision == draw_hit(old(self).model(), pos.0 as int, pos.1 as int, sprite@));
            assert(self.model() =~= draw_model(
                old(self).model(),
                pos.0 as int,
                pos.1 as int,
                sprite@,
            ));
        }
        collision
    }

    fn get_delay_timer(&self) -> (t: Word) {
        self.delay_timer
    }

    fn set_delay_timer(&mut self, value: Word) {
        self.delay_timer = value;
    }

    fn set_sound_timer(&mut self, value: Word) {
        self.sound_timer = value;
    }

    fn is_key_down(&self, key: Key) -> (b: bool) {
        matches!(self.keypad[key.as_usize()], KeyEventKind::Pressed)
    }

    fn consume_key_press(&mut self) -> (k: Option<Key>) {
        let k = self.last_key;
        self.last_key = None;
        k
    }

    fn get_random_word(&mut self) -> (w: Word) {
        self.rand.get_random_word()
    }
}

} // verus!

//! The hardware capability interface: the boundary contract between the
//! execution engine and whatever renders pixels, keeps timers, reads the
//! keypad and supplies random bytes.
//!
//! A backend's observable state is abstracted as a [`PlatformModel`]; each
//! method's contract says exactly how one call changes that model, so any
//! conforming backend behaves as a deterministic state machine whose
//! randomness is drawn from its own planned stream of bytes.

use vstd::prelude::*;
use crate::chip8::data::{Key, Nibble, Word};

verus! {

/// Screen width of the fixed-size display, in pixels.
pub const SCREEN_WIDTH: usize = 64;

/// Screen height of the fixed-size display, in pixels.
pub const SCREEN_HEIGHT: usize = 32;

/// A screen coordinate: column, then row.
#[derive(Clone, Copy, Debug, PartialEq, Eq, Structural)]
pub struct Point(pub u8, pub u8);

/// An `n`-row sprite: one byte per row, most significant bit leftmost.
pub struct Sprite<'a> {
    rows: &'a [u8],
}

impl<'a> View for Sprite<'a> {
    type V = Seq<u8>;

    closed spec fn view(&self) -> Seq<u8> {
        self.rows@
    }
}

impl<'a> Sprite<'a> {
    pub fn new(rows: &'a [u8]) -> (s: Sprite<'a>)
        ensures
            s@ == rows@,
    {
        Sprite { rows }
    }

    pub fn as_slice(&self) -> (r: &'a [u8])
        ensures
            r@ == self@,
    {
        self.rows
    }
}

/// The abstract state of a backend: the pixel grid, the two timers, the
/// keypad, the most recently pressed key, and the stream of random bytes
/// the backend has yet to hand out.
#[verifier::ext_equal]
pub struct PlatformModel {
    pub screen: Seq<Seq<bool>>,
    pub delay: u8,
    pub sound: u8,
    pub keys: Seq<bool>,
    pub last_key: Option<Key>,
    pub rng: Seq<u8>,
}

/// The all-off pixel grid.
pub open spec fn blank_screen() -> Seq<Seq<bool>> {
    Seq::new(SCREEN_HEIGHT as nat, |y: int| Seq::new(SCREEN_WIDTH as nat, |x: int| false))
}

/// The pixel grid has exactly the fixed dimensions.
pub open spec fn screen_wf(s: Seq<Seq<bool>>) -> bool {
    &&& s.len() == SCREEN_HEIGHT
    &&& forall|y: int| 0 <= y < s.len() ==> (#[trigger] s[y]).len() == SCREEN_WIDTH
}

/// The model is well-formed: right screen dimensions and 16 keys.
pub open spec fn model_wf(m: PlatformModel) -> bool {
    &&& screen_wf(m.screen)
    &&& m.keys.len() == 16
}

/// The next random byte the backend will hand out: the head of its
/// remaining stream, or zero once the stream is exhausted.
pub open spec fn rng_byte(m: PlatformModel) -> u8 {
    if m.rng.len() > 0 {
        m.rng[0]
    } else {
        0
    }
}

/// The remaining random stream after one byte has been handed out.
pub open spec fn rng_rest(rng: Seq<u8>) -> Seq<u8> {
    if rng.len() > 0 {
        rng.drop_first()
    } else {
        rng
    }
}

/// The model of a freshly built backend with the given random stream:
/// blank screen, zeroed timers, all keys released.
pub open spec fn default_platform_model(rng: Seq<u8>) -> PlatformModel {
    PlatformModel {
        screen: blank_screen(),
        delay: 0,
        sound: 0,
        keys: Seq::new(16, |i: int| false),
        last_key: None,
        rng,
    }
}

/// Bit `c` of a sprite row byte, counting the most significant bit as
/// bit 0 (the leftmost pixel).
pub open spec fn bit_of_byte(b: u8, c: int) -> bool {
    if c == 0 {
        b / 128 % 2 == 1
    } else if c == 1 {
        b / 64 % 2 == 1
    } else if c == 2 {
        b / 32 % 2 == 1
    } else if c == 3 {
        b / 16 % 2 == 1
    } else if c == 4 {
        b / 8 % 2 == 1
    } else if c == 5 {
        b / 4 % 2 == 1
    } else if c == 6 {
        b / 2 % 2 == 1
    } else {
        b % 2 == 1
    }
}

/// Whether the sprite with origin `(x0, y0)` has a set bit landing on
/// pixel `(x, y)`. Pixels outside the 8-column-wide, `rows.len()`-tall
/// sprite window are not covered.
pub open spec fn sprite_covers(x0: int, y0: int, rows: Seq<u8>, x: int, y: int) -> bool {
    &&& y0 <= y < y0 + rows.len()
    &&& x0 <= x <= x0 + 7
    &&& bit_of_byte(rows[y - y0], x - x0)
}

/// The screen after XOR-drawing `rows` with origin `(x0, y0)`: every
/// covered pixel flips; every other pixel is unchanged. Pixels that would
/// land outside the grid are skipped.
pub open spec fn draw_screen(s: Seq<Seq<bool>>, x0: int, y0: int, rows: Seq<u8>) -> Seq<
    Seq<bool>,
> {
    Seq::new(
        s.len(),
        |y: int|
            Seq::new(
                s[y].len(),
                |x: int|
                    if sprite_covers(x0, y0, rows, x, y) {
                        !s[y][x]
                    } else {
                        s[y][x]
                    },
            ),
    )
}

/// Whether XOR-drawing `rows` at `(x0, y0)` turns some already-set pixel
/// off: the collision condition.
pub open spec fn draw_collision(s: Seq<Seq<bool>>, x0: int, y0: int, rows: Seq<u8>) -> bool {
    exists|y: int, x: int|
        0 <= y < s.len() && 0 <= x < s[y].len() && #[trigger] sprite_covers(x0, y0, rows, x, y)
            && s[y][x]
}

/// The model after a draw call at raw coordinates `(x, y)`: the origin
/// wraps modulo the screen dimensions, then the sprite is XORed onto the
/// screen.
pub open spec fn draw_model(m: PlatformModel, x: int, y: int, rows: Seq<u8>) -> PlatformModel {
    PlatformModel { screen: draw_screen(m.screen, x % 64, y % 32, rows), ..m }
}

/// The collision result of a draw call at raw coordinates `(x, y)`, with
/// the origin wrapped the same way.
pub open spec fn draw_hit(m: PlatformModel, x: int, y: int, rows: Seq<u8>) -> bool {
    draw_collision(m.screen, x % 64, y % 32, rows)
}

/// The hardware capability interface. The engine holds exactly one
/// implementation and never assumes a specific backend; any conforming
/// implementation is substitutable.
pub trait Platform: Sized {
    /// The backend's observable state.
    spec fn model(&self) -> PlatformModel;

    /// Turn every pixel off.
    fn clear_screen(&mut self)
        ensures
            final(self).model() == (PlatformModel { screen: blank_screen(), ..old(self).model() }),
    ;

    /// XOR-draw a sprite whose origin wraps modulo the screen dimensions;
    /// report whether some already-set pixel was turned off.
    fn draw_sprite(&mut self, pos: Point, sprite: Sprite<'_>) -> (collision: bool)
        ensures
            final(self).model() == draw_model(
                old(self).model(),
                pos.0 as int,
                pos.1 as int,
                sprite@,
            ),
            collision == draw_hit(old(self).model(), pos.0 as int, pos.1 as int, sprite@),
    ;

    /// Read the delay timer.
    fn get_delay_timer(&self) -> (t: Word)
        ensures
            t == self.model().delay,
    ;

    /// Set the delay timer.
    fn set_delay_timer(&mut self, value: Word)
        ensures
            final(self).model() == (PlatformModel { delay: value, ..old(self).model() }),
    ;

    /// Set the sound timer.
    fn set_sound_timer(&mut self, value: Word)
        ensures
            final(self).model() == (PlatformModel { sound: value, ..old(self).model() }),
    ;

    /// Whether the key with the given index is currently pressed.
    fn is_key_down(&self, key: Key) -> (b: bool)
        requires
            key.wf(),
        ensures
            b == self.model().keys[key@],
    ;

    /// Take the most recently pressed key, if any backends track one.
    fn consume_key_press(&mut self) -> (k: Option<Key>)
        ensures
            final(self).model() == (PlatformModel { last_key: None, ..old(self).model() }),
            k == old(self).model().last_key,
    ;

    /// Produce the next byte of the backend's random stream.
    fn get_random_word(&mut self) -> (w: Word)
        ensures
            final(self).model() == (PlatformModel {
                rng: rng_rest(old(self).model().rng),
                ..old(self).model()
            }),
            w == rng_byte(old(self).model()),
    ;
}

} // verus!

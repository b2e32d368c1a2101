use crate::chance::random_between;
use crate::config::{BOMB_MAX_AGE, DISPLAY_WIDTH, FPS, MIN_SUB_DEPTH, MISSILE_PERIOD, WATER_LEVEL, DISPLAY_HEIGHT};
use crate::cull::Lifecycle;
use crate::geometry::{Rect, Shape};
use vstd::prelude::*;

verus! {

/// The player's ship on the surface.
#[derive(Clone, Copy, Debug, PartialEq, Eq, Structural)]
pub struct Destroyer {
    pub rect: Rect,
}

/// Horizontal travel direction of a submarine.
#[derive(Clone, Copy, Debug, PartialEq, Eq, Structural)]
pub enum Heading {
    Left,
    Right,
}

#[derive(Clone, Copy, Debug, PartialEq, Eq, Structural)]
pub struct Submarine {
    pub rect: Rect,
    pub heading: Heading,
    /// Ticks left until the next missile.
    pub missile_countdown: u32,
    pub destroyed: bool,
}

#[derive(Clone, Copy, Debug, PartialEq, Eq, Structural)]
pub struct Missile {
    pub rect: Rect,
    pub destroyed: bool,
}

#[derive(Clone, Copy, Debug, PartialEq, Eq, Structural)]
pub struct Bomb {
    pub rect: Rect,
    pub age: u32,
    pub max_age: u32,
    pub destroyed: bool,
}

/// A purely cosmetic 1x1 bubble.
#[derive(Clone, Copy, Debug, PartialEq, Eq, Structural)]
pub struct Bubble {
    pub rect: Rect,
    pub age: u32,
    pub max_age: u32,
}

/// A growing blast; anything it touches blows up in turn.
#[derive(Clone, Copy, Debug, PartialEq, Eq, Structural)]
pub struct Explosion {
    pub rect: Rect,
    pub age: u32,
    pub max_age: u32,
}

pub open spec fn max_int(a: int, b: int) -> int {
    if a >= b { a } else { b }
}

pub open spec fn min_int(a: int, b: int) -> int {
    if a <= b { a } else { b }
}

impl Destroyer {
    /// Fixed size and height; right edge within `[100, DISPLAY_WIDTH]`.
    pub open spec fn sound(self) -> bool {
        &&& self.rect.w == 100 && self.rect.h == 20 && self.rect.y == 50
        &&& 100 <= self.rect.right_spec() <= DISPLAY_WIDTH
    }

    pub fn new() -> (d: Destroyer)
        ensures
            d.rect == (Rect { x: 50, y: 50, w: 100, h: 20 }),
            d.sound(),
    {
        Destroyer { rect: Rect::new(50, 50, 100, 20) }
    }

    /// Moves two units to the left, never letting the right edge go below 100.
    pub fn move_left(&mut self)
        requires
            old(self).sound(),
        ensures
            final(self).sound(),
            final(self).rect == (Rect { x: (max_int(100, old(self).rect.right_spec() - 2) - 100) as i32, ..old(self).rect }),
            final(self).rect.right_spec() == max_int(100, old(self).rect.right_spec() - 2),
    {
        let mut new_right = self.rect.right() - 2;
        if new_right < 100 {
            new_right = 100;
        }
        self.rect.set_right(new_right);
    }

    /// Moves two units to the right, never letting the right edge pass the display.
    pub fn move_right(&mut self)
        requires
            old(self).sound(),
        ensures
            final(self).sound(),
            final(self).rect == (Rect { x: (min_int(DISPLAY_WIDTH as int, old(self).rect.right_spec() + 2) - 100) as i32, ..old(self).rect }),
            final(self).rect.right_spec() == min_int(DISPLAY_WIDTH as int, old(self).rect.right_spec() + 2),
    {
        let mut new_right = self.rect.right() + 2;
        if new_right > DISPLAY_WIDTH {
            new_right = DISPLAY_WIDTH;
        }
        self.rect.set_right(new_right);
    }

    pub open spec fn dropped_bomb(self) -> Bomb {
        Bomb {
            rect: Rect { x: self.rect.x, y: (self.rect.y + self.rect.h) as i32, w: 10, h: 10 },
            age: 0,
            max_age: BOMB_MAX_AGE,
            destroyed: false,
        }
    }

    /// A new 10x10 bomb at the ship's left edge and bottom.
    pub fn drop_bomb(&self) -> (b: Bomb)
        requires
            self.sound(),
        ensures
            b == self.dropped_bomb(),
            b.sound(),
    {
        Bomb::new(Rect::new(self.rect.x, self.rect.bottom(), 10, 10), BOMB_MAX_AGE)
    }
}

impl Submarine {
    /// Fixed size, depth within the sea, right edge within `[50, DISPLAY_WIDTH]`.
    pub open spec fn sound(self) -> bool {
        &&& self.rect.w == 50 && self.rect.h == 20
        &&& MIN_SUB_DEPTH <= self.rect.y <= DISPLAY_HEIGHT - 20
        &&& 50 <= self.rect.right_spec() <= DISPLAY_WIDTH
        &&& 1 <= self.missile_countdown <= MISSILE_PERIOD
    }

    pub open spec fn spawned(x: i32, y: i32) -> Submarine {
        Submarine {
            rect: Rect { x, y, w: 50, h: 20 },
            heading: Heading::Left,
            missile_countdown: MISSILE_PERIOD,
            destroyed: false,
        }
    }

    /// A submarine with its top-left corner at `(x, y)`, heading left.
    pub fn at(x: i32, y: i32) -> (s: Submarine)
        requires
            0 <= x <= DISPLAY_WIDTH - 50,
            MIN_SUB_DEPTH <= y <= DISPLAY_HEIGHT - 20,
        ensures
            s == Submarine::spawned(x, y),
            s.sound(),
    {
        Submarine {
            rect: Rect::new(x, y, 50, 20),
            heading: Heading::Left,
            missile_countdown: MISSILE_PERIOD,
            destroyed: false,
        }
    }

    /// A submarine at a uniformly random place of the sea, heading left.
    pub fn new() -> (s: Submarine)
        ensures
            0 <= s.rect.x <= DISPLAY_WIDTH - 50,
            MIN_SUB_DEPTH <= s.rect.y <= DISPLAY_HEIGHT - 20,
            s == Submarine::spawned(s.rect.x, s.rect.y),
            s.sound(),
    {
        let x = random_between(0, DISPLAY_WIDTH - 50);
        let y = random_between(MIN_SUB_DEPTH, DISPLAY_HEIGHT - 20);
        Submarine::at(x, y)
    }

    /// Right edge after one unit of travel, before clamping.
    pub open spec fn raw_right(self) -> int {
        match self.heading {
            Heading::Left => self.rect.right_spec() - 1,
            Heading::Right => self.rect.right_spec() + 1,
        }
    }

    /// Whether one unit of travel hits a bound of the patrol range.
    pub open spec fn clamps(self) -> bool {
        self.raw_right() >= DISPLAY_WIDTH || self.raw_right() <= 50
    }

    pub open spec fn next_right(self) -> int {
        if self.raw_right() >= DISPLAY_WIDTH {
            DISPLAY_WIDTH as int
        } else if self.raw_right() <= 50 {
            50
        } else {
            self.raw_right()
        }
    }

    pub open spec fn next_heading(self) -> Heading {
        if self.raw_right() >= DISPLAY_WIDTH {
            Heading::Left
        } else if self.raw_right() <= 50 {
            Heading::Right
        } else {
            self.heading
        }
    }

    /// Whether the countdown runs out on this tick.
    pub open spec fn fires(self) -> bool {
        self.missile_countdown == 1
    }

    /// The submarine after one tick of travel and countdown.
    pub open spec fn advanced(self) -> Submarine {
        Submarine {
            rect: Rect { x: (self.next_right() - self.rect.w) as i32, ..self.rect },
            heading: self.next_heading(),
            missile_countdown: if self.fires() { MISSILE_PERIOD } else { (self.missile_countdown - 1) as u32 },
            destroyed: self.destroyed,
        }
    }

    /// Travels one unit along its heading, turning round at either bound of
    /// the patrol range, and counts down to the next missile. Returns whether
    /// a missile is due.
    pub fn advance(&mut self) -> (fired: bool)
        requires
            old(self).sound(),
        ensures
            *final(self) == old(self).advanced(),
            final(self).sound(),
            final(self).rect.right_spec() == old(self).next_right(),
            fired == old(self).fires(),
    {
        let mut new_right = match self.heading {
            Heading::Left => self.rect.right() - 1,
            Heading::Right => self.rect.right() + 1,
        };
        if new_right >= DISPLAY_WIDTH {
            new_right = DISPLAY_WIDTH;
            self.heading = Heading::Left;
        } else if new_right <= 50 {
            new_right = 50;
            self.heading = Heading::Right;
        }
        self.rect.set_right(new_right);
        self.missile_countdown = self.missile_countdown - 1;
        if self.missile_countdown == 0 {
            self.missile_countdown = MISSILE_PERIOD;
            true
        } else {
            false
        }
    }

    pub open spec fn missile(self) -> Missile {
        Missile { rect: Rect { x: self.rect.x, y: self.rect.y, w: 6, h: 12 }, destroyed: false }
    }

    /// A new 6x12 missile at the submarine's top-left corner.
    pub fn fire(&self) -> (m: Missile)
        requires
            self.sound(),
        ensures
            m == self.missile(),
            m.sound(),
    {
        Missile::new(Rect::new(self.rect.x, self.rect.y, 6, 12))
    }
}

impl Missile {
    /// Fixed size, between the water line and the sea floor.
    pub open spec fn sound(self) -> bool {
        &&& self.rect.w == 6 && self.rect.h == 12
        &&& 0 <= self.rect.x <= DISPLAY_WIDTH - 50
        &&& WATER_LEVEL <= self.rect.y <= DISPLAY_HEIGHT - 20
    }

    pub fn new(rect: Rect) -> (m: Missile)
        ensures
            m == (Missile { rect, destroyed: false }),
    {
        Missile { rect, destroyed: false }
    }

    pub open spec fn risen(self) -> Missile {
        Missile { rect: Rect { y: max_int(WATER_LEVEL as int, self.rect.y - 2) as i32, ..self.rect }, ..self }
    }

    /// Rises two units, stopping at the water line. Returns whether it has
    /// reached the water line.
    pub fn rise(&mut self) -> (surfaced: bool)
        requires
            old(self).sound(),
        ensures
            *final(self) == old(self).risen(),
            final(self).sound(),
            final(self).rect.y <= old(self).rect.y,
            surfaced == (final(self).rect.y == WATER_LEVEL),
    {
        let mut y = self.rect.y - 2;
        if y < WATER_LEVEL {
            y = WATER_LEVEL;
        }
        self.rect.y = y;
        y == WATER_LEVEL
    }
}

impl Bomb {
    /// Fixed size; sinks one unit per tick of age from the water line.
    pub open spec fn sound(self) -> bool {
        &&& self.rect.w == 10 && self.rect.h == 10
        &&& 0 <= self.rect.x <= DISPLAY_WIDTH - 100
        &&& self.max_age <= BOMB_MAX_AGE
        &&& self.age <= self.max_age + 1
        &&& WATER_LEVEL <= self.rect.y <= WATER_LEVEL + self.age
    }

    pub fn new(rect: Rect, max_age: u32) -> (b: Bomb)
        ensures
            b == (Bomb { rect, age: 0, max_age, destroyed: false }),
    {
        Bomb { rect, age: 0, max_age, destroyed: false }
    }
}

impl Bubble {
    /// Unit size, short-lived, and never far from where bubbles are made.
    pub open spec fn sound(self) -> bool {
        &&& self.rect.w == 1 && self.rect.h == 1
        &&& self.max_age <= FPS
        &&& self.age <= self.max_age + 1
        &&& -100 - self.age <= self.rect.x <= 1000 + self.age
        &&& 10 - self.age <= self.rect.y <= 1000
    }

    /// Sound and not yet past its lifetime, so it may drift once more.
    pub open spec fn ready(self) -> bool {
        self.sound() && self.age <= self.max_age
    }

    /// Just made: unit size, age zero, and a lifespan of `[10, FPS]` ticks.
    pub open spec fn fresh(self) -> bool {
        &&& self.rect.w == 1 && self.rect.h == 1
        &&& self.age == 0
        &&& 10 <= self.max_age <= FPS
    }

    /// Where a new bubble may be made.
    pub open spec fn fresh_spot(x: int, y: int) -> bool {
        -100 <= x <= 1000 && 10 <= y <= 1000
    }

    pub fn new(rect: Rect, max_age: u32) -> (b: Bubble)
        ensures
            b == (Bubble { rect, age: 0, max_age }),
    {
        Bubble { rect, age: 0, max_age }
    }

    /// A new 1x1 bubble at `(x, y)`.
    pub fn at(x: i32, y: i32, max_age: u32) -> (b: Bubble)
        requires
            Bubble::fresh_spot(x as int, y as int),
            max_age <= FPS,
        ensures
            b == (Bubble { rect: Rect { x, y, w: 1, h: 1 }, age: 0, max_age }),
            b.sound(),
    {
        Bubble::new(Rect::new(x, y, 1, 1), max_age)
    }

    /// Ages by one tick and drifts by `(dx, dy)`: sideways by at most one
    /// unit, and up by one unit or not at all.
    pub fn drift(&mut self, dx: i32, dy: i32)
        requires
            old(self).sound(),
            old(self).age <= old(self).max_age,
            -1 <= dx <= 1,
            -1 <= dy <= 0,
        ensures
            *final(self) == (Bubble {
                rect: Rect { x: (old(self).rect.x + dx) as i32, y: (old(self).rect.y + dy) as i32, ..old(self).rect },
                age: (old(self).age + 1) as u32,
                ..*old(self)
            }),
            final(self).sound(),
    {
        self.age = self.age + 1;
        self.rect.x = self.rect.x + dx;
        self.rect.y = self.rect.y + dy;
    }
}

impl Explosion {
    /// Short-lived, grown from a rectangle of the sea by one unit on each
    /// side per tick of age.
    pub open spec fn sound(self) -> bool {
        &&& self.max_age <= 2 * FPS
        &&& self.age <= self.max_age + 1
        &&& -(self.age as int) <= self.rect.x <= DISPLAY_WIDTH - 50
        &&& WATER_LEVEL - self.age <= self.rect.y <= DISPLAY_HEIGHT - 20
        &&& 1 <= self.rect.w <= 50 + 2 * self.age
        &&& 1 <= self.rect.h <= 20 + 2 * self.age
    }

    pub fn new(rect: Rect, max_age: u32) -> (e: Explosion)
        ensures
            e == (Explosion { rect, age: 0, max_age }),
    {
        Explosion { rect, age: 0, max_age }
    }

    pub open spec fn expanded(self) -> Explosion {
        Explosion {
            rect: Rect {
                x: (self.rect.x - 1) as i32,
                y: (self.rect.y - 1) as i32,
                w: (self.rect.w + 2) as i32,
                h: (self.rect.h + 2) as i32,
            },
            age: (self.age + 1) as u32,
            max_age: self.max_age,
        }
    }

    /// Ages by one tick and grows by one unit on every side.
    pub fn expand(&mut self)
        requires
            old(self).sound(),
            old(self).age <= old(self).max_age,
        ensures
            *final(self) == old(self).expanded(),
            final(self).sound(),
    {
        self.age = self.age + 1;
        self.rect.x = self.rect.x - 1;
        self.rect.y = self.rect.y - 1;
        self.rect.w = self.rect.w + 2;
        self.rect.h = self.rect.h + 2;
    }
}

impl Lifecycle for Submarine {
    open spec fn alive_spec(&self) -> bool {
        !self.destroyed
    }

    fn alive(&self) -> (r: bool) {
        !self.destroyed
    }
}

impl Lifecycle for Missile {
    open spec fn alive_spec(&self) -> bool {
        !self.destroyed && self.rect.y > WATER_LEVEL
    }

    fn alive(&self) -> (r: bool) {
        !self.destroyed && self.rect.y > WATER_LEVEL
    }
}

impl Lifecycle for Bomb {
    open spec fn alive_spec(&self) -> bool {
        !self.destroyed && self.age <= self.max_age
    }

    fn alive(&self) -> (r: bool) {
        !self.destroyed && self.age <= self.max_age
    }
}

impl Lifecycle for Bubble {
    open spec fn alive_spec(&self) -> bool {
        self.age <= self.max_age && self.rect.y > WATER_LEVEL
    }

    fn alive(&self) -> (r: bool) {
        self.age <= self.max_age && self.rect.y > WATER_LEVEL
    }
}

impl Lifecycle for Explosion {
    open spec fn alive_spec(&self) -> bool {
        self.age <= self.max_age
    }

    fn alive(&self) -> (r: bool) {
        self.age <= self.max_age
    }
}

impl Shape for Destroyer {
    open spec fn rect_spec(&self) -> Rect {
        self.rect
    }

    fn rect(&self) -> (r: Rect) {
        self.rect
    }
}

impl Shape for Submarine {
    open spec fn rect_spec(&self) -> Rect {
        self.rect
    }

    fn rect(&self) -> (r: Rect) {
        self.rect
    }
}

impl Shape for Missile {
    open spec fn rect_spec(&self) -> Rect {
        self.rect
    }

    fn rect(&self) -> (r: Rect) {
        self.rect
    }
}

impl Shape for Bomb {
    open spec fn rect_spec(&self) -> Rect {
        self.rect
    }

    fn rect(&self) -> (r: Rect) {
        self.rect
    }
}

impl Shape for Bubble {
    open spec fn rect_spec(&self) -> Rect {
        self.rect
    }

    fn rect(&self) -> (r: Rect) {
        self.rect
    }
}

impl Shape for Explosion {
    open spec fn rect_spec(&self) -> Rect {
        self.rect
    }

    fn rect(&self) -> (r: Rect) {
        self.rect
    }
}

/// A submarine turns round exactly when its travel is clamped at either
/// bound of the patrol range, and keeps its heading otherwise; its right
/// edge stays within the range.
pub proof fn lemma_heading_flips(s: Submarine)
    requires
        s.sound(),
    ensures
        (s.advanced().heading != s.heading) == s.clamps(),
        s.clamps() ==> s.advanced().rect.right_spec() == DISPLAY_WIDTH
            || s.advanced().rect.right_spec() == 50,
        !s.clamps() ==> s.advanced().rect.right_spec() == s.raw_right(),
        50 <= s.advanced().rect.right_spec() <= DISPLAY_WIDTH,
{
}

} // verus!

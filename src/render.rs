use crate::config::{DISPLAY_HEIGHT, DISPLAY_WIDTH, MS_PER_FRAME, WATER_LEVEL};
use crate::geometry::{Rect, Shape};
use crate::world::World;
use vstd::prelude::*;

verus! {

#[derive(Clone, Copy, Debug, PartialEq, Eq, Structural)]
pub struct Color {
    pub r: u8,
    pub g: u8,
    pub b: u8,
}

/// Fill `rect` with `color`.
#[derive(Clone, Copy, Debug, PartialEq, Eq, Structural)]
pub struct DrawCommand {
    pub rect: Rect,
    pub color: Color,
}

pub open spec fn sky() -> DrawCommand {
    DrawCommand { rect: Rect { x: 0, y: 0, w: DISPLAY_WIDTH, h: DISPLAY_HEIGHT }, color: Color { r: 255, g: 255, b: 255 } }
}

pub open spec fn sea() -> DrawCommand {
    DrawCommand { rect: Rect { x: 0, y: WATER_LEVEL, w: DISPLAY_WIDTH, h: DISPLAY_HEIGHT }, color: Color { r: 0, g: 0, b: 255 } }
}

pub open spec fn black() -> Color {
    Color { r: 0, g: 0, b: 0 }
}

pub open spec fn red() -> Color {
    Color { r: 255, g: 0, b: 0 }
}

pub open spec fn bubble_blue() -> Color {
    Color { r: 128, g: 128, b: 255 }
}

pub open spec fn orange() -> Color {
    Color { r: 255, g: 102, b: 0 }
}

/// `out` is `before` followed by one command per item, in order, each
/// filling the item's rectangle with `color`.
pub open spec fn painted<T: Shape>(before: Seq<DrawCommand>, out: Seq<DrawCommand>, items: Seq<T>, color: Color) -> bool {
    &&& out.len() == before.len() + items.len()
    &&& forall|i: int| 0 <= i < before.len() ==> out[i] == before[i]
    &&& forall|i: int| 0 <= i < items.len()
        ==> #[trigger] out[before.len() + i] == (DrawCommand { rect: items[i].rect_spec(), color })
}

/// Appends a command filling each item's rectangle with `color`.
pub fn paint<T: Shape>(out: &mut Vec<DrawCommand>, items: &Vec<T>, color: Color)
    ensures
        painted(old(out)@, final(out)@, items@, color),
{
    let mut i: usize = 0;
    while i < items.len()
        invariant
            i <= items@.len(),
            out@.len() == old(out)@.len() + i,
            forall|j: int| 0 <= j < old(out)@.len() ==> out@[j] == old(out)@[j],
            forall|j: int| 0 <= j < i
                ==> #[trigger] out@[old(out)@.len() + j] == (DrawCommand { rect: items@[j].rect_spec(), color }),
        decreases items@.len() - i,
    {
        let r = items[i].rect();
        out.push(DrawCommand { rect: r, color });
        i = i + 1;
    }
}

impl World {
    /// Where the commands for each kind of entity start in the draw list.
    pub open spec fn subs_at(&self) -> int {
        3
    }

    pub open spec fn missiles_at(&self) -> int {
        self.subs_at() + self.submarines@.len()
    }

    pub open spec fn bombs_at(&self) -> int {
        self.missiles_at() + self.missiles@.len()
    }

    pub open spec fn bubbles_at(&self) -> int {
        self.bombs_at() + self.bombs@.len()
    }

    pub open spec fn explosions_at(&self) -> int {
        self.bubbles_at() + self.bubbles@.len()
    }

    /// The commands that draw the scene, back to front: sky, sea, destroyer,
    /// submarines, missiles, bombs, bubbles, explosions.
    pub fn draw_list(&self) -> (out: Vec<DrawCommand>)
        ensures
            out@.len() == self.explosions_at() + self.explosions@.len(),
            out@[0] == sky(),
            out@[1] == sea(),
            out@[2] == (DrawCommand { rect: self.destroyer.rect, color: black() }),
            forall|i: int| 0 <= i < self.submarines@.len()
                ==> #[trigger] out@[self.subs_at() + i] == (DrawCommand { rect: self.submarines@[i].rect, color: red() }),
            forall|i: int| 0 <= i < self.missiles@.len()
                ==> #[trigger] out@[self.missiles_at() + i] == (DrawCommand { rect: self.missiles@[i].rect, color: black() }),
            forall|i: int| 0 <= i < self.bombs@.len()
                ==> #[trigger] out@[self.bombs_at() + i] == (DrawCommand { rect: self.bombs@[i].rect, color: black() }),
            forall|i: int| 0 <= i < self.bubbles@.len()
                ==> #[trigger] out@[self.bubbles_at() + i] == (DrawCommand { rect: self.bubbles@[i].rect, color: bubble_blue() }),
            forall|i: int| 0 <= i < self.explosions@.len()
                ==> #[trigger] out@[self.explosions_at() + i] == (DrawCommand { rect: self.explosions@[i].rect, color: orange() }),
    {
        let mut out: Vec<DrawCommand> = Vec::new();
        out.push(DrawCommand {
            rect: Rect::new(0, 0, DISPLAY_WIDTH, DISPLAY_HEIGHT),
            color: Color { r: 255, g: 255, b: 255 },
        });
        out.push(DrawCommand {
            rect: Rect::new(0, WATER_LEVEL, DISPLAY_WIDTH, DISPLAY_HEIGHT),
            color: Color { r: 0, g: 0, b: 255 },
        });
        out.push(DrawCommand { rect: self.destroyer.rect, color: Color { r: 0, g: 0, b: 0 } });
        let ghost o0 = out@;
        paint(&mut out, &self.submarines, Color { r: 255, g: 0, b: 0 });
        let ghost o1 = out@;
        paint(&mut out, &self.missiles, Color { r: 0, g: 0, b: 0 });
        let ghost o2 = out@;
        paint(&mut out, &self.bombs, Color { r: 0, g: 0, b: 0 });
        let ghost o3 = out@;
        paint(&mut out, &self.bubbles, Color { r: 128, g: 128, b: 255 });
        let ghost o4 = out@;
        paint(&mut out, &self.explosions, Color { r: 255, g: 102, b: 0 });
        assert forall|i: int| 0 <= i < self.submarines@.len()
            implies #[trigger] out@[self.subs_at() + i] == (DrawCommand { rect: self.submarines@[i].rect, color: red() }) by {
            assert(o1[o0.len() + i] == (DrawCommand { rect: self.submarines@[i].rect, color: red() }));
        }
        assert forall|i: int| 0 <= i < self.missiles@.len()
            implies #[trigger] out@[self.missiles_at() + i] == (DrawCommand { rect: self.missiles@[i].rect, color: black() }) by {
            assert(o2[o1.len() + i] == (DrawCommand { rect: self.missiles@[i].rect, color: black() }));
        }
        assert forall|i: int| 0 <= i < self.bombs@.len()
            implies #[trigger] out@[self.bombs_at() + i] == (DrawCommand { rect: self.bombs@[i].rect, color: black() }) by {
            assert(o3[o2.len() + i] == (DrawCommand { rect: self.bombs@[i].rect, color: black() }));
        }
        assert forall|i: int| 0 <= i < self.bubbles@.len()
            implies #[trigger] out@[self.bubbles_at() + i] == (DrawCommand { rect: self.bubbles@[i].rect, color: bubble_blue() }) by {
            assert(o4[o3.len() + i] == (DrawCommand { rect: self.bubbles@[i].rect, color: bubble_blue() }));
        }
        assert forall|i: int| 0 <= i < self.explosions@.len()
            implies #[trigger] out@[self.explosions_at() + i] == (DrawCommand { rect: self.explosions@[i].rect, color: orange() }) by {
            assert(out@[o4.len() + i] == (DrawCommand { rect: self.explosions@[i].rect, color: orange() }));
        }
        out
    }
}

/// How long to sleep after a frame that took `elapsed_ms` milliseconds:
/// the rest of the frame's time, or nothing if the frame ran over.
pub fn frame_delay(elapsed_ms: u32) -> (d: Option<u32>)
    ensures
        elapsed_ms < MS_PER_FRAME ==> d == Some((MS_PER_FRAME - elapsed_ms) as u32),
        elapsed_ms >= MS_PER_FRAME ==> d.is_none(),
{
    if elapsed_ms < MS_PER_FRAME {
        Some(MS_PER_FRAME - elapsed_ms)
    } else {
        None
    }
}

} // verus!

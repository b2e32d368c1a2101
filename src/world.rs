use crate::chance::random_between;
use crate::config::{ADD_SUB_FREQUENCY, BLAST_BUBBLES, DISPLAY_HEIGHT, DISPLAY_WIDTH, MIN_SUB_DEPTH, FPS, HEAVY_BLAST_AGE, LIGHT_BLAST_AGE, WAKE_BUBBLES, WATER_LEVEL};
use crate::cull::{cull, survivors, Lifecycle};
use crate::entities::{Bomb, Bubble, Destroyer, Explosion, Missile, Submarine};
use crate::geometry::{intersects, Rect};
use vstd::prelude::*;

verus! {

/// One discrete input of the player.
#[derive(Clone, Copy, Debug, PartialEq, Eq, Structural)]
pub enum Command {
    MoveLeft,
    MoveRight,
    DropBomb,
    Quit,
}

/// How a tick ended.
#[derive(Clone, Copy, Debug, PartialEq, Eq, Structural)]
pub enum TickOutcome {
    /// The round goes on.
    Continue,
    /// An explosion reached the destroyer: the round is over.
    RoundOver,
    /// The player asked to quit.
    Quit,
}

/// Every entity of one round, owned by value.
pub struct World {
    pub destroyer: Destroyer,
    pub submarines: Vec<Submarine>,
    pub missiles: Vec<Missile>,
    pub bombs: Vec<Bomb>,
    pub bubbles: Vec<Bubble>,
    pub explosions: Vec<Explosion>,
    /// Ticks since the last submarine appeared.
    pub add_sub_counter: u32,
}

pub open spec fn all_ready(bs: Seq<Bubble>) -> bool {
    forall|i: int| 0 <= i < bs.len() ==> (#[trigger] bs[i]).ready()
}

/// `new` is `old` followed by `n` fresh bubbles, all of them ready to drift.
pub open spec fn bubbles_grew(old: Seq<Bubble>, new: Seq<Bubble>, n: int) -> bool {
    &&& new.len() == old.len() + n
    &&& forall|i: int| 0 <= i < old.len() ==> new[i] == old[i]
    &&& forall|i: int| old.len() <= i < new.len() ==> (#[trigger] new[i]).fresh()
    &&& all_ready(new)
}

/// Bubble `a` is bubble `b` one tick later: one tick older, the same size
/// and lifespan, moved sideways by at most one unit and up by at most one.
pub open spec fn drifted(b: Bubble, a: Bubble) -> bool {
    &&& a.age == b.age + 1 && a.max_age == b.max_age
    &&& a.rect.w == b.rect.w && a.rect.h == b.rect.h
    &&& b.rect.x - 1 <= a.rect.x <= b.rect.x + 1
    &&& b.rect.y - 1 <= a.rect.y <= b.rect.y
}

/// Growing by `n` and then by `m` is growing by `n + m`.
pub proof fn lemma_bubbles_grew_trans(a: Seq<Bubble>, b: Seq<Bubble>, c: Seq<Bubble>, n: int, m: int)
    requires
        0 <= n,
        0 <= m,
        bubbles_grew(a, b, n),
        bubbles_grew(b, c, m),
    ensures
        bubbles_grew(a, c, n + m),
{
    assert forall|i: int| 0 <= i < a.len() implies c[i] == a[i] by {
        assert(c[i] == b[i]);
    }
    assert forall|i: int| a.len() <= i < c.len() implies (#[trigger] c[i]).fresh() by {
        if i < b.len() {
            assert(c[i] == b[i]);
        }
    }
}

/// Whether some explosion of `ex` overlaps `r`.
pub open spec fn caught(r: Rect, ex: Seq<Explosion>) -> bool {
    exists|i: int| 0 <= i < ex.len() && intersects(ex[i].rect, r)
}

pub open spec fn all_sound_explosions(ex: Seq<Explosion>) -> bool {
    forall|i: int| 0 <= i < ex.len() ==> (#[trigger] ex[i]).sound()
}

/// A new explosion over `r` that lasts `max_age` ticks.
pub open spec fn blast(r: Rect, max_age: u32) -> Explosion {
    Explosion { rect: r, age: 0, max_age }
}

/// Whether some explosion among the first `active` of `ex` overlaps `r`.
pub fn caught_by(r: &Rect, ex: &Vec<Explosion>, active: usize) -> (b: bool)
    requires
        active <= ex@.len(),
        r.in_world(),
        all_sound_explosions(ex@.subrange(0, active as int)),
    ensures
        b == caught(*r, ex@.subrange(0, active as int)),
{
    let ghost act = ex@.subrange(0, active as int);
    let mut i: usize = 0;
    while i < active
        invariant
            i <= active <= ex@.len(),
            act == ex@.subrange(0, active as int),
            r.in_world(),
            all_sound_explosions(act),
            forall|j: int| 0 <= j < i ==> !intersects(act[j].rect, *r),
        decreases active - i,
    {
        assert(act[i as int] == ex@[i as int]);
        assert(act[i as int].sound());
        if ex[i].rect.has_intersection(r) {
            return true;
        }
        i = i + 1;
    }
    false
}

/// The destroyer after the moves among `cmds`, in order.
pub open spec fn steered(d: Destroyer, cmds: Seq<Command>) -> Destroyer
    decreases cmds.len(),
{
    if cmds.len() == 0 {
        d
    } else {
        let p = steered(d, cmds.drop_last());
        match cmds.last() {
            Command::MoveLeft => Destroyer {
                rect: Rect { x: (crate::entities::max_int(100, p.rect.right_spec() - 2) - 100) as i32, ..p.rect },
            },
            Command::MoveRight => Destroyer {
                rect: Rect { x: (crate::entities::min_int(800, p.rect.right_spec() + 2) - 100) as i32, ..p.rect },
            },
            _ => p,
        }
    }
}

/// The bombs dropped by `cmds`, in order.
pub open spec fn dropped(d: Destroyer, cmds: Seq<Command>) -> Seq<Bomb>
    decreases cmds.len(),
{
    if cmds.len() == 0 {
        Seq::empty()
    } else if cmds.last() == Command::DropBomb {
        dropped(d, cmds.drop_last()).push(steered(d, cmds.drop_last()).dropped_bomb())
    } else {
        dropped(d, cmds.drop_last())
    }
}

/// The number of moves among `cmds`.
pub open spec fn moves(cmds: Seq<Command>) -> nat
    decreases cmds.len(),
{
    if cmds.len() == 0 {
        0
    } else if cmds.last() == Command::MoveLeft || cmds.last() == Command::MoveRight {
        moves(cmds.drop_last()) + 1
    } else {
        moves(cmds.drop_last())
    }
}

/// `n` is the number of commands before the first `Quit` of `cmds`, or the
/// length of `cmds` where it holds none.
pub open spec fn quit_at(cmds: Seq<Command>, n: int) -> bool {
    &&& 0 <= n <= cmds.len()
    &&& forall|j: int| 0 <= j < n ==> cmds[j] != Command::Quit
    &&& n < cmds.len() ==> cmds[n] == Command::Quit
}

pub open spec fn explosions_ok(ex: Seq<Explosion>) -> bool {
    forall|i: int| 0 <= i < ex.len() ==> (#[trigger] ex[i]).sound() && ex[i].alive_spec()
}

pub open spec fn missiles_ok(ms: Seq<Missile>) -> bool {
    forall|i: int| 0 <= i < ms.len() ==> (#[trigger] ms[i]).sound() && !ms[i].destroyed
}

/// A submarine after one tick against the active explosions `ex`: caught
/// ones are destroyed where they stand, the others travel.
pub open spec fn sub_next(s: Submarine, ex: Seq<Explosion>) -> Submarine {
    if caught(s.rect, ex) {
        Submarine { destroyed: true, ..s }
    } else {
        s.advanced()
    }
}

/// The explosions left by the submarines of `subs` that `ex` catches.
pub open spec fn sub_blasts(subs: Seq<Submarine>, ex: Seq<Explosion>) -> Seq<Explosion>
    decreases subs.len(),
{
    if subs.len() == 0 {
        Seq::empty()
    } else if caught(subs.last().rect, ex) {
        sub_blasts(subs.drop_last(), ex).push(blast(subs.last().rect, HEAVY_BLAST_AGE))
    } else {
        sub_blasts(subs.drop_last(), ex)
    }
}

/// The missiles fired by the submarines of `subs` in one tick.
pub open spec fn sub_shots(subs: Seq<Submarine>, ex: Seq<Explosion>) -> Seq<Missile>
    decreases subs.len(),
{
    if subs.len() == 0 {
        Seq::empty()
    } else if !caught(subs.last().rect, ex) && subs.last().fires() {
        sub_shots(subs.drop_last(), ex).push(subs.last().advanced().missile())
    } else {
        sub_shots(subs.drop_last(), ex)
    }
}

/// The bubbles made by the submarines of `subs` in one tick: a trail bubble
/// for each one that travels, a burst for each one that blows up.
pub open spec fn sub_bubbles(subs: Seq<Submarine>, ex: Seq<Explosion>) -> nat
    decreases subs.len(),
{
    if subs.len() == 0 {
        0
    } else if caught(subs.last().rect, ex) {
        sub_bubbles(subs.drop_last(), ex) + BLAST_BUBBLES as nat
    } else {
        sub_bubbles(subs.drop_last(), ex) + 1
    }
}

/// A missile after one tick against the active explosions `ex`: caught ones
/// are destroyed where they stand, the others rise.
pub open spec fn missile_next(m: Missile, ex: Seq<Explosion>) -> Missile {
    if caught(m.rect, ex) {
        Missile { destroyed: true, ..m }
    } else {
        m.risen()
    }
}

/// The explosion that a missile sets off in one tick, if any: where it is
/// caught, or where it reaches the water line.
pub open spec fn missile_blast(m: Missile, ex: Seq<Explosion>) -> Seq<Explosion> {
    if caught(m.rect, ex) {
        seq![blast(m.rect, LIGHT_BLAST_AGE)]
    } else if m.risen().rect.y == WATER_LEVEL {
        seq![blast(m.risen().rect, LIGHT_BLAST_AGE)]
    } else {
        Seq::empty()
    }
}

pub open spec fn missile_blasts(ms: Seq<Missile>, ex: Seq<Explosion>) -> Seq<Explosion>
    decreases ms.len(),
{
    if ms.len() == 0 {
        Seq::empty()
    } else {
        missile_blasts(ms.drop_last(), ex) + missile_blast(ms.last(), ex)
    }
}

/// The bubbles made by the missiles of `ms` in one tick.
pub open spec fn missile_bubbles(ms: Seq<Missile>, ex: Seq<Explosion>) -> nat
    decreases ms.len(),
{
    if ms.len() == 0 {
        0
    } else if caught(ms.last().rect, ex) {
        missile_bubbles(ms.drop_last(), ex) + BLAST_BUBBLES as nat
    } else if ms.last().risen().rect.y == WATER_LEVEL {
        missile_bubbles(ms.drop_last(), ex) + 1 + BLAST_BUBBLES as nat
    } else {
        missile_bubbles(ms.drop_last(), ex) + 1
    }
}

/// Whether a bomb outlives its lifetime on this tick.
pub open spec fn bomb_expires(b: Bomb) -> bool {
    b.age + 1 > b.max_age
}

/// A bomb after one tick against the active explosions `ex`: it ages; an
/// expired bomb goes no further, a caught one is destroyed, any other sinks.
pub open spec fn bomb_next(b: Bomb, ex: Seq<Explosion>) -> Bomb {
    let aged = Bomb { age: (b.age + 1) as u32, ..b };
    if bomb_expires(b) {
        aged
    } else if caught(b.rect, ex) {
        Bomb { destroyed: true, ..aged }
    } else {
        Bomb { rect: Rect { y: (b.rect.y + 1) as i32, ..b.rect }, ..aged }
    }
}

/// Whether a bomb blows up on this tick: by age, or caught by `ex`.
pub open spec fn bomb_blows(b: Bomb, ex: Seq<Explosion>) -> bool {
    bomb_expires(b) || caught(b.rect, ex)
}

pub open spec fn bomb_blasts(bs: Seq<Bomb>, ex: Seq<Explosion>) -> Seq<Explosion>
    decreases bs.len(),
{
    if bs.len() == 0 {
        Seq::empty()
    } else if bomb_blows(bs.last(), ex) {
        bomb_blasts(bs.drop_last(), ex).push(blast(bs.last().rect, HEAVY_BLAST_AGE))
    } else {
        bomb_blasts(bs.drop_last(), ex)
    }
}

/// The bubbles made by the bombs of `bs` in one tick.
pub open spec fn bomb_bubbles(bs: Seq<Bomb>, ex: Seq<Explosion>) -> nat
    decreases bs.len(),
{
    if bs.len() == 0 {
        0
    } else if bomb_blows(bs.last(), ex) {
        bomb_bubbles(bs.drop_last(), ex) + BLAST_BUBBLES as nat
    } else {
        bomb_bubbles(bs.drop_last(), ex) + 1
    }
}

/// Each submarine of `subs` after one tick against `ex`.
pub open spec fn subs_after(subs: Seq<Submarine>, ex: Seq<Explosion>) -> Seq<Submarine> {
    Seq::new(subs.len(), |i: int| sub_next(subs[i], ex))
}

/// Each missile of `ms` after one tick against `ex`.
pub open spec fn missiles_after(ms: Seq<Missile>, ex: Seq<Explosion>) -> Seq<Missile> {
    Seq::new(ms.len(), |i: int| missile_next(ms[i], ex))
}

/// Each bomb of `bs` after one tick against `ex`.
pub open spec fn bombs_after(bs: Seq<Bomb>, ex: Seq<Explosion>) -> Seq<Bomb> {
    Seq::new(bs.len(), |i: int| bomb_next(bs[i], ex))
}

/// Each explosion of `es` after one tick.
pub open spec fn explosions_after(es: Seq<Explosion>) -> Seq<Explosion> {
    Seq::new(es.len(), |i: int| es[i].expanded())
}

/// What a tick that runs to its end makes of `w`, given `subs`, the
/// submarines once the spawner has run: every entity is resolved against the
/// explosions of `w`, moved, and culled; the missiles fired, the bombs
/// dropped by `cmds` and the explosions set off join their kinds in order.
pub open spec fn tick_result(w: World, cmds: Seq<Command>, subs: Seq<Submarine>, r: World) -> bool {
    let ex = w.explosions@;
    let ms = w.missiles@ + sub_shots(subs, ex);
    let bs = w.bombs@ + dropped(w.destroyer, cmds);
    &&& r.submarines@ == survivors(subs_after(subs, ex))
    &&& r.missiles@ == survivors(missiles_after(ms, ex))
    &&& r.bombs@ == survivors(bombs_after(bs, ex))
    &&& r.explosions@ == survivors(
        explosions_after(ex + sub_blasts(subs, ex) + missile_blasts(ms, ex) + bomb_blasts(bs, ex)),
    )
    &&& r.add_sub_counter == if w.add_sub_counter + 1 >= ADD_SUB_FREQUENCY {
        0
    } else {
        (w.add_sub_counter + 1) as u32
    }
    &&& bubbles_after(
        w.bubbles@,
        WAKE_BUBBLES * moves(cmds) + sub_bubbles(subs, ex) + missile_bubbles(ms, ex) + bomb_bubbles(bs, ex),
        r.bubbles@,
    )
}

/// `r` is what a tick makes of the bubbles `old`: `n` fresh bubbles join
/// them, every bubble drifts for one tick, and those that expire or reach
/// the water line go.
pub open spec fn bubbles_after(old: Seq<Bubble>, n: int, r: Seq<Bubble>) -> bool {
    exists|made: Seq<Bubble>, moved: Seq<Bubble>|
        {
            &&& #[trigger] bubbles_grew(old, made, n)
            &&& moved.len() == made.len()
            &&& forall|i: int| 0 <= i < made.len() ==> #[trigger] drifted(made[i], moved[i])
            &&& r == #[trigger] survivors(moved)
        }
}

/// `subs` is what the spawner makes of the submarines of `w`: one more at a
/// random place every `ADD_SUB_FREQUENCY` ticks.
pub open spec fn spawned_from(w: World, subs: Seq<Submarine>) -> bool {
    if w.add_sub_counter + 1 >= ADD_SUB_FREQUENCY {
        &&& subs.len() == w.submarines@.len() + 1
        &&& subs.drop_last() == w.submarines@
        &&& subs.last() == Submarine::spawned(subs.last().rect.x, subs.last().rect.y)
        &&& 0 <= subs.last().rect.x <= DISPLAY_WIDTH - 50
        &&& MIN_SUB_DEPTH <= subs.last().rect.y <= DISPLAY_HEIGHT - 20
    } else {
        subs == w.submarines@
    }
}

impl World {
    /// Every entity is sound and alive, and the spawn counter is in range.
    pub open spec fn wf(&self) -> bool {
        &&& self.destroyer.sound()
        &&& self.add_sub_counter <= ADD_SUB_FREQUENCY
        &&& forall|i: int| 0 <= i < self.submarines@.len()
            ==> (#[trigger] self.submarines@[i]).sound() && self.submarines@[i].alive_spec()
        &&& forall|i: int| 0 <= i < self.missiles@.len()
            ==> (#[trigger] self.missiles@[i]).sound() && self.missiles@[i].alive_spec()
        &&& forall|i: int| 0 <= i < self.bombs@.len()
            ==> (#[trigger] self.bombs@[i]).sound() && self.bombs@[i].alive_spec()
        &&& forall|i: int| 0 <= i < self.bubbles@.len()
            ==> (#[trigger] self.bubbles@[i]).sound() && self.bubbles@[i].alive_spec()
        &&& forall|i: int| 0 <= i < self.explosions@.len()
            ==> (#[trigger] self.explosions@[i]).sound() && self.explosions@[i].alive_spec()
    }

    /// A fresh round: the destroyer at its start, nothing else yet, and a
    /// submarine due on the first tick.
    pub fn new() -> (w: World)
        ensures
            w.wf(),
            w.destroyer.rect == (Rect { x: 50, y: 50, w: 100, h: 20 }),
            w.submarines@.len() == 0,
            w.missiles@.len() == 0,
            w.bombs@.len() == 0,
            w.bubbles@.len() == 0,
            w.explosions@.len() == 0,
            w.add_sub_counter == ADD_SUB_FREQUENCY,
    {
        World {
            destroyer: Destroyer::new(),
            submarines: Vec::new(),
            missiles: Vec::new(),
            bombs: Vec::new(),
            bubbles: Vec::new(),
            explosions: Vec::new(),
            add_sub_counter: ADD_SUB_FREQUENCY,
        }
    }

    /// Counts one tick; every `ADD_SUB_FREQUENCY` ticks the counter starts
    /// over and a submarine appears at a random place.
    pub fn spawn_submarine(&mut self)
        requires
            old(self).wf(),
        ensures
            final(self).wf(),
            final(self).destroyer == old(self).destroyer,
            final(self).missiles == old(self).missiles,
            final(self).bombs == old(self).bombs,
            final(self).bubbles == old(self).bubbles,
            final(self).explosions == old(self).explosions,
            old(self).add_sub_counter + 1 >= ADD_SUB_FREQUENCY ==> {
                &&& final(self).add_sub_counter == 0
                &&& final(self).submarines@.len() == old(self).submarines@.len() + 1
                &&& final(self).submarines@.drop_last() == old(self).submarines@
                &&& final(self).submarines@.last() == Submarine::spawned(
                    final(self).submarines@.last().rect.x,
                    final(self).submarines@.last().rect.y,
                )
            },
            old(self).add_sub_counter + 1 < ADD_SUB_FREQUENCY ==> {
                &&& final(self).add_sub_counter == old(self).add_sub_counter + 1
                &&& final(self).submarines == old(self).submarines
            },
    {
        self.add_sub_counter = self.add_sub_counter + 1;
        if self.add_sub_counter >= ADD_SUB_FREQUENCY {
            self.add_sub_counter = 0;
            let s = Submarine::new();
            self.submarines.push(s);
            assert(self.submarines@.drop_last() =~= old(self).submarines@);
        }
    }

    /// Adds the wake of a moving destroyer: bubbles between `lo` and `hi`
    /// just under the water line, lasting one second.
    fn make_wake(&mut self, lo: i32, hi: i32)
        requires
            -100 <= lo <= hi <= 1000,
            all_ready(old(self).bubbles@),
        ensures
            bubbles_grew(old(self).bubbles@, final(self).bubbles@, WAKE_BUBBLES as int),
            final(self).destroyer == old(self).destroyer,
            final(self).submarines == old(self).submarines,
            final(self).missiles == old(self).missiles,
            final(self).bombs == old(self).bombs,
            final(self).explosions == old(self).explosions,
            final(self).add_sub_counter == old(self).add_sub_counter,
            forall|i: int| old(self).bubbles@.len() <= i < final(self).bubbles@.len() ==> {
                &&& lo <= (#[trigger] final(self).bubbles@[i]).rect.x <= hi
                &&& WATER_LEVEL + 1 <= final(self).bubbles@[i].rect.y <= WATER_LEVEL + 10
                &&& final(self).bubbles@[i].max_age == FPS
            },
    {
        let mut k: usize = 0;
        while k < WAKE_BUBBLES
            invariant
                -100 <= lo <= hi <= 1000,
                k <= WAKE_BUBBLES,
                bubbles_grew(old(self).bubbles@, self.bubbles@, k as int),
                self.destroyer == old(self).destroyer,
                self.submarines == old(self).submarines,
                self.missiles == old(self).missiles,
                self.bombs == old(self).bombs,
                self.explosions == old(self).explosions,
                self.add_sub_counter == old(self).add_sub_counter,
                forall|i: int| old(self).bubbles@.len() <= i < self.bubbles@.len() ==> {
                    &&& lo <= (#[trigger] self.bubbles@[i]).rect.x <= hi
                    &&& WATER_LEVEL + 1 <= self.bubbles@[i].rect.y <= WATER_LEVEL + 10
                    &&& self.bubbles@[i].max_age == FPS
                },
            decreases WAKE_BUBBLES - k,
        {
            let x = random_between(lo, hi);
            let y = random_between(WATER_LEVEL + 1, WATER_LEVEL + 10);
            self.bubbles.push(Bubble::at(x, y, FPS));
            k = k + 1;
        }
    }

    /// Applies the commands of one tick in order, up to the first `Quit`:
    /// moves shift the destroyer two units and stir up its wake, and each
    /// `DropBomb` releases a bomb. Returns how many commands took effect.
    pub fn apply_commands(&mut self, cmds: &Vec<Command>) -> (taken: usize)
        requires
            old(self).wf(),
        ensures
            final(self).wf(),
            quit_at(cmds@, taken as int),
            final(self).destroyer == steered(old(self).destroyer, cmds@.subrange(0, taken as int)),
            final(self).bombs@ == old(self).bombs@ + dropped(old(self).destroyer, cmds@.subrange(0, taken as int)),
            bubbles_grew(
                old(self).bubbles@,
                final(self).bubbles@,
                WAKE_BUBBLES * moves(cmds@.subrange(0, taken as int)),
            ),
            forall|i: int| old(self).bubbles@.len() <= i < final(self).bubbles@.len() ==> {
                &&& WATER_LEVEL + 1 <= (#[trigger] final(self).bubbles@[i]).rect.y <= WATER_LEVEL + 10
                &&& final(self).bubbles@[i].max_age == FPS
            },
            final(self).submarines == old(self).submarines,
            final(self).missiles == old(self).missiles,
            final(self).explosions == old(self).explosions,
            final(self).add_sub_counter == old(self).add_sub_counter,
    {
        let ghost d0 = self.destroyer;
        let mut i: usize = 0;
        while i < cmds.len()
            invariant
                self.wf(),
                d0 == old(self).destroyer,
                i <= cmds@.len(),
                forall|j: int| 0 <= j < i ==> cmds@[j] != Command::Quit,
                self.destroyer == steered(d0, cmds@.subrange(0, i as int)),
                self.bombs@ == old(self).bombs@ + dropped(d0, cmds@.subrange(0, i as int)),
                bubbles_grew(old(self).bubbles@, self.bubbles@, WAKE_BUBBLES * moves(cmds@.subrange(0, i as int))),
                forall|j: int| old(self).bubbles@.len() <= j < self.bubbles@.len() ==> {
                    &&& WATER_LEVEL + 1 <= (#[trigger] self.bubbles@[j]).rect.y <= WATER_LEVEL + 10
                    &&& self.bubbles@[j].max_age == FPS
                },
                self.submarines == old(self).submarines,
                self.missiles == old(self).missiles,
                self.explosions == old(self).explosions,
                self.add_sub_counter == old(self).add_sub_counter,
            decreases cmds@.len() - i,
        {
            let ghost pre = cmds@.subrange(0, i as int);
            let ghost b1 = self.bubbles@;
            assert(cmds@.subrange(0, i + 1).drop_last() =~= pre);
            assert(cmds@.subrange(0, i + 1).last() == cmds@[i as int]);
            assert(all_ready(self.bubbles@)) by {
                assert forall|j: int| 0 <= j < self.bubbles@.len() implies (#[trigger] self.bubbles@[j]).ready() by {
                    assert(self.bubbles@[j].sound() && self.bubbles@[j].alive_spec());
                }
            }
            match cmds[i] {
                Command::Quit => {
                    return i;
                },
                Command::MoveLeft => {
                    self.destroyer.move_left();
                    let r = self.destroyer.rect.right();
                    self.make_wake(r, r + 5);
                },
                Command::MoveRight => {
                    self.destroyer.move_right();
                    let l = self.destroyer.rect.x;
                    self.make_wake(l - 5, l);
                },
                Command::DropBomb => {
                    let b = self.destroyer.drop_bomb();
                    self.bombs.push(b);
                    assert(self.bombs@ =~= old(self).bombs@ + dropped(d0, cmds@.subrange(0, i + 1)));
                },
            }
            assert forall|j: int| 0 <= j < self.bubbles@.len() implies
                (#[trigger] self.bubbles@[j]).sound() && self.bubbles@[j].alive_spec() by {
                if j >= b1.len() {
                    assert(self.bubbles@[j].rect.y > WATER_LEVEL);
                }
            }
            i = i + 1;
        }
        assert(cmds@.subrange(0, i as int) =~= cmds@.subrange(0, cmds@.len() as int));
        i
    }

    /// Sets off an explosion over `r` lasting `max_age` ticks, with a burst
    /// of bubbles scattered inside it.
    pub fn blow_up(&mut self, r: Rect, max_age: u32)
        requires
            0 <= r.x <= 750,
            WATER_LEVEL <= r.y <= 580,
            1 <= r.w <= 50,
            1 <= r.h <= 20,
            max_age <= 2 * FPS,
            all_ready(old(self).bubbles@),
        ensures
            final(self).explosions@ == old(self).explosions@.push(blast(r, max_age)),
            bubbles_grew(old(self).bubbles@, final(self).bubbles@, BLAST_BUBBLES as int),
            forall|i: int| old(self).bubbles@.len() <= i < final(self).bubbles@.len() ==> {
                let b = #[trigger] final(self).bubbles@[i];
                &&& b == (Bubble { rect: Rect { x: b.rect.x, y: b.rect.y, w: 1, h: 1 }, age: 0, max_age: FPS })
                &&& r.x <= b.rect.x < r.x + r.w
                &&& r.y <= b.rect.y < r.y + r.h
            },
            final(self).destroyer == old(self).destroyer,
            final(self).submarines == old(self).submarines,
            final(self).missiles == old(self).missiles,
            final(self).bombs == old(self).bombs,
            final(self).add_sub_counter == old(self).add_sub_counter,
    {
        self.explosions.push(Explosion::new(r, max_age));
        let mut k: usize = 0;
        while k < BLAST_BUBBLES
            invariant
                0 <= r.x <= 750,
                WATER_LEVEL <= r.y <= 580,
                1 <= r.w <= 50,
                1 <= r.h <= 20,
                k <= BLAST_BUBBLES,
                self.explosions@ == old(self).explosions@.push(blast(r, max_age)),
                bubbles_grew(old(self).bubbles@, self.bubbles@, k as int),
                forall|i: int| old(self).bubbles@.len() <= i < self.bubbles@.len() ==> {
                    let b = #[trigger] self.bubbles@[i];
                    &&& b == (Bubble { rect: Rect { x: b.rect.x, y: b.rect.y, w: 1, h: 1 }, age: 0, max_age: FPS })
                    &&& r.x <= b.rect.x < r.x + r.w
                    &&& r.y <= b.rect.y < r.y + r.h
                },
                self.destroyer == old(self).destroyer,
                self.submarines == old(self).submarines,
                self.missiles == old(self).missiles,
                self.bombs == old(self).bombs,
                self.add_sub_counter == old(self).add_sub_counter,
            decreases BLAST_BUBBLES - k,
        {
            let x = random_between(r.x, r.x + r.w - 1);
            let y = random_between(r.y, r.y + r.h - 1);
            self.bubbles.push(Bubble::at(x, y, FPS));
            k = k + 1;
        }
    }

    /// A bubble left behind at a random place within `[x0, x1] x [y0, y1]`,
    /// lasting a random number of ticks in `[10, FPS)`.
    fn trail_bubble(&mut self, x0: i32, x1: i32, y0: i32, y1: i32)
        requires
            -100 <= x0 <= x1 <= 1000,
            10 <= y0 <= y1 <= 1000,
            all_ready(old(self).bubbles@),
        ensures
            bubbles_grew(old(self).bubbles@, final(self).bubbles@, 1),
            x0 <= final(self).bubbles@.last().rect.x <= x1,
            y0 <= final(self).bubbles@.last().rect.y <= y1,
            10 <= final(self).bubbles@.last().max_age < FPS,
            final(self).destroyer == old(self).destroyer,
            final(self).submarines == old(self).submarines,
            final(self).missiles == old(self).missiles,
            final(self).bombs == old(self).bombs,
            final(self).explosions == old(self).explosions,
            final(self).add_sub_counter == old(self).add_sub_counter,
    {
        let x = random_between(x0, x1);
        let y = random_between(y0, y1);
        let mf = random_between(10, (FPS - 1) as i32);
        self.bubbles.push(Bubble::at(x, y, mf as u32));
    }

    /// Resolves and moves every submarine for one tick against the first
    /// `active` explosions: a caught submarine is marked destroyed and blows
    /// up over its own rectangle for two seconds; any other leaves a trail
    /// bubble behind it, travels, and fires when its countdown runs out.
    pub fn update_submarines(&mut self, active: usize)
        requires
            active <= old(self).explosions@.len(),
            explosions_ok(old(self).explosions@),
            forall|i: int| 0 <= i < old(self).submarines@.len()
                ==> (#[trigger] old(self).submarines@[i]).sound(),
            missiles_ok(old(self).missiles@),
            all_ready(old(self).bubbles@),
        ensures
            ({
                let act = old(self).explosions@.subrange(0, active as int);
                let subs = old(self).submarines@;
                &&& final(self).submarines@ == subs_after(subs, act)
                &&& final(self).submarines@.len() == subs.len()
                &&& forall|i: int| 0 <= i < subs.len()
                    ==> #[trigger] final(self).submarines@[i] == sub_next(subs[i], act)
                &&& final(self).missiles@ == old(self).missiles@ + sub_shots(subs, act)
                &&& final(self).explosions@ == old(self).explosions@ + sub_blasts(subs, act)
                &&& bubbles_grew(old(self).bubbles@, final(self).bubbles@, sub_bubbles(subs, act) as int)
            }),
            forall|i: int| 0 <= i < final(self).submarines@.len()
                ==> (#[trigger] final(self).submarines@[i]).sound(),
            explosions_ok(final(self).explosions@),
            missiles_ok(final(self).missiles@),
            final(self).destroyer == old(self).destroyer,
            final(self).bombs == old(self).bombs,
            final(self).add_sub_counter == old(self).add_sub_counter,
    {
        let ghost act = self.explosions@.subrange(0, active as int);
        let ghost subs = self.submarines@;
        let ghost ex0 = self.explosions@;
        let ghost ms0 = self.missiles@;
        let ghost bs0 = self.bubbles@;
        let mut i: usize = 0;
        while i < self.submarines.len()
            invariant
                act == ex0.subrange(0, active as int),
                active <= ex0.len(),
                subs == old(self).submarines@,
                ex0 == old(self).explosions@,
                ms0 == old(self).missiles@,
                bs0 == old(self).bubbles@,
                self.submarines@.len() == subs.len(),
                i <= subs.len(),
                forall|j: int| 0 <= j < subs.len() ==> (#[trigger] subs[j]).sound(),
                forall|j: int| 0 <= j < i ==> #[trigger] self.submarines@[j] == sub_next(subs[j], act),
                forall|j: int| i <= j < subs.len() ==> #[trigger] self.submarines@[j] == subs[j],
                self.missiles@ == ms0 + sub_shots(subs.subrange(0, i as int), act),
                self.explosions@ == ex0 + sub_blasts(subs.subrange(0, i as int), act),
                bubbles_grew(bs0, self.bubbles@, sub_bubbles(subs.subrange(0, i as int), act) as int),
                explosions_ok(self.explosions@),
                missiles_ok(self.missiles@),
                self.destroyer == old(self).destroyer,
                self.bombs == old(self).bombs,
                self.add_sub_counter == old(self).add_sub_counter,
            decreases subs.len() - i,
        {
            let ghost pre = subs.subrange(0, i as int);
            let ghost bs1 = self.bubbles@;
            assert(subs.subrange(0, i + 1).drop_last() =~= pre);
            assert(subs.subrange(0, i + 1).last() == subs[i as int]);
            let mut s = self.submarines[i];
            assert(s.sound());
            assert(self.explosions@.subrange(0, active as int) =~= act);
            if caught_by(&s.rect, &self.explosions, active) {
                s.destroyed = true;
                self.submarines.set(i, s);
                self.blow_up(s.rect, HEAVY_BLAST_AGE);
                assert(self.explosions@ =~= ex0 + sub_blasts(subs.subrange(0, i + 1), act));
            } else {
                match s.heading {
                    crate::entities::Heading::Left => {
                        let r = s.rect.right();
                        let cy = s.rect.center_y();
                        self.trail_bubble(r, r + 4, cy - 3, cy + 2);
                    },
                    crate::entities::Heading::Right => {
                        let l = s.rect.x;
                        let cy = s.rect.center_y();
                        self.trail_bubble(l - 5, l - 1, cy - 3, cy + 2);
                    },
                }
                let fired = s.advance();
                self.submarines.set(i, s);
                if fired {
                    let m = s.fire();
                    self.missiles.push(m);
                }
                assert(self.missiles@ =~= ms0 + sub_shots(subs.subrange(0, i + 1), act));
            }
            assert forall|j: int| 0 <= j < bs0.len() implies #[trigger] self.bubbles@[j] == bs0[j] by {
                assert(self.bubbles@[j] == bs1[j]);
            }
            i = i + 1;
        }
        assert(subs.subrange(0, i as int) =~= subs);
        assert(self.submarines@ =~= subs_after(subs, act));
    }

    /// Resolves and moves every missile for one tick against the first
    /// `active` explosions: a caught missile is marked destroyed and blows
    /// up for one second; any other leaves a trail bubble, rises two units,
    /// and blows up if it has reached the water line.
    pub fn update_missiles(&mut self, active: usize)
        requires
            active <= old(self).explosions@.len(),
            explosions_ok(old(self).explosions@),
            missiles_ok(old(self).missiles@),
            all_ready(old(self).bubbles@),
        ensures
            ({
                let act = old(self).explosions@.subrange(0, active as int);
                let ms = old(self).missiles@;
                &&& final(self).missiles@ == missiles_after(ms, act)
                &&& final(self).missiles@.len() == ms.len()
                &&& forall|i: int| 0 <= i < ms.len()
                    ==> #[trigger] final(self).missiles@[i] == missile_next(ms[i], act)
                &&& final(self).explosions@ == old(self).explosions@ + missile_blasts(ms, act)
                &&& bubbles_grew(old(self).bubbles@, final(self).bubbles@, missile_bubbles(ms, act) as int)
            }),
            forall|i: int| 0 <= i < final(self).missiles@.len() ==> {
                &&& (#[trigger] final(self).missiles@[i]).sound()
                &&& final(self).missiles@[i].rect.y <= old(self).missiles@[i].rect.y
            },
            explosions_ok(final(self).explosions@),
            final(self).destroyer == old(self).destroyer,
            final(self).submarines == old(self).submarines,
            final(self).bombs == old(self).bombs,
            final(self).add_sub_counter == old(self).add_sub_counter,
    {
        let ghost act = self.explosions@.subrange(0, active as int);
        let ghost ms = self.missiles@;
        let ghost ex0 = self.explosions@;
        let ghost bs0 = self.bubbles@;
        let mut i: usize = 0;
        while i < self.missiles.len()
            invariant
                act == ex0.subrange(0, active as int),
                active <= ex0.len(),
                ms == old(self).missiles@,
                ex0 == old(self).explosions@,
                bs0 == old(self).bubbles@,
                self.missiles@.len() == ms.len(),
                i <= ms.len(),
                missiles_ok(ms),
                forall|j: int| 0 <= j < i ==> #[trigger] self.missiles@[j] == missile_next(ms[j], act),
                forall|j: int| i <= j < ms.len() ==> #[trigger] self.missiles@[j] == ms[j],
                self.explosions@ == ex0 + missile_blasts(ms.subrange(0, i as int), act),
                bubbles_grew(bs0, self.bubbles@, missile_bubbles(ms.subrange(0, i as int), act) as int),
                explosions_ok(self.explosions@),
                self.destroyer == old(self).destroyer,
                self.submarines == old(self).submarines,
                self.bombs == old(self).bombs,
                self.add_sub_counter == old(self).add_sub_counter,
            decreases ms.len() - i,
        {
            let ghost pre = ms.subrange(0, i as int);
            let ghost bs1 = self.bubbles@;
            assert(ms.subrange(0, i + 1).drop_last() =~= pre);
            assert(ms.subrange(0, i + 1).last() == ms[i as int]);
            let mut m = self.missiles[i];
            assert(m.sound());
            assert(self.explosions@.subrange(0, active as int) =~= act);
            if caught_by(&m.rect, &self.explosions, active) {
                m.destroyed = true;
                self.missiles.set(i, m);
                self.blow_up(m.rect, LIGHT_BLAST_AGE);
            } else {
                let cx = m.rect.center_x();
                let b = m.rect.bottom();
                self.trail_bubble(cx, cx, b, b);
                let surfaced = m.rise();
                self.missiles.set(i, m);
                if surfaced {
                    self.blow_up(m.rect, LIGHT_BLAST_AGE);
                }
            }
            assert(self.explosions@ =~= ex0 + missile_blasts(ms.subrange(0, i + 1), act));
            assert forall|j: int| 0 <= j < bs0.len() implies #[trigger] self.bubbles@[j] == bs0[j] by {
                assert(self.bubbles@[j] == bs1[j]);
            }
            i = i + 1;
        }
        assert(ms.subrange(0, i as int) =~= ms);
        assert(self.missiles@ =~= missiles_after(ms, act));
    }

    /// Ages, resolves and moves every bomb for one tick against the first
    /// `active` explosions: an expired bomb blows up whatever else holds; a
    /// caught one is marked destroyed and blows up; any other leaves a trail
    /// bubble and sinks one unit. Bomb explosions last two seconds.
    pub fn update_bombs(&mut self, active: usize)
        requires
            active <= old(self).explosions@.len(),
            explosions_ok(old(self).explosions@),
            forall|i: int| 0 <= i < old(self).bombs@.len()
                ==> (#[trigger] old(self).bombs@[i]).sound() && old(self).bombs@[i].alive_spec(),
            all_ready(old(self).bubbles@),
        ensures
            ({
                let act = old(self).explosions@.subrange(0, active as int);
                let bs = old(self).bombs@;
                &&& final(self).bombs@ == bombs_after(bs, act)
                &&& final(self).bombs@.len() == bs.len()
                &&& forall|i: int| 0 <= i < bs.len()
                    ==> #[trigger] final(self).bombs@[i] == bomb_next(bs[i], act)
                &&& final(self).explosions@ == old(self).explosions@ + bomb_blasts(bs, act)
                &&& bubbles_grew(old(self).bubbles@, final(self).bubbles@, bomb_bubbles(bs, act) as int)
            }),
            forall|i: int| 0 <= i < final(self).bombs@.len() ==> (#[trigger] final(self).bombs@[i]).sound(),
            explosions_ok(final(self).explosions@),
            final(self).destroyer == old(self).destroyer,
            final(self).submarines == old(self).submarines,
            final(self).missiles == old(self).missiles,
            final(self).add_sub_counter == old(self).add_sub_counter,
    {
        let ghost act = self.explosions@.subrange(0, active as int);
        let ghost bs = self.bombs@;
        let ghost ex0 = self.explosions@;
        let ghost bb0 = self.bubbles@;
        let mut i: usize = 0;
        while i < self.bombs.len()
            invariant
                act == ex0.subrange(0, active as int),
                active <= ex0.len(),
                bs == old(self).bombs@,
                ex0 == old(self).explosions@,
                bb0 == old(self).bubbles@,
                self.bombs@.len() == bs.len(),
                i <= bs.len(),
                forall|j: int| 0 <= j < bs.len() ==> (#[trigger] bs[j]).sound() && bs[j].alive_spec(),
                forall|j: int| 0 <= j < i ==> #[trigger] self.bombs@[j] == bomb_next(bs[j], act),
                forall|j: int| i <= j < bs.len() ==> #[trigger] self.bombs@[j] == bs[j],
                self.explosions@ == ex0 + bomb_blasts(bs.subrange(0, i as int), act),
                bubbles_grew(bb0, self.bubbles@, bomb_bubbles(bs.subrange(0, i as int), act) as int),
                explosions_ok(self.explosions@),
                self.destroyer == old(self).destroyer,
                self.submarines == old(self).submarines,
                self.missiles == old(self).missiles,
                self.add_sub_counter == old(self).add_sub_counter,
            decreases bs.len() - i,
        {
            let ghost pre = bs.subrange(0, i as int);
            let ghost bb1 = self.bubbles@;
            assert(bs.subrange(0, i + 1).drop_last() =~= pre);
            assert(bs.subrange(0, i + 1).last() == bs[i as int]);
            let mut b = self.bombs[i];
            assert(b.sound() && b.alive_spec());
            assert(self.explosions@.subrange(0, active as int) =~= act);
            let r = b.rect;
            b.age = b.age + 1;
            if b.age > b.max_age {
                self.bombs.set(i, b);
                self.blow_up(r, HEAVY_BLAST_AGE);
            } else if caught_by(&r, &self.explosions, active) {
                b.destroyed = true;
                self.bombs.set(i, b);
                self.blow_up(r, HEAVY_BLAST_AGE);
            } else {
                let cx = r.center_x();
                self.trail_bubble(cx, cx, r.y, r.y);
                b.rect.y = b.rect.y + 1;
                self.bombs.set(i, b);
            }
            assert(self.explosions@ =~= ex0 + bomb_blasts(bs.subrange(0, i + 1), act));
            assert forall|j: int| 0 <= j < bb0.len() implies #[trigger] self.bubbles@[j] == bb0[j] by {
                assert(self.bubbles@[j] == bb1[j]);
            }
            i = i + 1;
        }
        assert(bs.subrange(0, i as int) =~= bs);
        assert(self.bombs@ =~= bombs_after(bs, act));
    }

    /// Every bubble ages by one tick and drifts at random: sideways by at
    /// most one unit, and up by one unit or not at all.
    pub fn update_bubbles(&mut self)
        requires
            all_ready(old(self).bubbles@),
        ensures
            final(self).bubbles@.len() == old(self).bubbles@.len(),
            forall|i: int| 0 <= i < final(self).bubbles@.len()
                ==> (#[trigger] final(self).bubbles@[i]).sound() && drifted(old(self).bubbles@[i], final(self).bubbles@[i]),
            final(self).destroyer == old(self).destroyer,
            final(self).submarines == old(self).submarines,
            final(self).missiles == old(self).missiles,
            final(self).bombs == old(self).bombs,
            final(self).explosions == old(self).explosions,
            final(self).add_sub_counter == old(self).add_sub_counter,
    {
        let ghost bs = self.bubbles@;
        let mut i: usize = 0;
        while i < self.bubbles.len()
            invariant
                bs == old(self).bubbles@,
                all_ready(bs),
                self.bubbles@.len() == bs.len(),
                i <= bs.len(),
                forall|j: int| 0 <= j < i ==> (#[trigger] self.bubbles@[j]).sound() && drifted(bs[j], self.bubbles@[j]),
                forall|j: int| i <= j < bs.len() ==> #[trigger] self.bubbles@[j] == bs[j],
                self.destroyer == old(self).destroyer,
                self.submarines == old(self).submarines,
                self.missiles == old(self).missiles,
                self.bombs == old(self).bombs,
                self.explosions == old(self).explosions,
                self.add_sub_counter == old(self).add_sub_counter,
            decreases bs.len() - i,
        {
            let mut b = self.bubbles[i];
            assert(b.ready());
            let dx = random_between(-1, 1);
            let dy = random_between(-1, 0);
            b.drift(dx, dy);
            self.bubbles.set(i, b);
            i = i + 1;
        }
    }

    /// Every explosion ages by one tick and grows by one unit on each side.
    pub fn update_explosions(&mut self)
        requires
            explosions_ok(old(self).explosions@),
        ensures
            final(self).explosions@ == explosions_after(old(self).explosions@),
            final(self).explosions@.len() == old(self).explosions@.len(),
            forall|i: int| 0 <= i < final(self).explosions@.len() ==> (#[trigger] final(self).explosions@[i]).sound(),
            final(self).destroyer == old(self).destroyer,
            final(self).submarines == old(self).submarines,
            final(self).missiles == old(self).missiles,
            final(self).bombs == old(self).bombs,
            final(self).bubbles == old(self).bubbles,
            final(self).add_sub_counter == old(self).add_sub_counter,
    {
        let ghost es = self.explosions@;
        let mut i: usize = 0;
        while i < self.explosions.len()
            invariant
                es == old(self).explosions@,
                explosions_ok(es),
                self.explosions@.len() == es.len(),
                i <= es.len(),
                forall|j: int| 0 <= j < i ==> #[trigger] self.explosions@[j] == es[j].expanded(),
                forall|j: int| 0 <= j < i ==> (#[trigger] self.explosions@[j]).sound(),
                forall|j: int| i <= j < es.len() ==> #[trigger] self.explosions@[j] == es[j],
                self.destroyer == old(self).destroyer,
                self.submarines == old(self).submarines,
                self.missiles == old(self).missiles,
                self.bombs == old(self).bombs,
                self.bubbles == old(self).bubbles,
                self.add_sub_counter == old(self).add_sub_counter,
            decreases es.len() - i,
        {
            let mut e = self.explosions[i];
            assert(e.sound() && e.alive_spec());
            e.expand();
            self.explosions.set(i, e);
            i = i + 1;
        }
        assert(self.explosions@ =~= explosions_after(es));
    }

    /// Removes every entity that is destroyed, expired, or above the water
    /// line, keeping the order of the others.
    pub fn cull_all(&mut self)
        ensures
            final(self).submarines@ == survivors(old(self).submarines@),
            final(self).missiles@ == survivors(old(self).missiles@),
            final(self).bombs@ == survivors(old(self).bombs@),
            final(self).bubbles@ == survivors(old(self).bubbles@),
            final(self).explosions@ == survivors(old(self).explosions@),
            final(self).destroyer == old(self).destroyer,
            final(self).add_sub_counter == old(self).add_sub_counter,
    {
        cull(&mut self.submarines);
        cull(&mut self.missiles);
        cull(&mut self.bombs);
        cull(&mut self.bubbles);
        cull(&mut self.explosions);
    }

    /// Whether an explosion overlaps the destroyer.
    pub fn destroyer_hit(&self) -> (hit: bool)
        requires
            self.wf(),
        ensures
            hit == caught(self.destroyer.rect, self.explosions@),
    {
        assert(self.explosions@.subrange(0, self.explosions@.len() as int) =~= self.explosions@);
        caught_by(&self.destroyer.rect, &self.explosions, self.explosions.len())
    }

    /// Advances the round by one tick: a submarine may appear, the commands
    /// take effect up to the first `Quit`, the round ends if an explosion
    /// reaches the destroyer, and otherwise every entity is resolved against
    /// the explosions active at the start of the tick, moved, and culled.
    pub fn tick(&mut self, cmds: &Vec<Command>) -> (outcome: TickOutcome)
        requires
            old(self).wf(),
        ensures
            final(self).wf(),
            (outcome == TickOutcome::Quit) == cmds@.contains(Command::Quit),
            !cmds@.contains(Command::Quit) ==> final(self).destroyer == steered(old(self).destroyer, cmds@),
            (outcome == TickOutcome::RoundOver) == (!cmds@.contains(Command::Quit)
                && caught(steered(old(self).destroyer, cmds@).rect, old(self).explosions@)),
            outcome == TickOutcome::Continue ==> exists|subs: Seq<Submarine>|
                spawned_from(*old(self), subs) && tick_result(*old(self), cmds@, subs, *final(self)),
    {
        let ghost w0 = *self;
        self.spawn_submarine();
        let ghost subs = self.submarines@;
        assert(spawned_from(w0, subs));
        let taken = self.apply_commands(cmds);
        let ghost b1 = self.bubbles@;
        if taken < cmds.len() {
            assert(cmds@.contains(Command::Quit)) by {
                assert(cmds@[taken as int] == Command::Quit);
            }
            return TickOutcome::Quit;
        }
        assert(!cmds@.contains(Command::Quit));
        assert(cmds@.subrange(0, taken as int) =~= cmds@);
        if self.destroyer_hit() {
            return TickOutcome::RoundOver;
        }
        let active = self.explosions.len();
        let ghost ex = self.explosions@;
        assert(ex.subrange(0, active as int) =~= ex);
        assert(ex == w0.explosions@);
        assert(all_ready(self.bubbles@)) by {
            assert forall|j: int| 0 <= j < self.bubbles@.len() implies (#[trigger] self.bubbles@[j]).ready() by {
                assert(self.bubbles@[j].sound() && self.bubbles@[j].alive_spec());
            }
        }
        self.update_submarines(active);
        let ghost b2 = self.bubbles@;
        assert(self.explosions@.subrange(0, active as int) =~= ex);
        self.update_missiles(active);
        let ghost b3 = self.bubbles@;
        assert(self.explosions@.subrange(0, active as int) =~= ex);
        self.update_bombs(active);
        let ghost made = self.bubbles@;
        proof {
            let ms = w0.missiles@ + sub_shots(subs, ex);
            let bs = w0.bombs@ + dropped(w0.destroyer, cmds@);
            let n1 = WAKE_BUBBLES * moves(cmds@);
            lemma_bubbles_grew_trans(w0.bubbles@, b1, b2, n1, sub_bubbles(subs, ex) as int);
            lemma_bubbles_grew_trans(w0.bubbles@, b2, b3, n1 + sub_bubbles(subs, ex), missile_bubbles(ms, ex) as int);
            lemma_bubbles_grew_trans(
                w0.bubbles@,
                b3,
                made,
                n1 + sub_bubbles(subs, ex) + missile_bubbles(ms, ex),
                bomb_bubbles(bs, ex) as int,
            );
        }
        self.update_bubbles();
        let ghost moved = self.bubbles@;
        self.update_explosions();
        let ghost pre = *self;
        self.cull_all();
        proof {
            crate::cull::lemma_survivors_alive(pre.submarines@);
            crate::cull::lemma_survivors_alive(pre.missiles@);
            crate::cull::lemma_survivors_alive(pre.bombs@);
            crate::cull::lemma_survivors_alive(pre.bubbles@);
            crate::cull::lemma_survivors_alive(pre.explosions@);
            assert(self.bubbles@ == survivors(moved));
            assert(bubbles_grew(w0.bubbles@, made, WAKE_BUBBLES * moves(cmds@) + sub_bubbles(subs, ex)
                + missile_bubbles(w0.missiles@ + sub_shots(subs, ex), ex)
                + bomb_bubbles(w0.bombs@ + dropped(w0.destroyer, cmds@), ex)));
            assert(tick_result(w0, cmds@, subs, *self));
        }
        TickOutcome::Continue
    }

    /// Runs one tick of the game: on `RoundOver` the round starts afresh.
    /// Returns whether the game goes on, that is, unless the player quit.
    pub fn step(&mut self, cmds: &Vec<Command>) -> (running: bool)
        requires
            old(self).wf(),
        ensures
            final(self).wf(),
            running == !cmds@.contains(Command::Quit),
            (running && caught(steered(old(self).destroyer, cmds@).rect, old(self).explosions@)) ==> {
                &&& final(self).destroyer.rect == (Rect { x: 50, y: 50, w: 100, h: 20 })
                &&& final(self).submarines@.len() == 0
                &&& final(self).missiles@.len() == 0
                &&& final(self).bombs@.len() == 0
                &&& final(self).bubbles@.len() == 0
                &&& final(self).explosions@.len() == 0
                &&& final(self).add_sub_counter == ADD_SUB_FREQUENCY
            },
            (running && !caught(steered(old(self).destroyer, cmds@).rect, old(self).explosions@)) ==> {
                &&& final(self).destroyer == steered(old(self).destroyer, cmds@)
                &&& exists|subs: Seq<Submarine>|
                    spawned_from(*old(self), subs) && tick_result(*old(self), cmds@, subs, *final(self))
            },
    {
        match self.tick(cmds) {
            TickOutcome::Continue => true,
            TickOutcome::RoundOver => {
                *self = World::new();
                true
            },
            TickOutcome::Quit => false,
        }
    }
}

/// In every well-formed world each rectangle has exact integer edges, the
/// destroyer's right edge lies in `[100, DISPLAY_WIDTH]` and each
/// submarine's in `[50, DISPLAY_WIDTH]`.
pub proof fn lemma_world_bounds(w: World)
    requires
        w.wf(),
    ensures
        w.destroyer.rect.in_world(),
        100 <= w.destroyer.rect.right_spec() <= DISPLAY_WIDTH,
        forall|i: int| 0 <= i < w.submarines@.len() ==> {
            &&& (#[trigger] w.submarines@[i]).rect.in_world()
            &&& 50 <= w.submarines@[i].rect.right_spec() <= DISPLAY_WIDTH
        },
        forall|i: int| 0 <= i < w.missiles@.len() ==> (#[trigger] w.missiles@[i]).rect.in_world(),
        forall|i: int| 0 <= i < w.bombs@.len() ==> (#[trigger] w.bombs@[i]).rect.in_world(),
        forall|i: int| 0 <= i < w.bubbles@.len() ==> (#[trigger] w.bubbles@[i]).rect.in_world(),
        forall|i: int| 0 <= i < w.explosions@.len() ==> (#[trigger] w.explosions@[i]).rect.in_world(),
{
    assert forall|i: int| 0 <= i < w.submarines@.len() implies {
        &&& (#[trigger] w.submarines@[i]).rect.in_world()
        &&& 50 <= w.submarines@[i].rect.right_spec() <= DISPLAY_WIDTH
    } by {
        assert(w.submarines@[i].sound());
    }
    assert forall|i: int| 0 <= i < w.missiles@.len() implies (#[trigger] w.missiles@[i]).rect.in_world() by {
        assert(w.missiles@[i].sound());
    }
    assert forall|i: int| 0 <= i < w.bombs@.len() implies (#[trigger] w.bombs@[i]).rect.in_world() by {
        assert(w.bombs@[i].sound());
    }
    assert forall|i: int| 0 <= i < w.bubbles@.len() implies (#[trigger] w.bubbles@[i]).rect.in_world() by {
        assert(w.bubbles@[i].sound());
    }
    assert forall|i: int| 0 <= i < w.explosions@.len() implies (#[trigger] w.explosions@[i]).rect.in_world() by {
        assert(w.explosions@[i].sound());
    }
}

/// A missile never sinks. On the tick it reaches the water line it leaves
/// the scene and sets off exactly one explosion there; until then it stays
/// and sets off none, unless an explosion catches it, which destroys it and
/// sets off exactly one explosion over its rectangle before the move.
pub proof fn lemma_missile_course(m: Missile, ex: Seq<Explosion>)
    requires
        m.sound(),
        m.alive_spec(),
    ensures
        missile_next(m, ex).rect.y <= m.rect.y,
        missile_next(m, ex).rect.y == WATER_LEVEL ==> {
            &&& !missile_next(m, ex).alive_spec()
            &&& missile_blast(m, ex) == seq![blast(missile_next(m, ex).rect, LIGHT_BLAST_AGE)]
        },
        (!caught(m.rect, ex) && missile_next(m, ex).rect.y != WATER_LEVEL) ==> {
            &&& missile_next(m, ex).alive_spec()
            &&& missile_blast(m, ex).len() == 0
        },
        caught(m.rect, ex) ==> {
            &&& missile_next(m, ex).destroyed
            &&& !missile_next(m, ex).alive_spec()
            &&& missile_blast(m, ex) == seq![blast(m.rect, LIGHT_BLAST_AGE)]
        },
        missile_blasts(seq![m], ex) == missile_blast(m, ex),
{
    assert(seq![m].drop_last() =~= Seq::<Missile>::empty());
    assert(missile_blasts(Seq::<Missile>::empty(), ex) == Seq::<Explosion>::empty());
    assert(Seq::<Explosion>::empty() + missile_blast(m, ex) =~= missile_blast(m, ex));
}

/// A bomb that outlives its lifetime leaves the scene on that tick and sets
/// off exactly one explosion over its rectangle, whether or not an
/// explosion catches it.
pub proof fn lemma_bomb_expiry(b: Bomb, ex: Seq<Explosion>)
    requires
        b.sound(),
        bomb_expires(b),
    ensures
        !bomb_next(b, ex).alive_spec(),
        bomb_blasts(seq![b], ex) == seq![blast(b.rect, HEAVY_BLAST_AGE)],
{
    assert(seq![b].drop_last() =~= Seq::<Bomb>::empty());
    assert(bomb_blasts(Seq::<Bomb>::empty(), ex) == Seq::<Explosion>::empty());
    assert(Seq::<Explosion>::empty().push(blast(b.rect, HEAVY_BLAST_AGE)) =~= seq![blast(b.rect, HEAVY_BLAST_AGE)]);
}

} // verus!

use sub_boom::config::{ADD_SUB_FREQUENCY, FPS, MISSILE_PERIOD, WATER_LEVEL};
use sub_boom::cull::cull;
use sub_boom::entities::{Bomb, Bubble, Destroyer, Explosion, Heading, Missile, Submarine};
use sub_boom::geometry::Rect;
use sub_boom::render::{frame_delay, Color, DrawCommand};
use sub_boom::world::{Command, TickOutcome, World};

fn empty_world() -> World {
    let mut w = World::new();
    w.add_sub_counter = 0;
    w
}

#[test]
fn destroyer_clamps_at_left_bound() {
    let mut d = Destroyer { rect: Rect::new(100, 50, 100, 20) };
    for _ in 0..50 {
        d.move_left();
        assert!(d.rect.right() >= 100);
    }
    assert_eq!(d.rect.right(), 100);
    d.move_left();
    assert_eq!(d.rect.right(), 100);
    assert_eq!(d.rect, Rect::new(0, 50, 100, 20));
}

#[test]
fn destroyer_moves_left_through_ticks() {
    let mut w = empty_world();
    w.destroyer = Destroyer { rect: Rect::new(100, 50, 100, 20) };
    let cmds = vec![Command::MoveLeft];
    for _ in 0..50 {
        assert_eq!(w.tick(&cmds), TickOutcome::Continue);
        assert!(w.destroyer.rect.right() >= 100);
    }
    assert_eq!(w.destroyer.rect.right(), 100);
}

#[test]
fn destroyer_clamps_at_right_bound() {
    let mut d = Destroyer { rect: Rect::new(699, 50, 100, 20) };
    d.move_right();
    assert_eq!(d.rect.right(), 800);
    d.move_right();
    assert_eq!(d.rect.right(), 800);
    assert_eq!(d.rect.x, 700);
}

#[test]
fn submarine_turns_at_right_edge() {
    let mut s = Submarine {
        rect: Rect::new(725, 500, 50, 20),
        heading: Heading::Right,
        missile_countdown: MISSILE_PERIOD,
        destroyed: false,
    };
    for t in 1..25 {
        s.advance();
        assert_eq!(s.rect.right(), 775 + t);
        assert_eq!(s.heading, Heading::Right);
    }
    s.advance();
    assert_eq!(s.rect.right(), 800);
    assert_eq!(s.heading, Heading::Left);
    s.advance();
    assert_eq!(s.rect.right(), 799);
    assert_eq!(s.heading, Heading::Left);
}

#[test]
fn submarine_turns_at_left_edge() {
    let mut s = Submarine::at(1, 200);
    assert_eq!(s.heading, Heading::Left);
    s.advance();
    assert_eq!(s.rect.right(), 50);
    assert_eq!(s.heading, Heading::Right);
    s.advance();
    assert_eq!(s.rect.right(), 51);
    assert_eq!(s.heading, Heading::Right);
}

#[test]
fn submarine_fires_when_countdown_ends() {
    let mut s = Submarine::at(300, 200);
    for _ in 1..MISSILE_PERIOD {
        assert!(!s.advance());
    }
    assert!(s.advance());
    assert_eq!(s.missile_countdown, MISSILE_PERIOD);
    let m = s.fire();
    assert_eq!(m.rect, Rect::new(s.rect.x, s.rect.y, 6, 12));
    assert!(!m.destroyed);
}

#[test]
fn random_submarines_stay_in_the_sea() {
    let mut seen = Vec::new();
    for _ in 0..200 {
        let s = Submarine::new();
        assert!(0 <= s.rect.x && s.rect.x <= 750);
        assert!(90 <= s.rect.y && s.rect.y <= 580);
        assert_eq!(s.heading, Heading::Left);
        assert_eq!(s.missile_countdown, 10 * FPS);
        seen.push((s.rect.x, s.rect.y));
    }
    assert!(seen.iter().any(|p| *p != seen[0]));
}

#[test]
fn first_tick_spawns_a_submarine() {
    let mut w = World::new();
    assert_eq!(w.add_sub_counter, ADD_SUB_FREQUENCY);
    assert_eq!(w.tick(&vec![]), TickOutcome::Continue);
    assert_eq!(w.submarines.len(), 1);
    assert_eq!(w.add_sub_counter, 0);
    for _ in 1..ADD_SUB_FREQUENCY {
        w.spawn_submarine();
    }
    assert_eq!(w.submarines.len(), 1);
    w.spawn_submarine();
    assert_eq!(w.submarines.len(), 2);
    assert_eq!(w.add_sub_counter, 0);
}

#[test]
fn missile_rises_and_blows_up_at_the_surface() {
    let mut w = empty_world();
    w.missiles.push(Missile::new(Rect::new(100, 76, 6, 12)));
    w.update_missiles(0);
    assert_eq!(w.missiles[0].rect.y, 74);
    assert_eq!(w.explosions.len(), 0);
    w.cull_all();
    assert_eq!(w.missiles.len(), 1);
    w.update_missiles(0);
    assert_eq!(w.missiles[0].rect.y, 72);
    w.cull_all();
    w.update_missiles(0);
    assert_eq!(w.missiles[0].rect.y, WATER_LEVEL);
    assert_eq!(w.explosions.len(), 1);
    assert_eq!(w.explosions[0], Explosion::new(Rect::new(100, WATER_LEVEL, 6, 12), FPS));
    w.cull_all();
    assert_eq!(w.missiles.len(), 0);
}

#[test]
fn missile_caught_by_explosion() {
    let mut w = empty_world();
    let m = Rect::new(100, 300, 6, 12);
    w.missiles.push(Missile::new(m));
    w.explosions.push(Explosion::new(Rect::new(95, 295, 20, 10), 30));
    w.update_missiles(1);
    assert!(w.missiles[0].destroyed);
    assert_eq!(w.missiles[0].rect, m);
    assert_eq!(w.explosions.len(), 2);
    assert_eq!(w.explosions[1], Explosion::new(m, 30));
    assert_eq!(w.bubbles.len(), 25);
    for b in w.bubbles.iter() {
        assert!(100 <= b.rect.x && b.rect.x < 106);
        assert!(300 <= b.rect.y && b.rect.y < 312);
    }
    w.cull_all();
    assert_eq!(w.missiles.len(), 0);
    let cmds = w.draw_list();
    let black = Color { r: 0, g: 0, b: 0 };
    assert!(cmds.iter().all(|c| c.rect != m || c.color != black));
    assert!(cmds.iter().any(|c| c.rect == m && c.color == Color { r: 255, g: 102, b: 0 }));
}

#[test]
fn missile_caught_during_tick_is_not_drawn() {
    let mut w = empty_world();
    let m = Rect::new(400, 300, 6, 12);
    w.missiles.push(Missile::new(m));
    w.explosions.push(Explosion::new(Rect::new(398, 305, 10, 10), 30));
    assert_eq!(w.tick(&vec![]), TickOutcome::Continue);
    assert!(w.missiles.is_empty());
    assert!(w.explosions.iter().any(|e| e.rect == Rect::new(399, 299, 8, 14)));
    let black = Color { r: 0, g: 0, b: 0 };
    let cmds = w.draw_list();
    assert_eq!(cmds.iter().filter(|c| c.color == black).count(), 1);
}

#[test]
fn explosion_grows_then_expires() {
    let mut w = empty_world();
    w.explosions.push(Explosion::new(Rect::new(100, 100, 50, 20), 60));
    for _ in 0..60 {
        w.update_explosions();
        w.cull_all();
        assert_eq!(w.explosions.len(), 1);
    }
    assert_eq!(w.explosions[0].rect, Rect::new(40, 40, 170, 140));
    assert_eq!(w.explosions[0].age, 60);
    w.update_explosions();
    w.cull_all();
    assert_eq!(w.explosions.len(), 0);
}

#[test]
fn bomb_expires_into_one_explosion() {
    let mut w = empty_world();
    let mut b = Bomb::new(Rect::new(200, 120, 10, 10), 150);
    b.age = 150;
    w.bombs.push(b);
    w.explosions.push(Explosion::new(Rect::new(195, 115, 20, 20), 30));
    w.update_bombs(1);
    assert_eq!(w.explosions.len(), 2);
    assert_eq!(w.explosions[1], Explosion::new(Rect::new(200, 120, 10, 10), 60));
    w.cull_all();
    assert!(w.bombs.is_empty());
}

#[test]
fn bomb_sinks_and_is_caught() {
    let mut w = empty_world();
    w.bombs.push(Bomb::new(Rect::new(200, 120, 10, 10), 150));
    w.update_bombs(0);
    assert_eq!(w.bombs[0].rect.y, 121);
    assert_eq!(w.bombs[0].age, 1);
    assert_eq!(w.bubbles.len(), 1);
    assert_eq!(w.bubbles[0].rect, Rect::new(205, 120, 1, 1));
    w.explosions.push(Explosion::new(Rect::new(210, 121, 5, 5), 30));
    w.update_bombs(1);
    assert!(!w.bombs[0].destroyed);
    w.explosions.push(Explosion::new(Rect::new(209, 121, 5, 5), 30));
    w.update_bombs(2);
    assert!(w.bombs[0].destroyed);
    assert_eq!(w.explosions.len(), 3);
    assert_eq!(w.explosions[2], Explosion::new(Rect::new(200, 122, 10, 10), 60));
}

#[test]
fn drop_bomb_command() {
    let mut w = empty_world();
    let taken = w.apply_commands(&vec![Command::DropBomb, Command::MoveRight, Command::DropBomb]);
    assert_eq!(taken, 3);
    assert_eq!(w.bombs.len(), 2);
    assert_eq!(w.bombs[0], Bomb::new(Rect::new(50, 70, 10, 10), 150));
    assert_eq!(w.bombs[1], Bomb::new(Rect::new(52, 70, 10, 10), 150));
    assert_eq!(w.bubbles.len(), 100);
    for b in w.bubbles.iter() {
        assert!(47 <= b.rect.x && b.rect.x <= 52);
        assert!(71 <= b.rect.y && b.rect.y <= 80);
    }
}

#[test]
fn quit_stops_the_commands() {
    let mut w = empty_world();
    let cmds = vec![Command::MoveRight, Command::Quit, Command::MoveRight];
    assert_eq!(w.apply_commands(&cmds), 1);
    assert_eq!(w.destroyer.rect.right(), 152);
    let mut w2 = empty_world();
    assert_eq!(w2.tick(&cmds), TickOutcome::Quit);
    assert!(!w2.step(&vec![Command::Quit]));
}

#[test]
fn explosion_on_destroyer_ends_round() {
    let mut w = empty_world();
    w.explosions.push(Explosion::new(Rect::new(60, 60, 10, 10), 30));
    w.bombs.push(Bomb::new(Rect::new(300, 100, 10, 10), 150));
    assert!(w.destroyer_hit());
    assert_eq!(w.tick(&vec![]), TickOutcome::RoundOver);
    assert!(w.step(&vec![]));
    assert!(w.bombs.is_empty() && w.explosions.is_empty());
    assert_eq!(w.destroyer.rect, Rect::new(50, 50, 100, 20));
}

#[test]
fn touching_rectangles_do_not_intersect() {
    let a = Rect::new(0, 0, 10, 10);
    assert!(!a.has_intersection(&Rect::new(10, 0, 10, 10)));
    assert!(!a.has_intersection(&Rect::new(0, 10, 10, 10)));
    assert!(a.has_intersection(&Rect::new(9, 9, 10, 10)));
    assert!(!a.has_intersection(&Rect::new(5, 5, 0, 10)));
}

#[test]
fn cull_twice_equals_cull_once() {
    let mut bubbles = vec![
        Bubble { rect: Rect::new(10, 100, 1, 1), age: 5, max_age: 20 },
        Bubble { rect: Rect::new(10, 70, 1, 1), age: 5, max_age: 20 },
        Bubble { rect: Rect::new(10, 100, 1, 1), age: 21, max_age: 20 },
        Bubble { rect: Rect::new(11, 90, 1, 1), age: 20, max_age: 20 },
    ];
    cull(&mut bubbles);
    let once = bubbles.clone();
    assert_eq!(once.len(), 2);
    assert_eq!(once[1].rect, Rect::new(11, 90, 1, 1));
    cull(&mut bubbles);
    assert_eq!(bubbles, once);
}

#[test]
fn bubbles_drift_up_or_stay() {
    let mut w = empty_world();
    w.bubbles.push(Bubble::at(100, 200, 30));
    for k in 1..=30 {
        let before = w.bubbles[0];
        w.update_bubbles();
        let b = w.bubbles[0];
        assert_eq!(b.age, k);
        assert!((b.rect.x - before.rect.x).abs() <= 1);
        assert!(b.rect.y == before.rect.y || b.rect.y == before.rect.y - 1);
        w.cull_all();
    }
    w.update_bubbles();
    w.cull_all();
    assert!(w.bubbles.is_empty());
}

#[test]
fn draw_list_order() {
    let mut w = empty_world();
    w.submarines.push(Submarine::at(300, 200));
    w.bombs.push(Bomb::new(Rect::new(200, 120, 10, 10), 150));
    w.explosions.push(Explosion::new(Rect::new(400, 400, 10, 10), 30));
    let cmds = w.draw_list();
    assert_eq!(cmds.len(), 6);
    assert_eq!(cmds[0], DrawCommand { rect: Rect::new(0, 0, 800, 600), color: Color { r: 255, g: 255, b: 255 } });
    assert_eq!(cmds[1], DrawCommand { rect: Rect::new(0, 70, 800, 600), color: Color { r: 0, g: 0, b: 255 } });
    assert_eq!(cmds[2].rect, Rect::new(50, 50, 100, 20));
    assert_eq!(cmds[3], DrawCommand { rect: Rect::new(300, 200, 50, 20), color: Color { r: 255, g: 0, b: 0 } });
    assert_eq!(cmds[4].rect, Rect::new(200, 120, 10, 10));
    assert_eq!(cmds[5], DrawCommand { rect: Rect::new(400, 400, 10, 10), color: Color { r: 255, g: 102, b: 0 } });
}

#[test]
fn frame_delay_sleeps_the_rest() {
    assert_eq!(frame_delay(0), Some(33));
    assert_eq!(frame_delay(20), Some(13));
    assert_eq!(frame_delay(32), Some(1));
    assert_eq!(frame_delay(33), None);
    assert_eq!(frame_delay(100), None);
}

#[test]
fn long_game_keeps_running() {
    let mut w = World::new();
    let script = [Command::MoveLeft, Command::DropBomb, Command::MoveRight];
    for t in 0..2000usize {
        let cmds = vec![script[t % 3]];
        assert!(w.step(&cmds));
        assert!(w.destroyer.rect.right() >= 100 && w.destroyer.rect.right() <= 800);
        for s in w.submarines.iter() {
            assert!(s.rect.right() >= 50 && s.rect.right() <= 800);
        }
        for m in w.missiles.iter() {
            assert!(m.rect.y > WATER_LEVEL);
        }
    }
}

#[test]
fn blast_scatters_fresh_bubbles_inside() {
    let mut w = empty_world();
    let r = Rect::new(300, 200, 50, 20);
    w.blow_up(r, 60);
    assert_eq!(w.explosions.len(), 1);
    assert_eq!(w.explosions[0], Explosion::new(r, 60));
    assert_eq!(w.bubbles.len(), 25);
    for b in w.bubbles.iter() {
        assert_eq!(*b, Bubble::at(b.rect.x, b.rect.y, FPS));
        assert_eq!(b.age, 0);
        assert!(300 <= b.rect.x && b.rect.x < 350);
        assert!(200 <= b.rect.y && b.rect.y < 220);
    }
}

#[test]
fn tick_counts_up_to_the_next_submarine() {
    let mut w = World::new();
    w.add_sub_counter = 10;
    assert_eq!(w.tick(&vec![]), TickOutcome::Continue);
    assert_eq!(w.add_sub_counter, 11);
    assert!(w.submarines.is_empty());
    let cmds = vec![Command::MoveRight];
    assert_eq!(w.tick(&cmds), TickOutcome::Continue);
    assert_eq!(w.add_sub_counter, 12);
    assert!(w.bubbles.len() <= 100);
    for b in w.bubbles.iter() {
        assert_eq!(b.age, 1);
        assert_eq!(b.max_age, FPS);
        assert!(b.rect.y > WATER_LEVEL);
    }
}

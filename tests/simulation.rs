use dvd_bounce::{
    axis_limit, effective_size, is_visible, Config, Extent, Sign, Simulation, Sprite, Tint,
    SUBPIXELS,
};

const VIEW: Extent = Extent { width: 1000, height: 800 };
const ICON: Extent = Extent { width: 100, height: 100 };

fn px(p: i64) -> i64 {
    p * SUBPIXELS
}

fn sprite_at(x: i64, y: i64, dir_x: Sign, dir_y: Sign) -> Sprite {
    Sprite { x: px(x), y: px(y), dir_x, dir_y, tint: Tint { r: 1, g: 2, b: 3 } }
}

fn pool_of(sprites: Vec<Sprite>) -> Simulation {
    Simulation { sprites }
}

fn band_ok(s: &Sprite, view: Extent, size: Extent, speed: u32) -> bool {
    let lx = axis_limit(view.width, size.width);
    let ly = axis_limit(view.height, size.height);
    let reach = speed as i64 * 16;
    -reach <= s.x && s.x <= lx + reach && -reach <= s.y && s.y <= ly + reach
}

#[test]
fn right_wall_bounce_scenario() {
    let mut sim = pool_of(vec![sprite_at(950, 0, Sign::Pos, Sign::Pos)]);
    sim.advance(16, VIEW, ICON, 10);
    let s = sim.sprites[0];
    assert_eq!(s.dir_x, Sign::Neg);
    assert_eq!(s.dir_y, Sign::Pos);
    assert_eq!(s.x, px(940));
    assert_eq!(s.y, px(10));
}

#[test]
fn right_wall_bounce_reports_collision() {
    let mut s = sprite_at(950, 0, Sign::Pos, Sign::Pos);
    let lx = axis_limit(VIEW.width, ICON.width);
    let ly = axis_limit(VIEW.height, ICON.height);
    assert!(s.substep(lx, ly, 10 * 16));
    assert_eq!((s.x, s.y), (px(940), px(10)));
}

#[test]
fn collide_turns_each_axis_inward() {
    let mut s = sprite_at(-3, 801, Sign::Neg, Sign::Pos);
    assert!(s.collide(px(900), px(700)));
    assert_eq!((s.dir_x, s.dir_y), (Sign::Pos, Sign::Neg));
    assert_eq!((s.x, s.y), (px(-3), px(801)));
    let mut inside = sprite_at(5, 5, Sign::Neg, Sign::Neg);
    assert!(!inside.collide(px(900), px(700)));
    assert_eq!((inside.dir_x, inside.dir_y), (Sign::Neg, Sign::Neg));
}

#[test]
fn step_moves_along_direction() {
    let mut s = sprite_at(100, 100, Sign::Neg, Sign::Pos);
    s.step(48);
    assert_eq!((s.x, s.y), (px(100) - 48, px(100) + 48));
}

#[test]
fn grow_from_empty_places_inside() {
    let mut sim = Simulation::new();
    sim.reconcile(3, VIEW, ICON);
    assert_eq!(sim.sprites.len(), 3);
    for s in &sim.sprites {
        assert!(0 <= s.x && s.x < px(900));
        assert!(0 <= s.y && s.y < px(700));
    }
}

#[test]
fn shrink_keeps_first_sprites() {
    let mut sim = Simulation::new();
    sim.reconcile(5, VIEW, ICON);
    let before = sim.sprites.clone();
    sim.reconcile(2, VIEW, ICON);
    assert_eq!(sim.sprites.len(), 2);
    assert_eq!(sim.sprites[0], before[0]);
    assert_eq!(sim.sprites[1], before[1]);
}

#[test]
fn reconcile_twice_changes_nothing() {
    let mut sim = Simulation::new();
    sim.reconcile(4, VIEW, ICON);
    let once = sim.sprites.clone();
    sim.reconcile(4, VIEW, ICON);
    assert_eq!(sim.sprites, once);
    sim.reconcile(0, VIEW, ICON);
    assert!(sim.sprites.is_empty());
}

#[test]
fn grow_keeps_existing_sprites() {
    let first = sprite_at(10, 20, Sign::Pos, Sign::Neg);
    let mut sim = pool_of(vec![first]);
    sim.reconcile(3, VIEW, ICON);
    assert_eq!(sim.sprites.len(), 3);
    assert_eq!(sim.sprites[0], first);
}

#[test]
fn oversized_sprite_is_placed_at_origin() {
    let mut sim = Simulation::new();
    sim.reconcile(2, Extent { width: 50, height: 0 }, ICON);
    for s in &sim.sprites {
        assert_eq!((s.x, s.y), (0, 0));
    }
    sim.advance(1000, Extent { width: 50, height: 0 }, ICON, 7);
    for s in &sim.sprites {
        assert!(band_ok(s, Extent { width: 50, height: 0 }, ICON, 7));
    }
}

#[test]
fn free_frames_move_linearly() {
    let mut sim = pool_of(vec![sprite_at(200, 300, Sign::Pos, Sign::Neg)]);
    let tint = sim.sprites[0].tint;
    for k in 1..=5 {
        sim.advance(16, VIEW, ICON, 10);
        let s = sim.sprites[0];
        assert_eq!((s.x, s.y), (px(200 + 10 * k), px(300 - 10 * k)));
        assert_eq!((s.dir_x, s.dir_y), (Sign::Pos, Sign::Neg));
        assert_eq!(s.tint, tint);
    }
}

#[test]
fn stall_replays_as_sub_steps() {
    let start = vec![
        sprite_at(895, 2, Sign::Pos, Sign::Neg),
        sprite_at(450, 350, Sign::Neg, Sign::Pos),
        sprite_at(-5, 702, Sign::Neg, Sign::Pos),
    ];
    let mut at_once = pool_of(start.clone());
    at_once.advance(50, VIEW, ICON, 3);
    let mut stepped = pool_of(start);
    stepped.advance(16, VIEW, ICON, 3);
    stepped.advance(16, VIEW, ICON, 3);
    stepped.advance(16, VIEW, ICON, 3);
    stepped.advance(2, VIEW, ICON, 3);
    for (a, b) in at_once.sprites.iter().zip(stepped.sprites.iter()) {
        assert_eq!((a.x, a.y, a.dir_x, a.dir_y), (b.x, b.y, b.dir_x, b.dir_y));
    }
}

#[test]
fn remainder_moves_partial_frame() {
    let mut sim = pool_of(vec![sprite_at(100, 100, Sign::Pos, Sign::Pos)]);
    sim.advance(50, VIEW, ICON, 4);
    let s = sim.sprites[0];
    assert_eq!((s.x, s.y), (px(100) + 4 * 50, px(100) + 4 * 50));
}

#[test]
fn zero_elapsed_changes_nothing() {
    let start = vec![sprite_at(950, -20, Sign::Pos, Sign::Neg)];
    let mut sim = pool_of(start.clone());
    sim.advance(0, VIEW, ICON, 10);
    assert_eq!(sim.sprites, start);
}

#[test]
fn sprites_stay_within_one_frame_of_the_box() {
    let mut sim = Simulation::new();
    sim.reconcile(8, VIEW, ICON);
    for t in 0..300u64 {
        sim.advance(t % 70, VIEW, ICON, 25);
        for s in &sim.sprites {
            assert!(band_ok(s, VIEW, ICON, 25));
        }
    }
}

#[test]
fn directions_are_unit_diagonals() {
    let mut sim = Simulation::new();
    sim.reconcile(20, VIEW, ICON);
    for _ in 0..50 {
        sim.advance(40, VIEW, ICON, 30);
    }
    for s in &sim.sprites {
        assert!(matches!(s.dir_x, Sign::Neg | Sign::Pos));
        assert!(matches!(s.dir_y, Sign::Neg | Sign::Pos));
    }
}

#[test]
fn axis_limit_values() {
    assert_eq!(axis_limit(1000, 100), 900 * 16);
    assert_eq!(axis_limit(100, 100), 0);
    assert_eq!(axis_limit(10, 100), 0);
    assert_eq!(axis_limit(u32::MAX, 0), u32::MAX as i64 * 16);
}

#[test]
fn background_shrinks_to_a_fifth() {
    let cfg = Config { sprite_count: 1, speed: 5, visible_in_background: true, shrink_in_background: true };
    assert_eq!(effective_size(ICON, &cfg, true), Extent { width: 20, height: 20 });
    assert_eq!(effective_size(Extent { width: 64, height: 33 }, &cfg, true), Extent { width: 12, height: 6 });
    assert_eq!(effective_size(ICON, &cfg, false), ICON);
    let plain = Config { shrink_in_background: false, ..cfg };
    assert_eq!(effective_size(ICON, &plain, true), ICON);
}

#[test]
fn visibility_follows_background_flag() {
    let hidden = Config { sprite_count: 1, speed: 5, visible_in_background: false, shrink_in_background: false };
    assert!(is_visible(&hidden, false));
    assert!(!is_visible(&hidden, true));
    let shown = Config { visible_in_background: true, ..hidden };
    assert!(is_visible(&shown, true));
}

#[test]
fn tick_hidden_leaves_pool() {
    let cfg = Config { sprite_count: 3, speed: 5, visible_in_background: false, shrink_in_background: false };
    let mut sim = pool_of(vec![sprite_at(1, 1, Sign::Pos, Sign::Pos)]);
    assert!(!sim.tick(&cfg, VIEW, true, ICON, 100));
    assert_eq!(sim.sprites, vec![sprite_at(1, 1, Sign::Pos, Sign::Pos)]);
}

#[test]
fn tick_reconciles_then_advances() {
    let cfg = Config { sprite_count: 2, speed: 5, visible_in_background: true, shrink_in_background: true };
    let mut sim = pool_of(vec![sprite_at(100, 100, Sign::Pos, Sign::Pos)]);
    assert!(sim.tick(&cfg, VIEW, true, ICON, 32));
    assert_eq!(sim.sprites.len(), 2);
    assert_eq!((sim.sprites[0].x, sim.sprites[0].y), (px(110), px(110)));
    let small = Extent { width: 20, height: 20 };
    assert!(band_ok(&sim.sprites[1], VIEW, small, 5));
}

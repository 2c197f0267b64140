use panda_date::game::Game;
use panda_date::heading::{Direction, Heading, UNIT};
use panda_date::mover::{ActiveMover, LoveMover, NormalMover, ThrownMover, THROWING_SPEED};
use panda_date::panda_factory::{Motion, Panda, PandaFactory, PandaState};
use panda_date::player::{Keys, PlayerState};
use panda_date::stork_factory::{StorkFactory, StorkState};
use panda_date::tuning::Tuning;
use panda_date::units::{Displacement, FinePoint, Frame, Point, Velocity};

fn panda_at(x: i32, y: i32) -> Panda {
    PandaFactory::assemble(Point { x, y }, Velocity { x: 30_000, y: 10_000 }, 0)
}

fn session() -> Game {
    Game::new(Tuning::standard(), Point { x: 32, y: 150 }, 0)
}

fn no_keys() -> Keys {
    Keys { right: false, left: false, up: false, down: false }
}

#[test]
fn new_session_is_empty() {
    let g = session();
    assert_eq!(g.tuning, Tuning::standard());
    assert_eq!(g.player.pos, Point { x: 32, y: 150 });
    assert_eq!(g.player.state, PlayerState::Normal);
    assert!(g.pandas.is_empty());
    assert!(g.storks.is_empty());
    assert_eq!(g.bamboo.stock, 100_000_000_000);
    assert_eq!(g.bamboo.last_refill, 0);
    assert_eq!(g.score, 0);
    assert_eq!(g.heart.counter, None);
}

#[test]
fn spawned_pandas_join_the_collection() {
    let mut g = session();
    assert_eq!(g.spawn_panda(5), 0);
    assert_eq!(g.spawn_panda(6), 1);
    assert_eq!(g.pandas.len(), 2);
    assert_eq!(g.pandas[0].spawn_time, 5);
    assert_eq!(g.pandas[1].spawn_time, 6);
    for p in &g.pandas {
        assert_eq!(p.state, PandaState::Normal);
        assert!(0 <= p.speed.x && p.speed.x < 50_000 && 0 <= p.speed.y && p.speed.y < 50_000);
        assert_eq!(*p, PandaFactory::assemble(p.pos, p.speed, p.spawn_time));
    }
}

#[test]
fn steering_moves_the_player_only() {
    let mut g = session();
    g.pandas.push(panda_at(0, 0));
    let stride = g.steer(
        Keys { right: false, left: false, up: false, down: true },
        Frame { now: 16_000, dt: 16_000 },
    );
    assert_eq!(stride, Some(Displacement { dx: 0, dy: 1_600_000_000 }));
    assert_eq!(g.player.dir, Direction { x: 0, y: 1 });
    assert_eq!(g.player.pos, Point { x: 32, y: 150 });
    g.player_arrived(Point { x: 32, y: 152 });
    assert_eq!(g.player.pos, Point { x: 32, y: 152 });
    assert_eq!(g.pandas[0], panda_at(0, 0));
    assert_eq!(g.steer(no_keys(), Frame { now: 32_000, dt: 16_000 }), None);
}

#[test]
fn grab_puts_the_panda_in_the_hand_within_the_frame() {
    let mut g = session();
    g.pandas.push(panda_at(40, 160));
    g.pandas.push(panda_at(300, 160));
    let frame = Frame { now: 16_000, dt: 16_000 };
    g.steer(no_keys(), frame);
    let moves = g.advance_pandas(true, frame);
    assert_eq!(moves.thrown, vec![]);
    assert_eq!(
        moves.motions,
        vec![
            Motion::Sweep(Displacement { dx: 480_000_000, dy: 160_000_000 }),
            Motion::Sweep(Displacement { dx: 480_000_000, dy: 160_000_000 }),
        ]
    );
    g.pandas_arrived(&vec![Point { x: 40, y: 160 }, Point { x: 300, y: 160 }]);
    let report = g.resolve(true, frame, 480);
    assert_eq!(report.grabs, vec![0]);
    assert_eq!(report.pairs, vec![]);
    assert_eq!(g.player.state, PlayerState::Grabbing);
    assert_eq!(g.pandas[0].state, PandaState::Grabbed);
    assert_eq!(g.pandas[0].pos, Point { x: 32, y: 145 });
    assert_eq!(g.pandas[1].state, PandaState::Normal);
    assert_eq!(g.pandas[1].pos, Point { x: 300, y: 160 });
}

#[test]
fn held_panda_follows_the_player_and_is_thrown_on_the_next_press() {
    let mut g = session();
    g.pandas.push(panda_at(40, 160));
    let frame = Frame { now: 16_000, dt: 16_000 };
    g.advance_pandas(true, frame);
    g.resolve(true, frame, 480);
    assert_eq!(g.pandas[0].state, PandaState::Grabbed);

    let frame = Frame { now: 32_000, dt: 16_000 };
    g.steer(Keys { right: true, left: false, up: false, down: false }, frame);
    g.player_arrived(Point { x: 34, y: 150 });
    let moves = g.advance_pandas(false, frame);
    assert_eq!(moves.motions, vec![Motion::Place(Point { x: 34, y: 145 })]);
    assert_eq!(moves.thrown, vec![]);
    g.pandas_arrived(&vec![Point { x: 999, y: 999 }]);
    assert_eq!(g.pandas[0].pos, Point { x: 34, y: 145 });
    g.resolve(false, frame, 480);
    assert_eq!(g.player.state, PlayerState::Grabbing);
    assert_eq!(g.pandas[0].state, PandaState::Grabbed);
    assert_eq!(g.pandas[0].pos, Point { x: 34, y: 145 });

    let frame = Frame { now: 48_000, dt: 16_000 };
    let moves = g.advance_pandas(true, frame);
    assert_eq!(moves.motions, vec![Motion::Rest]);
    assert_eq!(moves.thrown, vec![0]);
    assert_eq!(g.player.state, PlayerState::Throwing);
    assert_eq!(g.pandas[0].state, PandaState::Thrown);
    assert_eq!(
        g.pandas[0].mover,
        ActiveMover::Thrown(ThrownMover {
            thrown_direction: Heading { x: UNIT, y: 0 },
            throwing_speed: THROWING_SPEED,
            init_time: 48_000,
        })
    );
    let report = g.resolve(true, frame, 480);
    assert_eq!(report.grabs, vec![]);
    assert_eq!(g.pandas[0].state, PandaState::Thrown);

    let frame = Frame { now: 64_000, dt: 16_000 };
    let moves = g.advance_pandas(false, frame);
    assert_eq!(moves.motions, vec![Motion::Sweep(Displacement { dx: 8_000_000_000, dy: 0 })]);
}

#[test]
fn all_held_pandas_are_thrown_together() {
    let mut g = session();
    g.pandas.push(panda_at(40, 160));
    g.pandas.push(panda_at(200, 10));
    g.pandas.push(panda_at(30, 140));
    let frame = Frame { now: 16_000, dt: 16_000 };
    let report = g.resolve(true, frame, 480);
    assert_eq!(report.grabs, vec![0, 2]);
    let moves = g.advance_pandas(true, Frame { now: 32_000, dt: 16_000 });
    assert_eq!(moves.thrown, vec![0, 2]);
    assert_eq!(g.player.state, PlayerState::Throwing);
    assert_eq!(g.pandas[1].state, PandaState::Normal);
}

#[test]
fn two_nearby_pandas_pair_in_one_frame() {
    let mut g = session();
    g.pandas.push(panda_at(300, 100));
    g.pandas.push(panda_at(320, 110));
    let frame = Frame { now: 16_000, dt: 16_000 };
    let report = g.resolve(false, frame, 480);
    assert_eq!(report.pairs, vec![(0, 1)]);
    assert_eq!(report.grabs, vec![]);
    assert!(report.heartbeat);
    assert!(!report.starved);
    assert!(!report.collapsed);
    for p in &g.pandas {
        assert_eq!(p.state, PandaState::FoundLove);
        assert_eq!(p.mover, ActiveMover::Love(LoveMover { init_time: 16_000, complete: false }));
    }
    assert_eq!(g.storks.len(), 1);
    assert_eq!(g.storks[0].dest, Point { x: 300, y: 100 });
    assert_eq!(g.storks[0].state, StorkState::Loaded);
    assert_eq!(g.storks[0].pos, FinePoint { x: 544_000_000_000, y: 100_000_000_000 });
    assert_eq!(g.storks[0].frame_countdown, 16_000);
    assert_eq!(g.score, 50);
    assert_eq!(g.heart.counter, Some(1));
    assert_eq!(g.bamboo.stock, 100_000_000_000);
}

#[test]
fn pandas_in_love_do_not_pair_again_before_the_cooldown_is_over() {
    let mut g = session();
    g.pandas.push(panda_at(300, 100));
    g.pandas.push(panda_at(320, 110));
    g.resolve(false, Frame { now: 0, dt: 16_000 }, 480);
    assert_eq!(g.score, 50);
    let frame = Frame { now: 3_000_001, dt: 16_000 };
    g.advance_pandas(false, frame);
    assert_eq!(g.heart.counter, None);
    for p in &g.pandas {
        assert_eq!(p.state, PandaState::Normal);
        assert_eq!(p.loving_cooldown, 5_000_000);
        assert_eq!(p.mover, ActiveMover::Normal(NormalMover { time_since_last_move: 3_000_001 }));
    }
    let report = g.resolve(false, frame, 480);
    assert_eq!(report.pairs, vec![]);
    assert!(!report.heartbeat);
    assert_eq!(g.score, 50);
    let frame = Frame { now: 8_000_001, dt: 5_000_000 };
    g.advance_pandas(false, frame);
    let report = g.resolve(false, frame, 480);
    assert_eq!(report.pairs, vec![(0, 1)]);
    assert_eq!(g.score, 100);
    assert_eq!(g.storks.len(), 2);
}

#[test]
fn stork_delivers_a_new_panda() {
    let mut g = session();
    g.storks.push(StorkFactory::create_stork(Point { x: 100, y: 70 }, 480));
    g.storks.push(StorkFactory::create_stork(Point { x: 300, y: 70 }, 480));
    g.pandas.push(panda_at(1, 1));
    assert_eq!(g.advance_storks(Frame { now: 1_000_000, dt: 1_000_000 }), vec![]);
    assert_eq!(g.pandas.len(), 1);
    assert_eq!(g.storks[0].pos.x, 0);
    assert_eq!(g.storks[1].pos.x, 480_000_000_000);
    let delivered = g.advance_storks(Frame { now: 2_400_000, dt: 1_400_000 });
    assert_eq!(delivered, vec![0]);
    assert_eq!(g.storks[0].state, StorkState::Unloaded);
    assert_eq!(g.storks[0].pos.x, 89_600_000_000);
    assert_eq!(g.storks[1].state, StorkState::Loaded);
    assert_eq!(g.pandas.len(), 2);
    assert_eq!(g.pandas[0], panda_at(1, 1));
    let born = g.pandas[1];
    assert_eq!(born.pos, Point { x: 89, y: 70 });
    assert_eq!(born.spawn_time, 2_400_000);
    assert_eq!(born, PandaFactory::assemble(born.pos, born.speed, 2_400_000));
    assert!(0 <= born.speed.x && born.speed.x < 50_000);
    assert_eq!(g.advance_storks(Frame { now: 2_500_000, dt: 100_000 }), vec![]);
    assert_eq!(g.pandas.len(), 2);
}

#[test]
fn wandering_pandas_eat_the_bamboo() {
    let mut g = session();
    g.pandas.push(panda_at(0, 0));
    g.pandas.push(panda_at(400, 0));
    let mut dead = panda_at(200, 200);
    dead.state = PandaState::Dead;
    g.pandas.push(dead);
    let report = g.resolve(false, Frame { now: 1_000_000, dt: 1_000_000 }, 480);
    assert_eq!(g.bamboo.stock, 99_500_000_000);
    assert!(!report.starved);
    assert!(!report.collapsed);
    let report = g.resolve(false, Frame { now: 2_000_000, dt: u32::MAX }, 480);
    assert_eq!(g.bamboo.stock, 0);
    assert!(report.starved);
}

#[test]
fn pandas_that_just_paired_do_not_eat() {
    let mut g = session();
    g.pandas.push(panda_at(0, 0));
    g.pandas.push(panda_at(10, 0));
    g.pandas.push(panda_at(400, 0));
    g.resolve(false, Frame { now: 1_000_000, dt: 1_000_000 }, 480);
    assert_eq!(g.bamboo.stock, 99_750_000_000);
}

#[test]
fn population_collapse_is_reported() {
    let mut g = session();
    let report = g.resolve(false, Frame { now: 1, dt: 1 }, 480);
    assert!(report.collapsed);
    g.pandas.push(panda_at(0, 0));
    g.pandas.push(panda_at(400, 0));
    assert!(!g.resolve(false, Frame { now: 2, dt: 1 }, 480).collapsed);
    let t = Tuning::standard();
    let frame = Frame { now: t.independence_lifetime + 1, dt: 16_000 };
    g.pandas.push(PandaFactory::assemble(Point { x: 200, y: 200 }, Velocity { x: 0, y: 0 }, frame.now));
    let moves = g.advance_pandas(false, frame);
    assert_eq!(
        moves.motions,
        vec![Motion::Rest, Motion::Rest, Motion::Sweep(Displacement { dx: 0, dy: 0 })]
    );
    assert_eq!(g.pandas[0].state, PandaState::Dead);
    assert_eq!(g.pandas[1].state, PandaState::Dead);
    assert_eq!(g.pandas[2].state, PandaState::Normal);
    assert_eq!(g.pandas.len(), 3);
    assert!(g.resolve(false, frame, 480).collapsed);
}

#[test]
fn animations_run_in_the_last_phase() {
    let mut g = session();
    g.pandas.push(panda_at(0, 0));
    g.pandas.push(panda_at(400, 0));
    g.storks.push(StorkFactory::create_stork(Point { x: 100, y: 70 }, 480));
    g.resolve(false, Frame { now: 60_000, dt: 60_000 }, 480);
    assert_eq!(g.pandas[0].walk_anim_index, 1);
    assert_eq!(g.pandas[0].frame_countdown, 100_000);
    assert_eq!(g.player.walk_anim_index, 1);
    assert_eq!(g.player.frame_countdown, 250_000);
    assert_eq!(g.storks[0].anim_index, 0);
    assert_eq!(g.storks[0].frame_countdown, 60_000);
}

#[test]
fn reports_of_places_reach_the_free_pandas() {
    let mut g = session();
    g.pandas.push(panda_at(0, 0));
    g.pandas.push(panda_at(400, 0));
    g.pandas.push(panda_at(9, 9));
    g.pandas[1].state = PandaState::Grabbed;
    g.pandas_arrived(&vec![Point { x: 1, y: 2 }, Point { x: 3, y: 4 }]);
    assert_eq!(g.pandas[0].pos, Point { x: 1, y: 2 });
    assert_eq!(g.pandas[1].pos, Point { x: 400, y: 0 });
    assert_eq!(g.pandas[2].pos, Point { x: 9, y: 9 });
    g.pandas_arrived(&vec![
        Point { x: 5, y: 5 },
        Point { x: 5, y: 5 },
        Point { x: 6, y: 6 },
        Point { x: 7, y: 7 },
    ]);
    assert_eq!(g.pandas[2].pos, Point { x: 6, y: 6 });
    assert_eq!(g.pandas.len(), 3);
}

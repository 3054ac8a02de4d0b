use pong::ball::{reset_ball, Ball, Position};
use pong::detect::{detect_goals, detect_reset, detect_reset_drawn, find_goal, GoalSensor};
use pong::events::{EventQueue, GameEvents};
use pong::input::{Input, Key};
use pong::player::{Player, Velocity, SERVE_SPEED};
use pong::score::{score_run, Score, ScoreDisplay};

const RIGHT: u64 = 17;
const LEFT: u64 = 23;
const WALL: u64 = 5;

fn goals() -> Vec<GoalSensor> {
    vec![
        GoalSensor { entity: RIGHT, player: Player::Player1 },
        GoalSensor { entity: LEFT, player: Player::Player2 },
    ]
}

fn ball_touching(touching: Vec<u64>) -> Ball {
    let mut ball = Ball::new(Position { x: 123, y: -45 }, Velocity::linear(-70, 30));
    ball.touching = touching;
    ball
}

fn displays() -> Vec<ScoreDisplay> {
    vec![
        ScoreDisplay { owner: Player::Player1, value: 0 },
        ScoreDisplay { owner: Player::Player2, value: 0 },
    ]
}

fn reset_key() -> Input {
    Input::new(vec![Key::KeyR], vec![Key::KeyR])
}

#[test]
fn start_speed_of_each_player() {
    assert_eq!(Player::Player1.start_speed(), Velocity { x: 100, y: 0 });
    assert_eq!(Player::Player2.start_speed(), Velocity { x: -100, y: 0 });
    assert_eq!(Player::Player1.start_speed().x, SERVE_SPEED);
}

#[test]
fn draw_selects_a_player() {
    assert_eq!(Player::from_draw(true), Player::Player1);
    assert_eq!(Player::from_draw(false), Player::Player2);
    assert_ne!(Player::Player1.key(), Player::Player2.key());
}

#[test]
fn ball_in_second_players_sensor() {
    let mut balls = vec![ball_touching(vec![LEFT])];
    let mut queue = EventQueue::new();
    detect_reset(&Input::idle(), &balls, &goals(), &mut queue);
    assert_eq!(
        queue.read(),
        &vec![GameEvents::ResetBall(Player::Player2), GameEvents::GainPoint(Player::Player2)]
    );
    let events = queue.drain();
    let mut scores = Score::new();
    let mut shown = displays();
    reset_ball(&mut balls, &events);
    score_run(&events, &mut shown, &mut scores);
    assert_eq!(balls[0].position, Position { x: 0, y: 0 });
    assert_eq!(balls[0].velocity, Player::Player2.start_speed());
    assert_eq!(balls[0].velocity, Velocity { x: -100, y: 0 });
    assert_eq!(scores.get(Player::Player2), 1);
    assert_eq!(scores.get(Player::Player1), 0);
    assert_eq!(shown[1].value, 1);
    assert_eq!(shown[0].value, 0);
}

#[test]
fn ball_in_first_players_sensor() {
    let balls = vec![ball_touching(vec![WALL, RIGHT])];
    let mut queue = EventQueue::new();
    detect_reset(&Input::idle(), &balls, &goals(), &mut queue);
    assert_eq!(
        queue.read(),
        &vec![GameEvents::ResetBall(Player::Player1), GameEvents::GainPoint(Player::Player1)]
    );
}

#[test]
fn reset_key_sends_one_serve_and_no_point() {
    for _ in 0..50 {
        let balls = vec![ball_touching(vec![])];
        let mut queue = EventQueue::new();
        detect_reset(&reset_key(), &balls, &goals(), &mut queue);
        let events = queue.drain();
        assert_eq!(events.len(), 1);
        assert!(
            events[0] == GameEvents::ResetBall(Player::Player1)
                || events[0] == GameEvents::ResetBall(Player::Player2)
        );
        let mut scores = Score::new();
        let mut shown = displays();
        score_run(&events, &mut shown, &mut scores);
        assert_eq!(scores.get(Player::Player1), 0);
        assert_eq!(scores.get(Player::Player2), 0);
        assert_eq!(shown, displays());
    }
}

#[test]
fn reset_key_draws_both_players() {
    let mut first = 0;
    let mut second = 0;
    for _ in 0..400 {
        let mut queue = EventQueue::new();
        detect_reset(&reset_key(), &vec![], &goals(), &mut queue);
        match queue.read()[0] {
            GameEvents::ResetBall(Player::Player1) => first += 1,
            GameEvents::ResetBall(Player::Player2) => second += 1,
            _ => panic!("a point without a goal"),
        }
    }
    assert_eq!(first + second, 400);
    assert!(first > 0);
    assert!(second > 0);
}

#[test]
fn reset_key_skips_the_contacts() {
    let balls = vec![ball_touching(vec![LEFT, RIGHT])];
    let mut queue = EventQueue::new();
    detect_reset_drawn(&reset_key(), &balls, &goals(), true, &mut queue);
    assert_eq!(queue.read(), &vec![GameEvents::ResetBall(Player::Player1)]);
    let mut queue = EventQueue::new();
    detect_reset_drawn(&reset_key(), &balls, &goals(), false, &mut queue);
    assert_eq!(queue.read(), &vec![GameEvents::ResetBall(Player::Player2)]);
}

#[test]
fn held_reset_key_serves_once() {
    let balls = vec![ball_touching(vec![WALL])];
    let mut total = 0;
    for tick in 0..10 {
        let input = if tick == 0 {
            Input::new(vec![Key::KeyR], vec![Key::KeyR])
        } else {
            Input::new(vec![Key::KeyR], vec![])
        };
        let mut queue = EventQueue::new();
        detect_reset(&input, &balls, &goals(), &mut queue);
        if tick == 0 {
            assert_eq!(queue.len(), 1);
        } else {
            assert!(queue.is_empty());
        }
        total += queue.len();
    }
    assert_eq!(total, 1);
}

#[test]
fn no_contact_and_no_key_sends_nothing() {
    let balls = vec![ball_touching(vec![]), ball_touching(vec![WALL, 99])];
    let mut queue = EventQueue::new();
    detect_reset(&Input::idle(), &balls, &goals(), &mut queue);
    assert!(queue.is_empty());
    assert_eq!(queue.len(), 0);
}

#[test]
fn both_sensors_at_once_send_a_pair_each() {
    let balls = vec![ball_touching(vec![RIGHT, WALL, LEFT])];
    let mut queue = EventQueue::new();
    detect_goals(&balls, &goals(), &mut queue);
    assert_eq!(
        queue.read(),
        &vec![
            GameEvents::ResetBall(Player::Player1),
            GameEvents::GainPoint(Player::Player1),
            GameEvents::ResetBall(Player::Player2),
            GameEvents::GainPoint(Player::Player2),
        ]
    );
}

#[test]
fn events_come_ball_by_ball() {
    let balls = vec![ball_touching(vec![LEFT]), ball_touching(vec![]), ball_touching(vec![RIGHT])];
    let mut queue = EventQueue::new();
    queue.send(GameEvents::GainPoint(Player::Player1));
    detect_goals(&balls, &goals(), &mut queue);
    assert_eq!(
        queue.read(),
        &vec![
            GameEvents::GainPoint(Player::Player1),
            GameEvents::ResetBall(Player::Player2),
            GameEvents::GainPoint(Player::Player2),
            GameEvents::ResetBall(Player::Player1),
            GameEvents::GainPoint(Player::Player1),
        ]
    );
}

#[test]
fn find_goal_by_identifier() {
    assert_eq!(find_goal(&goals(), RIGHT), Some(Player::Player1));
    assert_eq!(find_goal(&goals(), LEFT), Some(Player::Player2));
    assert_eq!(find_goal(&goals(), WALL), None);
    assert_eq!(find_goal(&vec![], RIGHT), None);
    let twice = vec![
        GoalSensor { entity: 4, player: Player::Player2 },
        GoalSensor { entity: 4, player: Player::Player1 },
    ];
    assert_eq!(find_goal(&twice, 4), Some(Player::Player2));
}

#[test]
fn reset_twice_is_reset_once() {
    let once = vec![GameEvents::ResetBall(Player::Player1)];
    let mut a = vec![ball_touching(vec![LEFT])];
    reset_ball(&mut a, &once);
    let mut b = vec![ball_touching(vec![LEFT])];
    reset_ball(&mut b, &once);
    reset_ball(&mut b, &once);
    let mut c = vec![ball_touching(vec![LEFT])];
    reset_ball(&mut c, &vec![once[0], once[0]]);
    for balls in [&a, &b, &c] {
        assert_eq!(balls[0].position, Position { x: 0, y: 0 });
        assert_eq!(balls[0].velocity, Velocity { x: 100, y: 0 });
        assert_eq!(balls[0].touching, vec![LEFT]);
    }
}

#[test]
fn last_reset_wins() {
    let mut balls = vec![ball_touching(vec![]), ball_touching(vec![])];
    let events = vec![
        GameEvents::ResetBall(Player::Player1),
        GameEvents::GainPoint(Player::Player1),
        GameEvents::ResetBall(Player::Player2),
        GameEvents::GainPoint(Player::Player1),
    ];
    reset_ball(&mut balls, &events);
    for ball in &balls {
        assert_eq!(ball.position, Position { x: 0, y: 0 });
        assert_eq!(ball.velocity, Velocity { x: -100, y: 0 });
    }
}

#[test]
fn points_alone_do_not_move_the_ball() {
    let mut balls = vec![ball_touching(vec![])];
    reset_ball(&mut balls, &vec![GameEvents::GainPoint(Player::Player2)]);
    assert_eq!(balls[0].position, Position { x: 123, y: -45 });
    assert_eq!(balls[0].velocity, Velocity { x: -70, y: 30 });
    reset_ball(&mut balls, &vec![]);
    assert_eq!(balls[0].position, Position { x: 123, y: -45 });
}

#[test]
fn reset_without_a_ball_is_a_no_op() {
    let mut balls: Vec<Ball> = vec![];
    reset_ball(&mut balls, &vec![GameEvents::ResetBall(Player::Player1)]);
    assert!(balls.is_empty());
}

#[test]
fn ball_reset_by_hand() {
    let mut ball = ball_touching(vec![WALL]);
    ball.reset(Player::Player2);
    assert_eq!(ball.position, Position { x: 0, y: 0 });
    assert_eq!(ball.velocity, Velocity { x: -100, y: 0 });
    assert_eq!(ball.touching, vec![WALL]);
}

#[test]
fn two_points_in_one_tick_count_twice() {
    let mut scores = Score::new();
    let mut shown = displays();
    let events = vec![GameEvents::GainPoint(Player::Player1), GameEvents::GainPoint(Player::Player1)];
    score_run(&events, &mut shown, &mut scores);
    assert_eq!(scores.get(Player::Player1), 2);
    assert_eq!(scores.get(Player::Player2), 0);
    assert_eq!(shown[0].value, 2);
    assert_eq!(shown[1].value, 0);
}

#[test]
fn n_points_add_n() {
    let mut scores = Score::new();
    let mut shown = displays();
    score_run(&vec![GameEvents::GainPoint(Player::Player2); 3], &mut shown, &mut scores);
    assert_eq!(scores.get(Player::Player2), 3);
    for n in [0usize, 1, 7, 100] {
        let before = scores.get(Player::Player2);
        score_run(&vec![GameEvents::GainPoint(Player::Player2); n], &mut shown, &mut scores);
        assert_eq!(scores.get(Player::Player2), before + n as u32);
        assert_eq!(scores.get(Player::Player1), 0);
    }
    assert_eq!(shown[1].value, 111);
    assert_eq!(shown[0].value, 0);
}

#[test]
fn missing_entry_reads_as_zero() {
    let scores = Score::new();
    assert_eq!(scores.get(Player::Player1), 0);
    assert_eq!(scores.get(Player::Player2), 0);
    let scores = Score::default();
    assert_eq!(scores.get(Player::Player1), 0);
}

#[test]
fn gain_books_one_point() {
    let mut scores = Score::new();
    assert_eq!(scores.gain(Player::Player1), 1);
    assert_eq!(scores.gain(Player::Player1), 2);
    assert_eq!(scores.gain(Player::Player2), 1);
    assert_eq!(scores.get(Player::Player1), 2);
    assert_eq!(scores.get(Player::Player2), 1);
}

#[test]
fn point_without_a_display_is_still_booked() {
    let mut scores = Score::new();
    let mut shown = vec![ScoreDisplay { owner: Player::Player1, value: 9 }];
    score_run(&vec![GameEvents::GainPoint(Player::Player2)], &mut shown, &mut scores);
    assert_eq!(scores.get(Player::Player2), 1);
    assert_eq!(shown, vec![ScoreDisplay { owner: Player::Player1, value: 9 }]);
    let mut none: Vec<ScoreDisplay> = vec![];
    score_run(&vec![GameEvents::GainPoint(Player::Player2)], &mut none, &mut scores);
    assert_eq!(scores.get(Player::Player2), 2);
}

#[test]
fn serves_alone_book_nothing() {
    let mut scores = Score::new();
    let mut shown = displays();
    shown[0].value = 4;
    score_run(&vec![GameEvents::ResetBall(Player::Player1)], &mut shown, &mut scores);
    assert_eq!(scores.get(Player::Player1), 0);
    assert_eq!(shown[0].value, 4);
}

#[test]
fn every_display_of_a_player_is_set() {
    let mut scores = Score::new();
    let mut shown = vec![
        ScoreDisplay { owner: Player::Player2, value: 0 },
        ScoreDisplay { owner: Player::Player1, value: 0 },
        ScoreDisplay { owner: Player::Player2, value: 0 },
    ];
    score_run(
        &vec![GameEvents::GainPoint(Player::Player2), GameEvents::GainPoint(Player::Player1), GameEvents::GainPoint(Player::Player2)],
        &mut shown,
        &mut scores,
    );
    assert_eq!(shown[0].value, 2);
    assert_eq!(shown[1].value, 1);
    assert_eq!(shown[2].value, 2);
}

#[test]
fn queue_keeps_order_and_empties() {
    let mut queue = EventQueue::new();
    assert!(queue.is_empty());
    queue.send(GameEvents::ResetBall(Player::Player2));
    queue.send(GameEvents::GainPoint(Player::Player1));
    assert_eq!(queue.len(), 2);
    assert_eq!(
        queue.read(),
        &vec![GameEvents::ResetBall(Player::Player2), GameEvents::GainPoint(Player::Player1)]
    );
    // a second reader of the same phase sees them too
    assert_eq!(queue.read().len(), 2);
    let drained = queue.drain();
    assert_eq!(drained.len(), 2);
    assert!(queue.is_empty());
    queue.send(GameEvents::GainPoint(Player::Player2));
    queue.clear();
    assert!(queue.is_empty());
    assert!(queue.drain().is_empty());
}

#[test]
fn last_serve_is_the_last_reset() {
    assert_eq!(pong::ball::last_serve(&vec![]), None);
    assert_eq!(pong::ball::last_serve(&vec![GameEvents::GainPoint(Player::Player1)]), None);
    assert_eq!(
        pong::ball::last_serve(&vec![
            GameEvents::ResetBall(Player::Player2),
            GameEvents::ResetBall(Player::Player1),
            GameEvents::GainPoint(Player::Player2),
        ]),
        Some(Player::Player1)
    );
}

#[test]
fn booking_check_counts_points() {
    let events = vec![
        GameEvents::GainPoint(Player::Player1),
        GameEvents::ResetBall(Player::Player1),
        GameEvents::GainPoint(Player::Player2),
        GameEvents::GainPoint(Player::Player1),
    ];
    assert_eq!(pong::score::count_gains(&events, Player::Player1), 2);
    assert_eq!(pong::score::count_gains(&events, Player::Player2), 1);
    assert_eq!(pong::score::count_gains(&vec![], Player::Player2), 0);
    assert!(pong::score::can_book(&events, &Score::new()));
}

#[test]
fn points_are_added_to_what_was_there() {
    let mut scores = Score::with_points(40, 7);
    assert_eq!(scores.get(Player::Player1), 40);
    assert_eq!(scores.get(Player::Player2), 7);
    let mut shown = displays();
    score_run(&vec![GameEvents::GainPoint(Player::Player1); 5], &mut shown, &mut scores);
    assert_eq!(scores.get(Player::Player1), 45);
    assert_eq!(scores.get(Player::Player2), 7);
    assert_eq!(shown[0].value, 45);
    assert_eq!(shown[1].value, 0);
}

#[test]
fn booking_check_at_the_limit() {
    let one = vec![GameEvents::GainPoint(Player::Player2)];
    let two = vec![GameEvents::GainPoint(Player::Player2); 2];
    let full = Score::with_points(0, u32::MAX);
    assert!(!pong::score::can_book(&one, &full));
    assert!(pong::score::can_book(&vec![GameEvents::GainPoint(Player::Player1)], &full));
    assert!(pong::score::can_book(&vec![GameEvents::ResetBall(Player::Player2)], &full));
    let mut nearly = Score::with_points(3, u32::MAX - 1);
    assert!(!pong::score::can_book(&two, &nearly));
    assert!(pong::score::can_book(&one, &nearly));
    let mut shown = displays();
    score_run(&one, &mut shown, &mut nearly);
    assert_eq!(nearly.get(Player::Player2), u32::MAX);
    assert_eq!(shown[1].value, u32::MAX);
    assert!(!pong::score::can_book(&one, &nearly));
}

#[test]
fn try_score_run_books_or_leaves() {
    let one = vec![GameEvents::GainPoint(Player::Player1)];
    let mut scores = Score::with_points(u32::MAX - 1, 2);
    let mut shown = displays();
    assert!(pong::score::try_score_run(&one, &mut shown, &mut scores));
    assert_eq!(scores.get(Player::Player1), u32::MAX);
    assert_eq!(shown[0].value, u32::MAX);
    let both = vec![GameEvents::GainPoint(Player::Player2), GameEvents::GainPoint(Player::Player1)];
    assert!(!pong::score::try_score_run(&both, &mut shown, &mut scores));
    assert_eq!(scores.get(Player::Player1), u32::MAX);
    assert_eq!(scores.get(Player::Player2), 2);
    assert_eq!(shown[0].value, u32::MAX);
    assert_eq!(shown[1].value, 0);
}

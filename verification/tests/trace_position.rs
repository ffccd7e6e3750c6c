//! Scenarios of the angle convention and of placing a node on the path. The
//! measuring is done here, on `Vec2`; every decision is the library's.

use bevy::math::Vec2;
use snake_motion::comparison::comparison_of;
use snake_motion::comparison::Comparison;
use snake_motion::snake_model::{head_move_to, snake_model_new, TraceItem};
use snake_motion::trace_position_calculator::{
    calculate_node_pos_traced_on_distance_from_head, trailing_position, vec_angle, AngleFormula,
    TraceError, TraceStep,
};
use std::collections::{LinkedList, VecDeque};
use std::f32::consts::PI;

fn angle_of(pos: Vec2) -> Option<f32> {
    let x = comparison_of(pos.x.partial_cmp(&0.0));
    let y = comparison_of(pos.y.partial_cmp(&0.0));
    match vec_angle(x, y) {
        Some(AngleFormula::Atan) => Some(f32::atan(pos.y / pos.x)),
        Some(AngleFormula::NegatedAtan) => Some(-f32::atan(pos.y / pos.x)),
        Some(AngleFormula::Zero) => Some(0.0),
        Some(AngleFormula::PiMinusAtan) => Some(PI - f32::atan(pos.y / pos.x)),
        Some(AngleFormula::PiPlusAtan) => Some(PI + f32::atan(pos.y / pos.x)),
        Some(AngleFormula::HalfPi) => Some(PI / 2.0),
        Some(AngleFormula::NegatedHalfPi) => Some(-PI / 2.0),
        None => None,
    }
}

struct Walk {
    current_pos: Vec2,
    total_distance: f32,
    result_direction: f32,
    delta_vec: Vec2,
    delta_len: f32,
}

fn trace_of(points: &[Vec2]) -> VecDeque<TraceItem<Vec2>> {
    let newest = points.len() as i64;
    points.iter().enumerate().map(|(k, &pos)| TraceItem { pos, index: newest - k as i64 }).collect()
}

fn start(head_pos: Vec2, head_direction: f32, distance_from_head: f32) -> Walk {
    Walk {
        current_pos: head_pos,
        total_distance: distance_from_head,
        result_direction: head_direction,
        delta_vec: Vec2::ZERO,
        delta_len: 0.0,
    }
}

fn measure(mut walk: Walk, checkpoint: &Vec2) -> (Walk, Comparison) {
    walk.delta_vec = *checkpoint - walk.current_pos;
    walk.delta_len = walk.delta_vec.length();
    if let Some(direction) = angle_of(-walk.delta_vec) {
        walk.result_direction = direction;
    }
    let remaining = comparison_of(walk.total_distance.partial_cmp(&walk.delta_len));
    (walk, remaining)
}

fn go(mut walk: Walk, checkpoint: &Vec2, step: TraceStep) -> Walk {
    match step {
        TraceStep::Finish => {
            walk.current_pos += walk.delta_vec / walk.delta_len * walk.total_distance;
        }
        TraceStep::Advance => {
            walk.current_pos = *checkpoint;
            walk.total_distance -= walk.delta_len;
        }
    }
    walk
}

fn node_pos_on_trace(
    head_pos: Vec2,
    head_direction: f32,
    trace: &VecDeque<TraceItem<Vec2>>,
    trace_length: usize,
    distance_from_head: f32,
) -> Result<(Vec2, f32), TraceError> {
    let end = calculate_node_pos_traced_on_distance_from_head(
        start(head_pos, head_direction, distance_from_head),
        trace,
        trace_length,
        measure,
        go,
    )?;
    Ok((end.current_pos, end.result_direction))
}

fn assert_vec2_eq(a: Vec2, b: Vec2) {
    let delta_max: f32 = 0.001;
    let dx = f32::abs(a.x - b.x);
    assert!(dx < delta_max);
    let dy = f32::abs(a.y - b.y);
    assert!(dy < delta_max);
}

#[test]
fn linked_list_map() {
    let list = LinkedList::from([TraceItem { index: 1, pos: Vec2::ZERO }]);
    let trace: VecDeque<TraceItem<Vec2>> = list.iter().copied().collect();
    let head_pos = Vec2::new(0.0, 0.0);

    let result = node_pos_on_trace(head_pos, PI / 2.0, &trace, list.len(), 10.0);
    assert!(result.is_ok());
}

#[test]
fn basic_test() {
    let trace: [Vec2; 1] = [Vec2::new(5.0, 0.0)];
    let (actual_result, _actual_angle) = node_pos_on_trace(
        Vec2::new(0.0, 0.0),
        PI / 2.0,
        &trace_of(&trace),
        trace.len(),
        3.0,
    )
    .unwrap();
    let expected_result = Vec2::new(3.0, 0.0);
    assert_eq!(actual_result, expected_result);
}

#[test]
fn segment_smaller_than_distance_from_head_test() {
    let head_pos = Vec2::new(0.0, 0.0);
    let trace = [Vec2::new(5.0, 5.0)];

    let expected_results = [(21.21320344, Vec2::new(15.0, 15.0))];

    for (distance_from_head, expected_pos) in expected_results {
        let (actual_pos, _actual_direction) = node_pos_on_trace(
            head_pos,
            PI / 2.0,
            &trace_of(&trace),
            trace.len(),
            distance_from_head,
        )
        .unwrap();
        assert_eq!(actual_pos, expected_pos);
    }
}

#[test]
fn up_down_left_right_test() {
    let head_pos = Vec2::new(0.0, 0.0);
    let trace = [
        Vec2::new(0.0, 10.0),
        Vec2::new(20.0, 10.0),
        Vec2::new(20.0, -20.0),
        Vec2::new(5.0, -20.0),
    ];

    let expected_results = [(75.0, Vec2::new(5.0, -20.0))];

    for (distance_from_head, expected_pos) in expected_results {
        let (actual_pos, _actual_direction) = node_pos_on_trace(
            head_pos,
            PI / 2.0,
            &trace_of(&trace),
            trace.len(),
            distance_from_head,
        )
        .unwrap();
        assert_eq!(actual_pos, expected_pos);
    }
}

#[test]
fn thirty_degree_test() {
    let head_pos = Vec2::new(10.0, 0.0);
    let trace = [Vec2::new(0.0, 0.0), Vec2::new(17.32051, 10.0)];

    let expected_results = [(30.0, Vec2::new(17.32051, 10.0))];

    for (distance_from_head, expected_pos) in expected_results {
        let (actual_pos, _actual_direction) = node_pos_on_trace(
            head_pos,
            PI / 2.0,
            &trace_of(&trace),
            trace.len(),
            distance_from_head,
        )
        .unwrap();
        assert_vec2_eq(actual_pos, expected_pos);
    }
}

#[test]
fn one_hudred_ten_degree_test() {
    let head_pos = Vec2::new(10.0, 0.0);
    let trace = [Vec2::new(0.0, 0.0), Vec2::new(10.0, -17.32051)];

    let expected_results = [(30.0, Vec2::new(10.0, -17.32051))];

    for (distance_from_head, expected_pos) in expected_results {
        let (actual_pos, _actual_direction) = node_pos_on_trace(
            head_pos,
            PI / 2.0,
            &trace_of(&trace),
            trace.len(),
            distance_from_head,
        )
        .unwrap();
        assert_vec2_eq(actual_pos, expected_pos);
    }
}

#[test]
fn square_test() {
    let head_pos = Vec2::new(0.0, 0.0);
    let trace = [
        Vec2::new(0.0, 10.0),
        Vec2::new(10.0, 10.0),
        Vec2::new(10.0, 0.0),
        Vec2::new(10.0, -10.0),
        Vec2::new(0.0, -10.0),
        Vec2::new(-10.0, -10.0),
        Vec2::new(-10.0, 0.0),
        Vec2::new(-10.0, 10.0),
        Vec2::new(0.0, 10.0),
    ];

    let expected_results = [(10.0, Vec2::new(0.0, 10.0))];

    for (distance_from_head, expected_pos) in expected_results {
        let (actual_pos, _actual_direction) = node_pos_on_trace(
            head_pos,
            PI / 2.0,
            &trace_of(&trace),
            trace.len(),
            distance_from_head,
        )
        .unwrap();
        assert_vec2_eq(actual_pos, expected_pos);
    }
}

#[test]
fn debug_strage_case() {
    let head_pos = Vec2::new(0.0, 107.59321);
    let trace = [
        Vec2::new(0.0, 102.58502),
        Vec2::new(0.0, 92.575264),
        Vec2::new(0.0, 82.560165),
        Vec2::new(0.0, 72.557556),
        Vec2::new(0.0, 62.554504),
        Vec2::new(0.0, 52.541656),
        Vec2::new(0.0, 42.534496),
        Vec2::new(0.0, 32.525833),
        Vec2::new(0.0, 22.51635),
        Vec2::new(0.0, 10.018846),
        Vec2::new(0.0, -10.0),
    ];

    let expected_results = [(107.59321, Vec2::new(0.0, -0.0))];

    for (distance_from_head, expected_pos) in expected_results {
        let (actual_pos, _actual_direction) = node_pos_on_trace(
            head_pos,
            PI / 2.0,
            &trace_of(&trace),
            trace.len(),
            distance_from_head,
        )
        .unwrap();

        println!("!!!actual_pos: {:?}", actual_pos);
        println!("!!!expected_pos: {:?}", expected_pos);
        assert_vec2_eq(actual_pos, expected_pos);
    }
}

#[test]
fn positive_and_zero() {
    let pos = Vec2::new(10.0, 0.0);
    let actual = angle_of(pos);
    let expected = Some(0.0);
    assert_eq!(actual, expected);
}

#[test]
fn negative_and_zero() {
    let pos = Vec2::new(-10.0, 0.0);
    let actual = angle_of(pos);
    let expected = Some(0.0);
    assert_eq!(actual, expected);
}

#[test]
fn zero_and_positive() {
    let pos = Vec2::new(0.0, 10.0);
    let actual = angle_of(pos);
    let expected = Some(PI / 2.0);
    assert_eq!(actual, expected);
}

#[test]
fn zero_and_negative() {
    let pos = Vec2::new(0.0, -10.0);
    let actual = angle_of(pos);
    let expected = Some(-PI / 2.0);
    assert_eq!(actual, expected);
}

#[test]
fn positive_and_positive() {
    let pos = Vec2::new(10.0, 10.0);
    let actual = angle_of(pos);
    let expected = Some(PI / 4.0);
    assert_eq!(actual, expected);
}

#[test]
fn positive_and_negative() {
    let pos = Vec2::new(10.0, -10.0);
    let actual = angle_of(pos);
    let expected = Some(PI / 4.0);
    assert_eq!(actual, expected);
}

#[test]
fn negative_and_negative() {
    let pos = Vec2::new(-10.0, -10.0);
    let actual = angle_of(pos);
    let expected = Some(PI + PI / 4.0);
    assert_eq!(actual, expected);
}

#[test]
fn negative_and_positive() {
    let pos = Vec2::new(-10.0, 10.0);
    let actual = angle_of(pos);
    let expected = Some(PI + PI / 4.0);
    assert_eq!(actual, expected);
}

#[test]
fn zero_and_zero() {
    let pos = Vec2::new(0.0, 0.0);
    let actual = angle_of(pos);
    let expected = None;
    assert_eq!(actual, expected);
}

#[test]
fn empty_trace_is_an_error() {
    let result = node_pos_on_trace(Vec2::ZERO, 0.0, &VecDeque::new(), 0, 10.0);
    assert_eq!(result, Err(TraceError::EmptyTrace));
    let said_empty = node_pos_on_trace(Vec2::ZERO, 0.0, &trace_of(&[Vec2::ONE]), 0, 10.0);
    assert_eq!(said_empty, Err(TraceError::EmptyTrace));
}

#[test]
fn direction_follows_the_last_stretch_walked() {
    // head at the origin, path goes up and then right: a node 15 behind the
    // head lies on the second stretch, whose direction is that of (-1, 0)
    let trace = [Vec2::new(0.0, 10.0), Vec2::new(20.0, 10.0)];
    let (pos, direction) =
        node_pos_on_trace(Vec2::ZERO, 1.0, &trace_of(&trace), trace.len(), 15.0).unwrap();
    assert_eq!(pos, Vec2::new(5.0, 10.0));
    assert_eq!(direction, 0.0);
}

#[test]
fn direction_is_kept_where_a_checkpoint_lies_on_the_head() {
    // the first checkpoint coincides with the head: no direction comes of it
    let trace = [Vec2::new(0.0, 0.0), Vec2::new(0.0, 8.0)];
    let (pos, direction) =
        node_pos_on_trace(Vec2::ZERO, 1.25, &trace_of(&trace), trace.len(), 4.0).unwrap();
    assert_eq!(pos, Vec2::new(0.0, 4.0));
    assert_eq!(direction, -PI / 2.0);
    let lone = [Vec2::new(0.0, 0.0)];
    let (_, kept) = node_pos_on_trace(Vec2::ZERO, 1.25, &trace_of(&lone), 2, 0.0).unwrap();
    assert_eq!(kept, 1.25);
}

#[test]
fn walk_visits_the_checkpoints_newest_first_up_to_the_finish() {
    // the state is the list of visits; the third stretch is longer than what is left
    let trace = trace_of(&[Vec2::new(1.0, 0.0), Vec2::new(2.0, 0.0), Vec2::new(3.0, 0.0), Vec2::new(4.0, 0.0)]);
    let visits = calculate_node_pos_traced_on_distance_from_head(
        Vec::<(f32, TraceStep)>::new(),
        &trace,
        trace.len(),
        |seen: Vec<(f32, TraceStep)>, checkpoint: &Vec2| {
            let remaining = if checkpoint.x == 3.0 { 0.5f32 } else { 9.0f32 };
            (seen, comparison_of(remaining.partial_cmp(&1.0)))
        },
        |mut seen: Vec<(f32, TraceStep)>, checkpoint: &Vec2, step: TraceStep| {
            seen.push((checkpoint.x, step));
            seen
        },
    )
    .unwrap();
    assert_eq!(
        visits,
        vec![(1.0, TraceStep::Advance), (2.0, TraceStep::Advance), (3.0, TraceStep::Finish)]
    );
}

#[test]
fn walk_finishes_at_the_oldest_checkpoint_with_distance_left() {
    let trace = trace_of(&[Vec2::new(1.0, 0.0), Vec2::new(2.0, 0.0), Vec2::new(3.0, 0.0)]);
    let visits = calculate_node_pos_traced_on_distance_from_head(
        Vec::<(f32, TraceStep)>::new(),
        &trace,
        trace.len(),
        |seen: Vec<(f32, TraceStep)>, _checkpoint: &Vec2| {
            (seen, comparison_of(9.0f32.partial_cmp(&1.0)))
        },
        |mut seen: Vec<(f32, TraceStep)>, checkpoint: &Vec2, step: TraceStep| {
            seen.push((checkpoint.x, step));
            seen
        },
    )
    .unwrap();
    assert_eq!(
        visits,
        vec![(1.0, TraceStep::Advance), (2.0, TraceStep::Advance), (3.0, TraceStep::Finish)]
    );
}

#[test]
fn piece_trails_the_head_of_a_body_along_its_history() {
    // the head went up 30 and then right 20, leaving a record every 10
    let mut snake = snake_model_new(Vec2::new(0.0, 0.0));
    for place in [(0.0, 10.0), (0.0, 20.0), (0.0, 30.0), (10.0, 30.0), (20.0, 30.0)] {
        head_move_to(&mut snake, Vec2::new(place.0, place.1), Comparison::Equal);
    }
    head_move_to(&mut snake, Vec2::new(24.0, 30.0), Comparison::Less);

    let near = trailing_position(&snake, start(snake.head_pos, 0.0, 3.0), measure, go).unwrap();
    assert_eq!(near.current_pos, Vec2::new(21.0, 30.0));
    assert_eq!(near.result_direction, 0.0);

    let round_the_corner =
        trailing_position(&snake, start(snake.head_pos, 0.0, 39.0), measure, go).unwrap();
    assert_eq!(round_the_corner.current_pos, Vec2::new(0.0, 15.0));
    assert_eq!(round_the_corner.result_direction, PI / 2.0);

    let past_the_start =
        trailing_position(&snake, start(snake.head_pos, 0.0, 60.0), measure, go).unwrap();
    assert_eq!(past_the_start.current_pos, Vec2::new(0.0, -6.0));
}

#[test]
fn no_piece_trails_a_body_without_history() {
    let mut snake = snake_model_new(Vec2::new(0.0, 0.0));
    snake.trace.clear();
    let result = trailing_position(&snake, start(snake.head_pos, 0.0, 3.0), measure, go);
    assert!(matches!(result, Err(TraceError::EmptyTrace)));
}

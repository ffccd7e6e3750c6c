//! The body: its size classes, its head and the history the head leaves.
//!
//! Positions are of a type `P` that the caller chooses. The model stores and
//! hands them on and never looks inside one.

use crate::comparison::Comparison;
use std::collections::VecDeque;
use vstd::prelude::*;

verus! {

/// A place where the head has been, with the number under which it was
/// recorded. Later records carry higher numbers.
#[derive(Clone, Copy, Debug, PartialEq)]
pub struct TraceItem<P> {
    pub pos: P,
    pub index: i64,
}

/// The radius tier of one trailing piece of the body.
#[derive(Clone, Copy, Debug, PartialEq, Eq, Structural)]
pub enum Node {
    Big,
    Medium,
    Small,
}

/// The tiers of the trailing pieces of a body of the given size, the piece
/// next to the head first.
pub open spec fn spine(size: int) -> Seq<Node> {
    if size > 20 {
        seq![Node::Big, Node::Medium, Node::Small]
    } else if size > 10 {
        seq![Node::Medium, Node::Small, Node::Small]
    } else if size > 5 {
        seq![Node::Medium, Node::Small]
    } else {
        seq![Node::Small, Node::Small]
    }
}

/// The radius of a tier.
pub open spec fn radius(node: Node) -> u32 {
    match node {
        Node::Small => 10,
        Node::Medium => 15,
        Node::Big => 20,
    }
}

/// Lists the tiers of the trailing pieces of a body of the given size.
pub fn spine_from_size(size: i32) -> (nodes: Vec<Node>)
    ensures
        nodes@ == spine(size as int),
{
    let nodes = if size > 20 {
        vec![Node::Big, Node::Medium, Node::Small]
    } else if size > 10 {
        vec![Node::Medium, Node::Small, Node::Small]
    } else if size > 5 {
        vec![Node::Medium, Node::Small]
    } else {
        vec![Node::Small, Node::Small]
    };
    assert(nodes@ =~= spine(size as int));
    nodes
}

/// The radius of a tier.
pub fn node_radius(node: Node) -> (r: u32)
    ensures
        r == radius(node),
{
    match node {
        Node::Small => 10,
        Node::Medium => 15,
        Node::Big => 20,
    }
}

/// Lists the radii of the trailing pieces of a body of the given size, the
/// piece next to the head first.
pub fn segment_classes(size: i32) -> (radii: Vec<u32>)
    ensures
        radii@ == spine(size as int).map_values(|node: Node| radius(node)),
{
    let nodes = spine_from_size(size);
    let mut radii: Vec<u32> = Vec::new();
    let mut i: usize = 0;
    while i < nodes.len()
        invariant
            i <= nodes@.len(),
            nodes@ == spine(size as int),
            radii@.len() == i,
            forall|k: int| 0 <= k < i ==> radii@[k] == radius(#[trigger] nodes@[k]),
        decreases nodes@.len() - i,
    {
        radii.push(node_radius(nodes[i]));
        i += 1;
    }
    assert(radii@ =~= spine(size as int).map_values(|node: Node| radius(node)));
    radii
}

/// The history is newest first: from front to back the numbers never rise.
pub open spec fn newest_first<P>(trace: Seq<TraceItem<P>>) -> bool {
    forall|i: int, j: int| 0 <= i <= j < trace.len() ==> trace[i].index >= trace[j].index
}

/// The history after the stale records at its back are dropped: records leave
/// from the back, oldest first, up to the first whose number is not below
/// `max_index`.
pub open spec fn pruned<P>(trace: Seq<TraceItem<P>>, max_index: int) -> Seq<TraceItem<P>>
    decreases trace.len(),
{
    if trace.len() > 0 && trace.last().index < max_index {
        pruned(trace.drop_last(), max_index)
    } else {
        trace
    }
}

/// What pruning leaves is a front part of the history; it is empty or ends in
/// a record that is not stale; every record that left was stale. Of a history
/// that is newest first, no stale record stays, so exactly the stale records
/// leave, and the history empties only where every record was stale.
pub proof fn lemma_pruned<P>(trace: Seq<TraceItem<P>>, max_index: int)
    ensures
        pruned(trace, max_index).len() <= trace.len(),
        pruned(trace, max_index) == trace.take(pruned(trace, max_index).len() as int),
        pruned(trace, max_index).len() > 0 ==> pruned(trace, max_index).last().index >= max_index,
        forall|j: int|
            pruned(trace, max_index).len() <= j < trace.len() ==> (#[trigger] trace[j]).index
                < max_index,
        newest_first(trace) ==> newest_first(pruned(trace, max_index)),
        newest_first(trace) ==> forall|i: int|
            0 <= i < pruned(trace, max_index).len() ==> (#[trigger] pruned(
                trace,
                max_index,
            )[i]).index >= max_index,
    decreases trace.len(),
{
    if trace.len() > 0 && trace.last().index < max_index {
        let shorter = trace.drop_last();
        lemma_pruned(shorter, max_index);
        let kept = pruned(shorter, max_index);
        assert(kept == trace.take(kept.len() as int)) by {
            assert(shorter.take(kept.len() as int) =~= trace.take(kept.len() as int));
        }
        assert forall|j: int| kept.len() <= j < trace.len() implies (#[trigger] trace[j]).index
            < max_index by {
            if j < shorter.len() {
                assert(shorter[j] == trace[j]);
            }
        }
        if newest_first(trace) {
            assert(newest_first(shorter)) by {
                assert forall|i: int, j: int| 0 <= i <= j < shorter.len() implies shorter[i].index
                    >= shorter[j].index by {
                    assert(shorter[i] == trace[i] && shorter[j] == trace[j]);
                }
            }
        }
    } else {
        assert(trace.take(trace.len() as int) =~= trace);
        if newest_first(trace) && trace.len() > 0 {
            assert forall|i: int| 0 <= i < trace.len() implies (#[trigger] trace[i]).index
                >= max_index by {
                assert(trace[i].index >= trace[trace.len() - 1].index);
            }
        }
    }
}

/// The records carry consecutive numbers: each number is one below that of
/// the record in front of it.
pub open spec fn consecutive<P>(trace: Seq<TraceItem<P>>) -> bool {
    forall|i: int| 0 <= i < trace.len() ==> (#[trigger] trace[i]).index == trace[0].index - i
}

/// The number of records that pruning leaves of a history with consecutive
/// numbers whose newest number is `newest`: those from `max_index` up to
/// `newest`, as far as the history of `len` records holds them.
pub open spec fn kept_count(len: nat, newest: int, max_index: int) -> nat {
    if newest < max_index {
        0
    } else if newest - max_index + 1 < len {
        (newest - max_index + 1) as nat
    } else {
        len
    }
}

/// Pruning bounds the length of a history with consecutive numbers: what is
/// left are the records numbered from `max_index` up to the newest, and their
/// numbers are consecutive still.
pub proof fn lemma_pruned_consecutive<P>(trace: Seq<TraceItem<P>>, max_index: int)
    requires
        trace.len() > 0,
        consecutive(trace),
    ensures
        pruned(trace, max_index).len() == kept_count(trace.len(), trace[0].index as int, max_index),
        consecutive(pruned(trace, max_index)),
        newest_first(trace),
{
    lemma_pruned(trace, max_index);
    let kept = pruned(trace, max_index);
    let n: int = kept.len() as int;
    assert(newest_first(trace));
    if n > 0 {
        assert(kept[n - 1] == trace[n - 1]);
        assert(kept[0] == trace[0]);
    }
    if n < trace.len() {
        assert(trace[n].index < max_index);
    }
    assert forall|i: int| 0 <= i < kept.len() implies (#[trigger] kept[i]).index == kept[0].index
        - i by {
        assert(kept[i] == trace[i]);
        assert(kept[0] == trace[0]);
    }
}

/// Drops the stale records at the back of the history: the oldest record
/// leaves while its number is below `max_index`.
///
/// A record whose number is not below `max_index` never leaves. Where the
/// history is newest first, no stale record stays. Where its numbers are
/// consecutive, the number of records left is known from the newest number.
pub fn clear_extra_traces<P>(list: &mut VecDeque<TraceItem<P>>, max_index: i64)
    ensures
        final(list)@ == pruned(old(list)@, max_index as int),
        final(list)@.len() <= old(list)@.len(),
        final(list)@ == old(list)@.take(final(list)@.len() as int),
        final(list)@.len() > 0 ==> final(list)@.last().index >= max_index,
        forall|j: int|
            final(list)@.len() <= j < old(list)@.len() ==> (#[trigger] old(list)@[j]).index
                < max_index,
        newest_first(old(list)@) ==> newest_first(final(list)@),
        newest_first(old(list)@) ==> forall|i: int|
            0 <= i < final(list)@.len() ==> (#[trigger] final(list)@[i]).index >= max_index,
        old(list)@.len() > 0 && consecutive(old(list)@) ==> consecutive(final(list)@)
            && final(list)@.len() == kept_count(
            old(list)@.len(),
            old(list)@[0].index as int,
            max_index as int,
        ),
{
    loop
        invariant
            pruned(list@, max_index as int) == pruned(old(list)@, max_index as int),
        ensures
            list@ == pruned(old(list)@, max_index as int),
        decreases list@.len(),
    {
        let n: usize = list.len();
        if n == 0 || list[n - 1].index >= max_index {
            break ;
        }
        list.pop_back();
    }
    proof {
        lemma_pruned(old(list)@, max_index as int);
        if old(list)@.len() > 0 && consecutive(old(list)@) {
            lemma_pruned_consecutive(old(list)@, max_index as int);
        }
    }
}

/// The history after a candidate was offered: the candidate is recorded at
/// the front where it lies at least the minimum step from the newest record,
/// and the history is left as it was where it lies closer.
pub open spec fn appended<P>(
    trace: Seq<TraceItem<P>>,
    candidate: P,
    next_index: i64,
    spacing: Comparison,
) -> Seq<TraceItem<P>> {
    if spacing.at_least() {
        seq![TraceItem { pos: candidate, index: next_index }] + trace
    } else {
        trace
    }
}

/// The history after a run of offers, the first offer first. An offer is a
/// candidate, the number it would get and its spacing.
pub open spec fn appended_all<P>(
    trace: Seq<TraceItem<P>>,
    offers: Seq<(P, i64, Comparison)>,
) -> Seq<TraceItem<P>>
    decreases offers.len(),
{
    if offers.len() == 0 {
        trace
    } else {
        appended(
            appended_all(trace, offers.drop_last()),
            offers.last().0,
            offers.last().1,
            offers.last().2,
        )
    }
}

/// Offers a candidate position to the history.
///
/// `spacing` compares the distance between the candidate and the newest
/// record with the minimum step. The candidate is recorded at the front, under
/// `next_index`, exactly where that distance is not below the minimum step;
/// the result says whether it was. The records already there stay as they are.
pub fn append_if_far_enough<P>(
    list: &mut VecDeque<TraceItem<P>>,
    candidate: P,
    next_index: i64,
    spacing: Comparison,
) -> (recorded: bool)
    ensures
        recorded == spacing.at_least(),
        final(list)@ == appended(old(list)@, candidate, next_index, spacing),
        recorded ==> final(list)@.len() == old(list)@.len() + 1 && final(list)@[0] == (TraceItem {
            pos: candidate,
            index: next_index,
        }) && final(list)@.skip(1) == old(list)@,
        !recorded ==> final(list)@ == old(list)@,
        newest_first(old(list)@) && (old(list)@.len() > 0 ==> next_index >= old(list)@[0].index)
            ==> newest_first(final(list)@),
{
    if spacing.is_at_least() {
        list.push_front(TraceItem { pos: candidate, index: next_index });
        proof {
            assert(list@.skip(1) =~= old(list)@);
            if newest_first(old(list)@) && (old(list)@.len() > 0 ==> next_index >= old(
                list,
            )@[0].index) {
                lemma_appended_newest_first(old(list)@, candidate, next_index, spacing);
            }
        }
        true
    } else {
        false
    }
}

/// A history that is newest first stays so when a candidate is offered under
/// a number that is not below the newest record's. Into a history without
/// records any number may come.
pub proof fn lemma_appended_newest_first<P>(
    trace: Seq<TraceItem<P>>,
    candidate: P,
    next_index: i64,
    spacing: Comparison,
)
    requires
        newest_first(trace),
        trace.len() > 0 ==> next_index >= trace[0].index,
    ensures
        newest_first(appended(trace, candidate, next_index, spacing)),
{
    let after = appended(trace, candidate, next_index, spacing);
    if spacing.at_least() {
        assert forall|i: int, j: int| 0 <= i <= j < after.len() implies after[i].index
            >= after[j].index by {
            if j > 0 {
                assert(after[j] == trace[j - 1]);
                assert(trace[0].index >= trace[j - 1].index);
                if i > 0 {
                    assert(after[i] == trace[i - 1]);
                }
            }
        }
    }
}

/// Offers that all lie closer to the newest record than the minimum step, as
/// those of a head that stands still do, leave the history as it was, however
/// many they are.
pub proof fn lemma_near_offers_add_nothing<P>(
    trace: Seq<TraceItem<P>>,
    offers: Seq<(P, i64, Comparison)>,
)
    requires
        forall|i: int| 0 <= i < offers.len() ==> !(#[trigger] offers[i]).2.at_least(),
    ensures
        appended_all(trace, offers) == trace,
    decreases offers.len(),
{
    if offers.len() > 0 {
        let earlier = offers.drop_last();
        assert forall|i: int| 0 <= i < earlier.len() implies !(#[trigger] earlier[i]).2.at_least() by {
            assert(earlier[i] == offers[i]);
        }
        lemma_near_offers_add_nothing(trace, earlier);
        assert(!offers[offers.len() - 1].2.at_least());
    }
}

/// No run of offers takes a record away or changes one: the history before
/// the offers is the back part of the history after them.
pub proof fn lemma_offers_keep_records<P>(
    trace: Seq<TraceItem<P>>,
    offers: Seq<(P, i64, Comparison)>,
)
    ensures
        appended_all(trace, offers).len() >= trace.len(),
        appended_all(trace, offers).skip(appended_all(trace, offers).len() - trace.len())
            == trace,
        appended_all(trace, offers).len() <= trace.len() + offers.len(),
    decreases offers.len(),
{
    let after = appended_all(trace, offers);
    if offers.len() > 0 {
        let earlier = offers.drop_last();
        lemma_offers_keep_records(trace, earlier);
        let before = appended_all(trace, earlier);
        assert(after.skip(after.len() - trace.len()) =~= before.skip(before.len() - trace.len()));
    } else {
        assert(after.skip(0) =~= trace);
    }
}

/// How the head is driven along its heading.
#[derive(Clone, Copy, Debug, PartialEq, Eq, Structural)]
pub enum SnakeMoveDirection {
    Forward,
    Backward,
    Stop,
}

/// The factor that a drive puts on the linear speed.
pub open spec fn ratio(input: SnakeMoveDirection) -> int {
    match input {
        SnakeMoveDirection::Forward => 1,
        SnakeMoveDirection::Backward => -1,
        SnakeMoveDirection::Stop => 0,
    }
}

/// The factor that a drive puts on the linear speed: forward counts once,
/// backward counts once against the heading, stop counts nothing.
pub fn movement_ratio(input: SnakeMoveDirection) -> (r: i8)
    ensures
        r == ratio(input),
{
    match input {
        SnakeMoveDirection::Forward => 1,
        SnakeMoveDirection::Backward => -1,
        SnakeMoveDirection::Stop => 0,
    }
}

/// A body: where its head is, the history the head has left, the number of
/// the latest record, and the size the body has grown to.
pub struct SnakeModel<P> {
    pub head_pos: P,
    /// Rises each time a record is added; the newest record carries it.
    pub trace_counter: i64,
    /// The history, newest record first.
    pub trace: VecDeque<TraceItem<P>>,
    /// The number of foods eaten.
    pub size: i32,
}

impl<P> SnakeModel<P> {
    /// The history holds a record, is newest first, and no record carries a
    /// number above the counter.
    pub open spec fn well_formed(&self) -> bool {
        &&& self.trace@.len() > 0
        &&& newest_first(self.trace@)
        &&& self.trace@[0].index <= self.trace_counter
    }

    /// No record is missing between the oldest that is kept and the latest
    /// made: the numbers are consecutive and the newest is the counter.
    pub open spec fn is_gapless(&self) -> bool {
        &&& self.trace@.len() > 0
        &&& consecutive(self.trace@)
        &&& self.trace@[0].index == self.trace_counter
    }

    /// The body as it is spawned at `head_pos`: the history holds that one
    /// place under the number 0, and the body has the starting size.
    pub open spec fn is_spawned_at(&self, head_pos: P) -> bool {
        &&& self.head_pos == head_pos
        &&& self.trace_counter == 0
        &&& self.trace@ == seq![TraceItem { pos: head_pos, index: 0 }]
        &&& self.size == 5
    }
}

/// Spawns a body with its head at `head_pos`.
pub fn snake_model_new<P: Copy>(head_pos: P) -> (snake: SnakeModel<P>)
    ensures
        snake.is_spawned_at(head_pos),
        snake.well_formed(),
        snake.is_gapless(),
{
    let mut trace: VecDeque<TraceItem<P>> = VecDeque::new();
    trace.push_front(TraceItem { pos: head_pos, index: 0 });
    assert(trace@ =~= seq![TraceItem { pos: head_pos, index: 0 }]);
    SnakeModel { head_pos, trace_counter: 0, trace, size: 5 }
}

/// Spawns one body at each of the given head positions, in their order.
pub fn snake_head_new_list<P: Copy>(head_positions: &Vec<P>) -> (snakes: Vec<SnakeModel<P>>)
    ensures
        snakes@.len() == head_positions@.len(),
        forall|i: int|
            0 <= i < snakes@.len() ==> (#[trigger] snakes@[i]).is_spawned_at(head_positions@[i])
                && snakes@[i].well_formed(),
{
    let mut snakes: Vec<SnakeModel<P>> = Vec::new();
    let mut i: usize = 0;
    while i < head_positions.len()
        invariant
            i <= head_positions@.len(),
            snakes@.len() == i,
            forall|k: int|
                0 <= k < i ==> (#[trigger] snakes@[k]).is_spawned_at(head_positions@[k])
                    && snakes@[k].well_formed(),
        decreases head_positions@.len() - i,
    {
        snakes.push(snake_model_new(head_positions[i]));
        i += 1;
    }
    snakes
}

/// `after` is the body `before` with its head moved to `new_head_pos`, where
/// `spacing` compares the distance between `new_head_pos` and the newest
/// record with the minimum step. Where that distance is not below the minimum
/// step, the counter has risen by one and the new place is recorded at the
/// front of the history under the new count; else counter and history are as
/// they were.
pub open spec fn moved<P>(
    before: SnakeModel<P>,
    after: SnakeModel<P>,
    new_head_pos: P,
    spacing: Comparison,
) -> bool {
    &&& after.head_pos == new_head_pos
    &&& after.size == before.size
    &&& after.trace_counter == before.trace_counter + (if spacing.at_least() {
        1int
    } else {
        0int
    })
    &&& after.trace@ == appended(before.trace@, new_head_pos, after.trace_counter, spacing)
}

/// A move keeps a body well formed, and keeps its history without gaps.
pub proof fn lemma_moved_keeps_form<P>(
    before: SnakeModel<P>,
    after: SnakeModel<P>,
    new_head_pos: P,
    spacing: Comparison,
)
    requires
        moved(before, after, new_head_pos, spacing),
    ensures
        before.well_formed() ==> after.well_formed(),
        before.is_gapless() ==> after.is_gapless(),
{
    if before.well_formed() {
        lemma_appended_newest_first(before.trace@, new_head_pos, after.trace_counter, spacing);
    }
    if before.is_gapless() && spacing.at_least() {
        assert forall|i: int| 0 <= i < after.trace@.len() implies (#[trigger] after.trace@[i]).index
            == after.trace@[0].index - i by {
            if i > 0 {
                assert(after.trace@[i] == before.trace@[i - 1]);
            }
        }
    }
}

/// Puts the head of a body at `new_head_pos` and records the place where it
/// lies far enough from the newest record.
///
/// `spacing` compares the distance between `new_head_pos` and the newest
/// record with the body's minimum step. Where a record is due, the counter
/// must have room to rise.
pub fn head_move_to<P: Copy>(snake: &mut SnakeModel<P>, new_head_pos: P, spacing: Comparison)
    requires
        spacing.at_least() ==> old(snake).trace_counter < i64::MAX,
    ensures
        moved(*old(snake), *final(snake), new_head_pos, spacing),
        old(snake).well_formed() ==> final(snake).well_formed(),
        old(snake).is_gapless() ==> final(snake).is_gapless(),
{
    if spacing.is_at_least() {
        snake.trace_counter = snake.trace_counter + 1;
        snake.trace.push_front(TraceItem { pos: new_head_pos, index: snake.trace_counter });
    }
    snake.head_pos = new_head_pos;
    proof {
        lemma_moved_keeps_form(*old(snake), *snake, new_head_pos, spacing);
    }
}

/// Moves the head of a body for one tick.
///
/// The displacement is the caller's to compute: `displace` gets the head's
/// position, the factor that the drive puts on the linear speed, and the
/// position of the newest record; it gives back the head's new position and
/// how the distance from there to the newest record compares with the minimum
/// step. The body is then moved as [`head_move_to`] says.
///
/// The history must hold a record, and the counter must have room to rise
/// where a record is due.
pub fn head_move_pure<P: Copy, D>(
    keyboard_up_down_input: SnakeMoveDirection,
    snake: &mut SnakeModel<P>,
    displace: D,
) where D: Fn(P, i8, P) -> (P, Comparison)
    requires
        old(snake).trace@.len() > 0,
        call_requires(
            displace,
            (old(snake).head_pos, ratio(keyboard_up_down_input) as i8, old(snake).trace@[0].pos),
        ),
        forall|new_head_pos: P, spacing: Comparison|
            #[trigger] call_ensures(
                displace,
                (
                    old(snake).head_pos,
                    ratio(keyboard_up_down_input) as i8,
                    old(snake).trace@[0].pos,
                ),
                (new_head_pos, spacing),
            ) && spacing.at_least() ==> old(snake).trace_counter < i64::MAX,
    ensures
        exists|new_head_pos: P, spacing: Comparison|
            {
                &&& #[trigger] call_ensures(
                    displace,
                    (
                        old(snake).head_pos,
                        ratio(keyboard_up_down_input) as i8,
                        old(snake).trace@[0].pos,
                    ),
                    (new_head_pos, spacing),
                )
                &&& moved(*old(snake), *final(snake), new_head_pos, spacing)
            },
        old(snake).well_formed() ==> final(snake).well_formed(),
        old(snake).is_gapless() ==> final(snake).is_gapless(),
{
    let keyboard_up_down_input_ratio: i8 = movement_ratio(keyboard_up_down_input);
    let last_trace_point = snake.trace[0].pos;
    let (new_head_pos, spacing) = displace(
        snake.head_pos,
        keyboard_up_down_input_ratio,
        last_trace_point,
    );
    head_move_to(snake, new_head_pos, spacing);
}

/// Counts one more food eaten.
pub fn grow<P>(snake: &mut SnakeModel<P>)
    requires
        old(snake).size < i32::MAX,
    ensures
        final(snake).size == old(snake).size + 1,
        final(snake).head_pos == old(snake).head_pos,
        final(snake).trace_counter == old(snake).trace_counter,
        final(snake).trace@ == old(snake).trace@,
{
    snake.size = snake.size + 1;
}

} // verus!

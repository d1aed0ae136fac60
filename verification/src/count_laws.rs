//! The laws of the connection counts.
//!
//! Each cell changes by itself, so the steps of connections that open and close at the
//! same time may interleave in any order. The laws therefore speak of single steps.

use crate::counts::{changed, connection_steps, dec_steps, guard_drop_steps, inc_steps, kind_cell};
use crate::counts::{ConnectionCounts, ConnectionType, CountCell, CountChange, CountStep};
use vstd::multiset::Multiset;
use vstd::prelude::*;

verus! {

/// The number of values that a cell can hold.
pub open spec fn cell_range() -> int {
    usize::MAX + 1
}

/// By how much a change moves a cell.
pub open spec fn change_by(change: CountChange) -> int {
    match change {
        CountChange::Up => 1,
        CountChange::Down => -1,
        CountChange::Read => 0,
    }
}

/// By how much `steps` move `cell` in all.
pub open spec fn net_move(steps: Seq<CountStep>, cell: CountCell) -> int
    decreases steps.len(),
{
    if steps.len() == 0 {
        0
    } else {
        net_move(steps.drop_last(), cell) + (if steps.last().cell == cell {
            change_by(steps.last().change)
        } else {
            0
        })
    }
}

/// The counts of a server whose active connections are `live`.
pub open spec fn counts_of(live: Multiset<ConnectionType>) -> ConnectionCounts {
    ConnectionCounts {
        active: live.len() as usize,
        websockets: live.count(ConnectionType::WebSocket) as usize,
        streams: (live.count(ConnectionType::GrpcStream) + live.count(
            ConnectionType::ServerSentEvents,
        )) as usize,
    }
}

/// The steps of connections that open and close one after the other.
pub open spec fn visits(conn_types: Seq<ConnectionType>) -> Seq<CountStep>
    decreases conn_types.len(),
{
    if conn_types.len() == 0 {
        seq![]
    } else {
        visits(conn_types.drop_last()) + inc_steps(conn_types.last()) + dec_steps(
            conn_types.last(),
        )
    }
}

/// The steps without those that only read.
pub open spec fn without_reads(steps: Seq<CountStep>) -> Seq<CountStep>
    decreases steps.len(),
{
    if steps.len() == 0 {
        seq![]
    } else if steps.last().change == CountChange::Read {
        without_reads(steps.drop_last())
    } else {
        without_reads(steps.drop_last()).push(steps.last())
    }
}

/// The steps of one call for each of these types, all counting up or all counting down.
pub open spec fn calls(conn_types: Seq<ConnectionType>, change: CountChange) -> Seq<CountStep>
    decreases conn_types.len(),
{
    if conn_types.len() == 0 {
        seq![]
    } else {
        calls(conn_types.drop_last(), change) + connection_steps(conn_types.last(), change)
    }
}

/// How many connections of these types a cell counts.
pub open spec fn counted(conn_types: Seq<ConnectionType>, cell: CountCell) -> nat {
    let kinds = conn_types.to_multiset();
    match cell {
        CountCell::Active => conn_types.len(),
        CountCell::WebSockets => kinds.count(ConnectionType::WebSocket),
        CountCell::Streams => kinds.count(ConnectionType::GrpcStream) + kinds.count(
            ConnectionType::ServerSentEvents,
        ),
    }
}

/// A guard's life: the type it counts, and whether it is released before it is dropped.
pub struct GuardLife {
    pub conn_type: ConnectionType,
    pub released: bool,
}

/// The steps of guards that are made and dropped one after the other.
pub open spec fn guard_lives(guards: Seq<GuardLife>) -> Seq<CountStep>
    decreases guards.len(),
{
    if guards.len() == 0 {
        seq![]
    } else {
        guard_lives(guards.drop_last()) + inc_steps(guards.last().conn_type) + guard_drop_steps(
            guards.last().conn_type,
            !guards.last().released,
        )
    }
}

/// The types of the guards that are released.
pub open spec fn released_types(guards: Seq<GuardLife>) -> Seq<ConnectionType>
    decreases guards.len(),
{
    if guards.len() == 0 {
        seq![]
    } else if guards.last().released {
        released_types(guards.drop_last()).push(guards.last().conn_type)
    } else {
        released_types(guards.drop_last())
    }
}

proof fn lemma_run_one(counts: ConnectionCounts, a: CountStep)
    ensures
        counts.run(seq![a]) == counts.step(a),
{
    let steps = seq![a];
    assert(steps.drop_last() =~= Seq::<CountStep>::empty());
    reveal_with_fuel(ConnectionCounts::run, 2);
}

proof fn lemma_run_two(counts: ConnectionCounts, a: CountStep, b: CountStep)
    ensures
        counts.run(seq![a, b]) == counts.step(a).step(b),
{
    lemma_run_one(counts, a);
    assert(seq![a, b].drop_last() =~= seq![a]);
}

/// Steps upon steps lead to the counts that the later ones make of what the earlier ones
/// lead to.
pub proof fn law_runs_join(counts: ConnectionCounts, a: Seq<CountStep>, b: Seq<CountStep>)
    ensures
        counts.run(a + b) == counts.run(a).run(b),
    decreases b.len(),
{
    if b.len() == 0 {
        assert(a + b =~= a);
    } else {
        assert((a + b).drop_last() =~= a + b.drop_last());
        law_runs_join(counts, a, b.drop_last());
    }
}

/// What the steps of one connection do to the counts: the total changes, and so does the
/// count of its kind, where its type has one.
pub proof fn law_one_connection(
    counts: ConnectionCounts,
    conn_type: ConnectionType,
    change: CountChange,
)
    ensures
        counts.run(connection_steps(conn_type, change)) == (ConnectionCounts {
            active: changed(counts.active, change),
            websockets: if conn_type == ConnectionType::WebSocket {
                changed(counts.websockets, change)
            } else {
                counts.websockets
            },
            streams: if conn_type == ConnectionType::GrpcStream || conn_type
                == ConnectionType::ServerSentEvents {
                changed(counts.streams, change)
            } else {
                counts.streams
            },
        }),
{
    let total = CountStep { cell: CountCell::Active, change };
    lemma_run_one(counts, total);
    lemma_run_two(counts, total, CountStep { cell: CountCell::WebSockets, change });
    lemma_run_two(counts, total, CountStep { cell: CountCell::Streams, change });
}

proof fn lemma_changed_back(value: usize)
    ensures
        changed(changed(value, CountChange::Up), CountChange::Down) == value,
        changed(changed(value, CountChange::Down), CountChange::Up) == value,
{
}

proof fn lemma_there_and_back(
    counts: ConnectionCounts,
    conn_type: ConnectionType,
    change: CountChange,
    back: CountChange,
)
    requires
        change == CountChange::Up && back == CountChange::Down || change == CountChange::Down
            && back == CountChange::Up,
    ensures
        counts.run(connection_steps(conn_type, change)).run(connection_steps(conn_type, back))
            == counts,
{
    law_one_connection(counts, conn_type, change);
    law_one_connection(counts.run(connection_steps(conn_type, change)), conn_type, back);
    lemma_changed_back(counts.active);
    lemma_changed_back(counts.websockets);
    lemma_changed_back(counts.streams);
}

/// Closing a connection undoes what opening it did to the counts, also where a count
/// wraps around; and the other way round.
pub proof fn law_dec_undoes_inc(counts: ConnectionCounts, conn_type: ConnectionType)
    ensures
        counts.run(inc_steps(conn_type)).run(dec_steps(conn_type)) == counts,
        counts.run(dec_steps(conn_type)).run(inc_steps(conn_type)) == counts,
{
    lemma_there_and_back(counts, conn_type, CountChange::Up, CountChange::Down);
    lemma_there_and_back(counts, conn_type, CountChange::Down, CountChange::Up);
}

/// A guard that is made and dropped leaves the counts as they were. One that is released
/// in between leaves its connection counted.
pub proof fn law_guard(counts: ConnectionCounts, conn_type: ConnectionType)
    ensures
        counts.run(inc_steps(conn_type)).run(guard_drop_steps(conn_type, true)) == counts,
        counts.run(inc_steps(conn_type)).run(guard_drop_steps(conn_type, false)) == counts.run(
            inc_steps(conn_type),
        ),
{
    law_dec_undoes_inc(counts, conn_type);
}

/// What each cell holds after any steps in any order: where it stood, plus the steps up,
/// less the steps down, around the end of the type. Where that stays in range it is
/// the value itself.
pub proof fn law_cells_sum_their_steps(
    counts: ConnectionCounts,
    steps: Seq<CountStep>,
    cell: CountCell,
)
    ensures
        counts.run(steps).value(cell) == (counts.value(cell) + net_move(steps, cell))
            % cell_range(),
        0 <= counts.value(cell) + net_move(steps, cell) < cell_range() ==> counts.run(steps).value(
            cell,
        ) == counts.value(cell) + net_move(steps, cell),
    decreases steps.len(),
{
    let value = counts.value(cell) as int;
    let sum = value + net_move(steps, cell);
    if steps.len() == 0 {
        vstd::arithmetic::div_mod::lemma_small_mod(value as nat, cell_range() as nat);
    } else {
        law_cells_sum_their_steps(counts, steps.drop_last(), cell);
        let before = value + net_move(steps.drop_last(), cell);
        let held = counts.run(steps.drop_last()).value(cell) as int;
        assert(held == before % cell_range());
        if steps.last().cell == cell {
            lemma_changed(held as usize, steps.last().change);
            let by = change_by(steps.last().change);
            vstd::arithmetic::div_mod::lemma_add_mod_noop(before, by, cell_range());
            vstd::arithmetic::div_mod::lemma_add_mod_noop(held, by, cell_range());
            vstd::arithmetic::div_mod::lemma_mod_twice(before, cell_range());
        }
    }
    if 0 <= sum < cell_range() {
        vstd::arithmetic::div_mod::lemma_small_mod(sum as nat, cell_range() as nat);
    }
}

proof fn lemma_changed(value: usize, change: CountChange)
    ensures
        changed(value, change) == (value + change_by(change)) % cell_range(),
{
    let range = cell_range();
    if change == CountChange::Up && value == usize::MAX {
        vstd::arithmetic::div_mod::lemma_mod_self_0(range);
    } else if change == CountChange::Down && value == 0 {
        vstd::arithmetic::div_mod::lemma_small_mod((range - 1) as nat, range as nat);
        vstd::arithmetic::div_mod::lemma_mod_add_multiples_vanish(-1, range);
    } else {
        vstd::arithmetic::div_mod::lemma_small_mod(changed(value, change) as nat, range as nat);
    }
}

proof fn lemma_net_move_counts(steps: Seq<CountStep>, cell: CountCell)
    ensures
        net_move(steps, cell) == steps.to_multiset().count(
            CountStep { cell, change: CountChange::Up },
        ) - steps.to_multiset().count(CountStep { cell, change: CountChange::Down }),
    decreases steps.len(),
{
    broadcast use vstd::seq_lib::group_to_multiset_ensures;

    if steps.len() > 0 {
        lemma_net_move_counts(steps.drop_last(), cell);
        assert(steps =~= steps.drop_last().push(steps.last()));
    }
}

/// The counts do not depend on the order in which the steps interleave: the same steps in
/// another order lead to the same counts.
pub proof fn law_order_does_not_matter(
    counts: ConnectionCounts,
    steps: Seq<CountStep>,
    others: Seq<CountStep>,
)
    requires
        steps.to_multiset() == others.to_multiset(),
    ensures
        counts.run(steps) == counts.run(others),
{
    assert forall|cell: CountCell| counts.run(steps).value(cell) == #[trigger] counts.run(
        others,
    ).value(cell) by {
        lemma_net_move_counts(steps, cell);
        lemma_net_move_counts(others, cell);
        law_cells_sum_their_steps(counts, steps, cell);
        law_cells_sum_their_steps(counts, others, cell);
    }
    assert(counts.run(steps).value(CountCell::Active) == counts.run(others).value(
        CountCell::Active,
    ));
    assert(counts.run(steps).value(CountCell::WebSockets) == counts.run(others).value(
        CountCell::WebSockets,
    ));
    assert(counts.run(steps).value(CountCell::Streams) == counts.run(others).value(
        CountCell::Streams,
    ));
}

proof fn lemma_visits(counts: ConnectionCounts, conn_types: Seq<ConnectionType>)
    ensures
        counts.run(visits(conn_types)) == counts,
    decreases conn_types.len(),
{
    if conn_types.len() > 0 {
        let earlier = visits(conn_types.drop_last());
        let opening = inc_steps(conn_types.last());
        let closing = dec_steps(conn_types.last());
        lemma_visits(counts, conn_types.drop_last());
        law_runs_join(counts, earlier, opening);
        law_runs_join(counts, earlier + opening, closing);
        law_dec_undoes_inc(counts, conn_types.last());
    }
}

/// Connections that open and close, on any number of threads and however their steps
/// interleave, with reads anywhere among them, leave all the counts as they were.
pub proof fn law_balanced_connections_leave_no_trace(
    counts: ConnectionCounts,
    conn_types: Seq<ConnectionType>,
    steps: Seq<CountStep>,
)
    requires
        without_reads(steps).to_multiset() == visits(conn_types).to_multiset(),
    ensures
        counts.run(steps) == counts,
{
    law_reads_change_nothing(counts, steps);
    law_order_does_not_matter(counts, without_reads(steps), visits(conn_types));
    lemma_visits(counts, conn_types);
}

/// Steps that only read lead to no other counts.
pub proof fn law_reads_change_nothing(counts: ConnectionCounts, steps: Seq<CountStep>)
    ensures
        counts.run(without_reads(steps)) == counts.run(steps),
    decreases steps.len(),
{
    if steps.len() > 0 {
        law_reads_change_nothing(counts, steps.drop_last());
        let changes = without_reads(steps.drop_last());
        assert(changes.push(steps.last()).drop_last() =~= changes);
    }
}

proof fn lemma_net_move_concat(a: Seq<CountStep>, b: Seq<CountStep>, cell: CountCell)
    ensures
        net_move(a + b, cell) == net_move(a, cell) + net_move(b, cell),
    decreases b.len(),
{
    if b.len() == 0 {
        assert(a + b =~= a);
    } else {
        assert((a + b).drop_last() =~= a + b.drop_last());
        lemma_net_move_concat(a, b.drop_last(), cell);
    }
}

proof fn lemma_net_move_connection(
    conn_type: ConnectionType,
    change: CountChange,
    cell: CountCell,
)
    ensures
        net_move(connection_steps(conn_type, change), cell) == (if cell == CountCell::Active
            || kind_cell(conn_type) == Some(cell) {
            change_by(change)
        } else {
            0
        }),
{
    let steps = connection_steps(conn_type, change);
    reveal_with_fuel(net_move, 3);
    if steps.len() == 2 {
        assert(steps.drop_last() =~= seq![CountStep { cell: CountCell::Active, change }]);
        assert(steps.drop_last().drop_last() =~= Seq::<CountStep>::empty());
    } else {
        assert(steps.drop_last() =~= Seq::<CountStep>::empty());
    }
}

proof fn lemma_net_move_calls(
    conn_types: Seq<ConnectionType>,
    change: CountChange,
    cell: CountCell,
)
    ensures
        change == CountChange::Up ==> net_move(calls(conn_types, change), cell) == counted(
            conn_types,
            cell,
        ),
        change == CountChange::Down ==> net_move(calls(conn_types, change), cell) == -counted(
            conn_types,
            cell,
        ),
    decreases conn_types.len(),
{
    broadcast use vstd::seq_lib::group_to_multiset_ensures;

    if conn_types.len() > 0 {
        let earlier = conn_types.drop_last();
        let last = conn_types.last();
        lemma_net_move_calls(earlier, change, cell);
        lemma_net_move_concat(calls(earlier, change), connection_steps(last, change), cell);
        lemma_net_move_connection(last, change, cell);
        assert(conn_types =~= earlier.push(last));
    }
}

/// No call is lost, whatever the interleaving: after one call up for each type in `opened`
/// and one call down for each in `closed`, with reads anywhere among them, each cell holds
/// where it stood, plus the opened connections it counts, less the closed ones, around
/// the end of the type. Where that stays in range it is the value itself.
pub proof fn law_no_call_is_lost(
    counts: ConnectionCounts,
    steps: Seq<CountStep>,
    opened: Seq<ConnectionType>,
    closed: Seq<ConnectionType>,
    cell: CountCell,
)
    requires
        without_reads(steps).to_multiset() == (calls(opened, CountChange::Up) + calls(
            closed,
            CountChange::Down,
        )).to_multiset(),
    ensures
        counts.run(steps).value(cell) == (counts.value(cell) + counted(opened, cell) - counted(
            closed,
            cell,
        )) % cell_range(),
        0 <= counts.value(cell) + counted(opened, cell) - counted(closed, cell) < cell_range()
            ==> counts.run(steps).value(cell) == counts.value(cell) + counted(opened, cell)
            - counted(closed, cell),
{
    let ups = calls(opened, CountChange::Up);
    let downs = calls(closed, CountChange::Down);
    law_reads_change_nothing(counts, steps);
    law_order_does_not_matter(counts, without_reads(steps), ups + downs);
    law_cells_sum_their_steps(counts, ups + downs, cell);
    lemma_net_move_concat(ups, downs, cell);
    lemma_net_move_calls(opened, CountChange::Up, cell);
    lemma_net_move_calls(closed, CountChange::Down, cell);
}

/// Guards that are made and dropped leave one connection counted for each that was released,
/// of its own type, and no other.
pub proof fn law_guards(counts: ConnectionCounts, guards: Seq<GuardLife>)
    ensures
        counts.run(guard_lives(guards)) == counts.run(
            calls(released_types(guards), CountChange::Up),
        ),
    decreases guards.len(),
{
    if guards.len() > 0 {
        let earlier = guards.drop_last();
        let last = guards.last();
        let opening = inc_steps(last.conn_type);
        let closing = guard_drop_steps(last.conn_type, !last.released);
        law_guards(counts, earlier);
        law_runs_join(counts, guard_lives(earlier), opening);
        law_runs_join(counts, guard_lives(earlier) + opening, closing);
        law_guard(counts.run(guard_lives(earlier)), last.conn_type);
        if last.released {
            let kept = released_types(earlier);
            law_runs_join(counts, calls(kept, CountChange::Up), opening);
            assert(kept.push(last.conn_type).drop_last() =~= kept);
        }
    }
}

proof fn lemma_kinds_sum(live: Multiset<ConnectionType>)
    ensures
        live.len() == live.count(ConnectionType::Http) + live.count(ConnectionType::WebSocket)
            + live.count(ConnectionType::GrpcStream) + live.count(
            ConnectionType::ServerSentEvents,
        ),
    decreases live.len(),
{
    broadcast use vstd::multiset::group_multiset_axioms;

    if live.len() > 0 {
        let one = live.choose();
        lemma_kinds_sum(live.remove(one));
    } else {
        assert(live =~= Multiset::empty());
    }
}

/// The counts say how many connections of each kind are active: they are zero where there
/// is none; counting one more or one less connection keeps them right, as long as the
/// active connections can be counted; the HTTP connections are those of type `Http`;
/// all kinds together are the active connections; and there are long-lived ones
/// where some connection is not an HTTP one.
pub proof fn law_counts_of_live_connections(
    live: Multiset<ConnectionType>,
    conn_type: ConnectionType,
)
    requires
        live.len() <= usize::MAX,
    ensures
        counts_of(Multiset::empty()) == ConnectionCounts::zero(),
        live.len() < usize::MAX ==> counts_of(live).run(inc_steps(conn_type)) == counts_of(
            live.insert(conn_type),
        ),
        live.count(conn_type) > 0 ==> counts_of(live).run(dec_steps(conn_type)) == counts_of(
            live.remove(conn_type),
        ),
        counts_of(live).active == live.len(),
        counts_of(live).websockets == live.count(ConnectionType::WebSocket),
        counts_of(live).streams == live.count(ConnectionType::GrpcStream) + live.count(
            ConnectionType::ServerSentEvents,
        ),
        counts_of(live).http() == live.count(ConnectionType::Http),
        counts_of(live).http() + counts_of(live).websockets + counts_of(live).streams == counts_of(
            live,
        ).active,
        counts_of(live).long_lived() <==> exists|other: ConnectionType|
            other != ConnectionType::Http && #[trigger] live.count(other) > 0,
{
    broadcast use vstd::multiset::group_multiset_axioms;

    lemma_kinds_sum(live);
    law_one_connection(counts_of(live), conn_type, CountChange::Up);
    law_one_connection(counts_of(live), conn_type, CountChange::Down);
}

} // verus!

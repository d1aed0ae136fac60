//! The laws of calls on a connection counter.
//!
//! They speak of the operations in access logs. Where all the operations on a counter are
//! known, in the order in which its cells saw them, whoever performed them, the counts
//! follow: no operation finds a cell that another one has changed unseen.

use crate::cells::{held, CellAccess};
use crate::connection_counter::ConnectionCounter;
use crate::count_laws::{calls, cell_range, counted, counts_of, guard_lives, released_types};
use crate::count_laws::{law_balanced_connections_leave_no_trace, law_counts_of_live_connections};
use crate::count_laws::{law_dec_undoes_inc, law_guard, law_guards, law_no_call_is_lost};
use crate::count_laws::{law_one_connection, law_order_does_not_matter};
use crate::count_laws::{law_reads_change_nothing, law_runs_join};
use crate::count_laws::{visits, without_reads, GuardLife};
use crate::counts::{changed, connection_steps, dec_steps, guard_drop_steps, inc_steps};
use crate::counts::{read_step, read_steps};
use crate::counts::{ConnectionCounts, ConnectionType, CountCell, CountChange, CountStep};
use vstd::multiset::Multiset;
use vstd::prelude::*;

verus! {

/// Operations that follow one upon the other make up the steps of both.
pub proof fn law_logs_join(
    counter: ConnectionCounter,
    made: Seq<CellAccess>,
    steps: Seq<CountStep>,
    more: Seq<CellAccess>,
    more_steps: Seq<CountStep>,
)
    requires
        counter.made_of(made, steps),
        counter.made_of(more, more_steps),
    ensures
        counter.made_of(made + more, steps + more_steps),
{
    let all = made + more;
    assert forall|i: int| 0 <= i < all.len() implies (#[trigger] all[i]).cell == counter.cell(
        (steps + more_steps)[i].cell,
    ) && all[i].after == changed(all[i].before, (steps + more_steps)[i].change) by {
        if i < made.len() {
            assert(all[i] == made[i]);
        } else {
            assert(all[i] == more[i - made.len()]);
        }
    }
}

/// A log that held the operations of some steps, and went on with others, holds those of both.
pub proof fn law_logs_grow(
    counter: ConnectionCounter,
    earlier: Seq<CellAccess>,
    steps: Seq<CountStep>,
    later: Seq<CellAccess>,
    more_steps: Seq<CountStep>,
)
    requires
        counter.made_of(earlier, steps),
        counter.logged(earlier, later, more_steps),
    ensures
        counter.made_of(later, steps + more_steps),
{
    let more = later.skip(earlier.len() as int);
    assert(later =~= earlier + more);
    law_logs_join(counter, earlier, steps, more, more_steps);
}

/// The first operations of a log make up the first steps, undisturbed as well.
proof fn lemma_prefix(
    counter: ConnectionCounter,
    start: ConnectionCounts,
    made: Seq<CellAccess>,
    steps: Seq<CountStep>,
    n: int,
)
    requires
        counter.made_of(made, steps),
        counter.undisturbed(start, made),
        0 <= n <= made.len(),
    ensures
        counter.made_of(made.take(n), steps.take(n)),
        counter.undisturbed(start, made.take(n)),
{
    let made0 = made.take(n);
    assert forall|i: int| 0 <= i < made0.len() implies (#[trigger] made0[i]).cell == counter.cell(
        steps.take(n)[i].cell,
    ) && made0[i].after == changed(made0[i].before, steps.take(n)[i].change) by {
        assert(made0[i] == made[i]);
    }
    assert forall|i: int, cell: CountCell|
        0 <= i < made0.len() && #[trigger] made0[i].cell == #[trigger] counter.cell(
            cell,
        ) implies made0[i].before == held(
        made0.take(i),
        counter.cell(cell),
        start.value(cell),
    ) by {
        assert(made[i].cell == counter.cell(cell));
        assert(made0.take(i) =~= made.take(i));
    }
}

/// What one more operation does to the counts that are left.
proof fn lemma_left_step(
    counter: ConnectionCounter,
    start: ConnectionCounts,
    made: Seq<CellAccess>,
    step: CountStep,
)
    requires
        made.len() > 0,
        counter.cells_differ(),
        made.last().cell == counter.cell(step.cell),
        made.last().before == held(
            made.drop_last(),
            counter.cell(step.cell),
            start.value(step.cell),
        ),
        made.last().after == changed(made.last().before, step.change),
    ensures
        counter.left(start, made) == counter.left(start, made.drop_last()).step(step),
{
    let active = counter.cell(CountCell::Active);
    let websockets = counter.cell(CountCell::WebSockets);
    let streams = counter.cell(CountCell::Streams);
    assert(active != websockets && active != streams && websockets != streams);
}

proof fn lemma_left_is_run(
    counter: ConnectionCounter,
    start: ConnectionCounts,
    made: Seq<CellAccess>,
    steps: Seq<CountStep>,
)
    requires
        counter.cells_differ(),
        counter.made_of(made, steps),
        counter.undisturbed(start, made),
    ensures
        counter.left(start, made) == start.run(steps),
    decreases made.len(),
{
    if made.len() > 0 {
        let n = made.len() - 1;
        assert(made.take(n) =~= made.drop_last());
        assert(steps.take(n) =~= steps.drop_last());
        lemma_prefix(counter, start, made, steps, n);
        lemma_left_is_run(counter, start, made.drop_last(), steps.drop_last());
        assert(made[n].cell == counter.cell(steps[n].cell));
        lemma_left_step(counter, start, made, steps.last());
    }
}

/// Where the operations of some steps are all that was done to a counter, the counts after
/// them are what the steps make of the counts before; and each operation found and left
/// what the steps up to it make of them. So a count that is read is the count.
pub proof fn law_undisturbed_counts(
    counter: ConnectionCounter,
    start: ConnectionCounts,
    made: Seq<CellAccess>,
    steps: Seq<CountStep>,
)
    requires
        counter.cells_differ(),
        counter.made_of(made, steps),
        counter.undisturbed(start, made),
    ensures
        counter.left(start, made) == start.run(steps),
        forall|i: int|
            #![trigger made[i]]
            0 <= i < made.len() ==> made[i].before == start.run(steps.take(i)).value(steps[i].cell)
                && made[i].after == start.run(steps.take(i + 1)).value(steps[i].cell),
{
    lemma_left_is_run(counter, start, made, steps);
    assert forall|i: int|
        #![trigger made[i]]
        0 <= i < made.len() implies made[i].before == start.run(steps.take(i)).value(steps[i].cell)
        && made[i].after == start.run(steps.take(i + 1)).value(steps[i].cell) by {
        lemma_found_and_left(counter, start, made, steps, i);
    }
}

proof fn lemma_found_and_left(
    counter: ConnectionCounter,
    start: ConnectionCounts,
    made: Seq<CellAccess>,
    steps: Seq<CountStep>,
    i: int,
)
    requires
        counter.cells_differ(),
        counter.made_of(made, steps),
        counter.undisturbed(start, made),
        0 <= i < made.len(),
    ensures
        made[i].before == start.run(steps.take(i)).value(steps[i].cell),
        made[i].after == start.run(steps.take(i + 1)).value(steps[i].cell),
{
    lemma_prefix(counter, start, made, steps, i);
    lemma_left_is_run(counter, start, made.take(i), steps.take(i));
    assert(made[i].cell == counter.cell(steps[i].cell));
    assert(made[i].before == counter.left(start, made.take(i)).value(steps[i].cell));
    assert(steps.take(i + 1).drop_last() =~= steps.take(i));
}

/// A count that is read after the operations of some steps, where nothing else is done to
/// the counter, is what the steps make of it.
pub proof fn law_undisturbed_read(
    counter: ConnectionCounter,
    start: ConnectionCounts,
    made: Seq<CellAccess>,
    steps: Seq<CountStep>,
    cell: CountCell,
)
    requires
        counter.cells_differ(),
        counter.made_of(made, steps.push(read_step(cell))),
        counter.undisturbed(start, made),
    ensures
        made.last().before == start.run(steps).value(cell),
        counter.left(start, made) == start.run(steps),
{
    let all = steps.push(read_step(cell));
    law_undisturbed_counts(counter, start, made, all);
    assert(made[made.len() - 1].before == start.run(all.take(made.len() - 1)).value(cell));
    assert(all.take(made.len() - 1) =~= steps);
    assert(all.drop_last() =~= steps);
}

/// A call that counts one connection more or less, with nothing else done to the counter,
/// changes the total, and the count of the connection's kind, where its type has one;
/// and leaves the other counts alone.
pub proof fn law_one_call(
    counter: ConnectionCounter,
    start: ConnectionCounts,
    made: Seq<CellAccess>,
    conn_type: ConnectionType,
    change: CountChange,
)
    requires
        counter.cells_differ(),
        counter.made_of(made, connection_steps(conn_type, change)),
        counter.undisturbed(start, made),
    ensures
        counter.left(start, made) == (ConnectionCounts {
            active: changed(start.active, change),
            websockets: if conn_type == ConnectionType::WebSocket {
                changed(start.websockets, change)
            } else {
                start.websockets
            },
            streams: if conn_type == ConnectionType::GrpcStream || conn_type
                == ConnectionType::ServerSentEvents {
                changed(start.streams, change)
            } else {
                start.streams
            },
        }),
{
    law_undisturbed_counts(counter, start, made, connection_steps(conn_type, change));
    law_one_connection(start, conn_type, change);
}

/// `inc` and then `dec` of one type, with nothing else done to the counter, leave the counts
/// as they were.
pub proof fn law_inc_and_dec_calls(
    counter: ConnectionCounter,
    start: ConnectionCounts,
    made: Seq<CellAccess>,
    conn_type: ConnectionType,
)
    requires
        counter.cells_differ(),
        counter.made_of(made, inc_steps(conn_type) + dec_steps(conn_type)),
        counter.undisturbed(start, made),
    ensures
        counter.left(start, made) == start,
{
    law_undisturbed_counts(counter, start, made, inc_steps(conn_type) + dec_steps(conn_type));
    law_runs_join(start, inc_steps(conn_type), dec_steps(conn_type));
    law_dec_undoes_inc(start, conn_type);
}

/// All that a guard does to its counter in its life, with nothing else done to the counter,
/// leaves the counts as they were; or, if the guard was released, leaves its connection
/// counted once.
pub proof fn law_guard_calls(
    counter: ConnectionCounter,
    start: ConnectionCounts,
    made: Seq<CellAccess>,
    conn_type: ConnectionType,
    armed: bool,
)
    requires
        counter.cells_differ(),
        counter.made_of(made, inc_steps(conn_type) + guard_drop_steps(conn_type, armed)),
        counter.undisturbed(start, made),
    ensures
        armed ==> counter.left(start, made) == start,
        !armed ==> counter.left(start, made) == start.run(inc_steps(conn_type)),
{
    let steps = inc_steps(conn_type) + guard_drop_steps(conn_type, armed);
    law_undisturbed_counts(counter, start, made, steps);
    law_runs_join(start, inc_steps(conn_type), guard_drop_steps(conn_type, armed));
    law_guard(start, conn_type);
}

/// Where the counts are those of the live connections, they still are after a call that
/// counts one more, or one less of a type that is live, with nothing else done to
/// the counter; as long as the connections can be counted.
pub proof fn law_calls_count_live_connections(
    counter: ConnectionCounter,
    live: Multiset<ConnectionType>,
    made: Seq<CellAccess>,
    conn_type: ConnectionType,
)
    requires
        counter.cells_differ(),
        live.len() <= usize::MAX,
        counter.undisturbed(counts_of(live), made),
    ensures
        live.len() < usize::MAX && counter.made_of(made, inc_steps(conn_type)) ==> counter.left(
            counts_of(live),
            made,
        ) == counts_of(live.insert(conn_type)),
        live.count(conn_type) > 0 && counter.made_of(made, dec_steps(conn_type)) ==> counter.left(
            counts_of(live),
            made,
        ) == counts_of(live.remove(conn_type)),
{
    law_counts_of_live_connections(live, conn_type);
    if counter.made_of(made, inc_steps(conn_type)) {
        law_undisturbed_counts(counter, counts_of(live), made, inc_steps(conn_type));
    }
    if counter.made_of(made, dec_steps(conn_type)) {
        law_undisturbed_counts(counter, counts_of(live), made, dec_steps(conn_type));
    }
}

/// Connections that open and close, on any number of threads and however their operations
/// interleave, with reads anywhere among them and nothing else done to the counter, leave
/// the counts as they were.
pub proof fn law_balanced_calls(
    counter: ConnectionCounter,
    start: ConnectionCounts,
    made: Seq<CellAccess>,
    steps: Seq<CountStep>,
    conn_types: Seq<ConnectionType>,
)
    requires
        counter.cells_differ(),
        counter.made_of(made, steps),
        counter.undisturbed(start, made),
        without_reads(steps).to_multiset() == visits(conn_types).to_multiset(),
    ensures
        counter.left(start, made) == start,
{
    law_undisturbed_counts(counter, start, made, steps);
    law_balanced_connections_leave_no_trace(start, conn_types, steps);
}

/// No call is lost: after one call up for each type in `opened` and one call down for each in
/// `closed`, on any number of threads and however their operations interleave, with reads
/// anywhere among them and nothing else done to the counter, each count is where it
/// stood, plus the opened connections it counts, less the closed ones, around the
/// end of the type. Where that stays in range it is the count itself.
pub proof fn law_interleaved_calls(
    counter: ConnectionCounter,
    start: ConnectionCounts,
    made: Seq<CellAccess>,
    steps: Seq<CountStep>,
    opened: Seq<ConnectionType>,
    closed: Seq<ConnectionType>,
    cell: CountCell,
)
    requires
        counter.cells_differ(),
        counter.made_of(made, steps),
        counter.undisturbed(start, made),
        without_reads(steps).to_multiset() == (calls(opened, CountChange::Up) + calls(
            closed,
            CountChange::Down,
        )).to_multiset(),
    ensures
        counter.left(start, made).value(cell) == (start.value(cell) + counted(opened, cell)
            - counted(closed, cell)) % cell_range(),
        0 <= start.value(cell) + counted(opened, cell) - counted(closed, cell) < cell_range()
            ==> counter.left(start, made).value(cell) == start.value(cell) + counted(opened, cell)
            - counted(closed, cell),
{
    law_undisturbed_counts(counter, start, made, steps);
    law_no_call_is_lost(start, steps, opened, closed, cell);
}

/// Guards, some of them released, that are made and dropped in any order and on any number of
/// threads, with reads anywhere among their operations and nothing else done to the counter,
/// leave the counts that one `inc` for each released guard makes of those before. With none
/// released, the counts are as before.
pub proof fn law_many_guards(
    counter: ConnectionCounter,
    start: ConnectionCounts,
    made: Seq<CellAccess>,
    steps: Seq<CountStep>,
    guards: Seq<GuardLife>,
)
    requires
        counter.cells_differ(),
        counter.made_of(made, steps),
        counter.undisturbed(start, made),
        without_reads(steps).to_multiset() == guard_lives(guards).to_multiset(),
    ensures
        counter.left(start, made) == start.run(calls(released_types(guards), CountChange::Up)),
        released_types(guards).len() == 0 ==> counter.left(start, made) == start,
{
    law_undisturbed_counts(counter, start, made, steps);
    law_reads_change_nothing(start, steps);
    law_order_does_not_matter(start, without_reads(steps), guard_lives(guards));
    law_guards(start, guards);
}

/// The counts of a new counter follow from its operations alone: where these are all that was
/// done to it since it was made, its counts are what the steps make of zero, and so is
/// every count that is read.
pub proof fn law_new_counter(
    counter: ConnectionCounter,
    made: Seq<CellAccess>,
    steps: Seq<CountStep>,
)
    requires
        counter.cells_differ(),
        counter.created_with(ConnectionCounts::zero()),
        counter.made_of(made, steps),
        counter.undisturbed_since_made(made),
    ensures
        counter.left(ConnectionCounts::zero(), made) == ConnectionCounts::zero().run(steps),
        forall|i: int|
            #![trigger made[i]]
            0 <= i < made.len() ==> made[i].before == ConnectionCounts::zero().run(
                steps.take(i),
            ).value(steps[i].cell),
        steps == read_steps() ==> made[0].before == 0 && made[1].before == 0 && made[2].before
            == 0,
{
    let zero = ConnectionCounts::zero();
    law_undisturbed_counts(counter, zero, made, steps);
    if steps == read_steps() {
        assert forall|i: int| 0 <= i < 3 implies (#[trigger] made[i]).before == 0 by {
            lemma_reads_run(zero, steps.take(i));
        }
    }
}

proof fn lemma_reads_run(counts: ConnectionCounts, steps: Seq<CountStep>)
    requires
        forall|i: int| 0 <= i < steps.len() ==> (#[trigger] steps[i]).change == CountChange::Read,
    ensures
        counts.run(steps) == counts,
    decreases steps.len(),
{
    if steps.len() > 0 {
        assert(steps[steps.len() - 1].change == CountChange::Read);
        assert forall|i: int| 0 <= i < steps.drop_last().len() implies (
        #[trigger] steps.drop_last()[i]).change == CountChange::Read by {
            assert(steps.drop_last()[i] == steps[i]);
        }
        lemma_reads_run(counts, steps.drop_last());
    }
}

/// The three counts that are read after the operations of some steps, with nothing else done
/// to the counter, are the counts that those operations left, and reading leaves them so.
#[verifier::rlimit(40)]
pub proof fn law_undisturbed_reads(
    counter: ConnectionCounter,
    start: ConnectionCounts,
    made: Seq<CellAccess>,
    steps: Seq<CountStep>,
    reads: Seq<CellAccess>,
)
    requires
        counter.cells_differ(),
        counter.made_of(made, steps),
        counter.made_of(reads, read_steps()),
        counter.undisturbed(start, made + reads),
    ensures
        counter.undisturbed(start, made),
        counter.left(start, made) == start.run(steps),
        counter.left(start, made + reads) == counter.left(start, made),
        reads[0].before == counter.left(start, made).active,
        reads[1].before == counter.left(start, made).websockets,
        reads[2].before == counter.left(start, made).streams,
{
    let all = made + reads;
    let all_steps = steps + read_steps();
    assert(counter.made_of(all, all_steps)) by {
        law_logs_join(counter, made, steps, reads, read_steps());
    }
    assert(counter.undisturbed(start, made)) by {
        lemma_prefix(counter, start, all, all_steps, made.len() as int);
        assert(all.take(made.len() as int) =~= made);
    }
    assert(counter.left(start, made) == start.run(steps)) by {
        lemma_left_is_run(counter, start, made, steps);
    }
    assert(counter.left(start, all) == start.run(steps)) by {
        lemma_left_is_run(counter, start, all, all_steps);
        law_runs_join(start, steps, read_steps());
        lemma_reads_run(start.run(steps), read_steps());
    }
    assert(reads[0].before == start.run(steps).active) by {
        lemma_read_after(counter, start, made, steps, reads, 0);
    }
    assert(reads[1].before == start.run(steps).websockets) by {
        lemma_read_after(counter, start, made, steps, reads, 1);
    }
    assert(reads[2].before == start.run(steps).streams) by {
        lemma_read_after(counter, start, made, steps, reads, 2);
    }
}

proof fn lemma_read_after(
    counter: ConnectionCounter,
    start: ConnectionCounts,
    made: Seq<CellAccess>,
    steps: Seq<CountStep>,
    reads: Seq<CellAccess>,
    i: int,
)
    requires
        counter.cells_differ(),
        counter.made_of(made, steps),
        counter.made_of(reads, read_steps()),
        counter.undisturbed(start, made + reads),
        0 <= i < 3,
    ensures
        reads[i].before == start.run(steps).value(read_steps()[i].cell),
{
    let all = made + reads;
    let all_steps = steps + read_steps();
    let n = made.len() as int;
    law_logs_join(counter, made, steps, reads, read_steps());
    lemma_found_and_left(counter, start, all, all_steps, n + i);
    assert(all[n + i] == reads[i]);
    assert(all_steps[n + i] == read_steps()[i]);
    assert(all_steps.take(n + i) =~= steps + read_steps().take(i));
    law_runs_join(start, steps, read_steps().take(i));
    lemma_reads_run(start.run(steps), read_steps().take(i));
}

/// A clone shares the counts: a call through it shows in the counter it was cloned from as if
/// made there, and the two then read the same counts, with nothing else done to them.
pub proof fn law_clones_share(
    counter: ConnectionCounter,
    clone: ConnectionCounter,
    start: ConnectionCounts,
    made: Seq<CellAccess>,
    counter_reads: Seq<CellAccess>,
    clone_reads: Seq<CellAccess>,
    conn_type: ConnectionType,
    change: CountChange,
)
    requires
        clone == counter,
        counter.cells_differ(),
        clone.made_of(made, connection_steps(conn_type, change)),
        counter.made_of(counter_reads, read_steps()),
        clone.made_of(clone_reads, read_steps()),
        counter.undisturbed(start, made + counter_reads + clone_reads),
    ensures
        counter.left(start, made) == start.run(connection_steps(conn_type, change)),
        counter.left(start, made).active == changed(start.active, change),
        counter_reads[0].before == counter.left(start, made).active,
        counter_reads[1].before == counter.left(start, made).websockets,
        counter_reads[2].before == counter.left(start, made).streams,
        clone_reads[0].before == counter_reads[0].before,
        clone_reads[1].before == counter_reads[1].before,
        clone_reads[2].before == counter_reads[2].before,
{
    let steps = connection_steps(conn_type, change);
    let first = made + counter_reads;
    law_logs_join(counter, made, steps, counter_reads, read_steps());
    law_undisturbed_reads(counter, start, first, steps + read_steps(), clone_reads);
    law_undisturbed_reads(counter, start, made, steps, counter_reads);
    law_one_call(counter, start, made, conn_type, change);
}

/// A counter that is made with a log in which another one was read has no cell in common
/// with it.
pub proof fn law_new_counters_are_separate(
    earlier: ConnectionCounter,
    before: Seq<CellAccess>,
    log: Seq<CellAccess>,
    newer: ConnectionCounter,
)
    requires
        earlier.logged(before, log, read_steps()),
        newer.is_new_to(log),
    ensures
        newer.shares_nothing_with(earlier),
        earlier.shares_nothing_with(newer),
{
    let reads = log.skip(before.len() as int);
    assert forall|a: CountCell, b: CountCell| #[trigger] newer.cell(a) != #[trigger] earlier.cell(
        b,
    ) by {
        let i: int = match b {
            CountCell::Active => 0,
            CountCell::WebSockets => 1,
            CountCell::Streams => 2,
        };
        assert(reads[i].cell == earlier.cell(b));
        assert(log[before.len() + i] == reads[i]);
    }
}

/// Counters without a common cell share no state: whatever is done to the one leaves the
/// counts of the other alone, and does not disturb it.
pub proof fn law_separate_counters(
    counter: ConnectionCounter,
    other: ConnectionCounter,
    start: ConnectionCounts,
    made: Seq<CellAccess>,
    other_made: Seq<CellAccess>,
    other_steps: Seq<CountStep>,
)
    requires
        counter.shares_nothing_with(other),
        other.made_of(other_made, other_steps),
    ensures
        counter.left(start, made + other_made) == counter.left(start, made),
        counter.undisturbed(start, made) ==> counter.undisturbed(start, made + other_made),
    decreases other_made.len(),
{
    if other_made.len() == 0 {
        assert(made + other_made =~= made);
    } else {
        let n = other_made.len() - 1;
        let all = made + other_made;
        let before = made + other_made.drop_last();
        assert(all.drop_last() =~= before);
        assert(other.made_of(other_made.drop_last(), other_steps.drop_last())) by {
            assert forall|i: int| 0 <= i < n implies (#[trigger] other_made.drop_last()[i]).cell
                == other.cell(other_steps.drop_last()[i].cell)
                && other_made.drop_last()[i].after == changed(
                other_made.drop_last()[i].before,
                other_steps.drop_last()[i].change,
            ) by {
                assert(other_made.drop_last()[i] == other_made[i]);
            }
        }
        law_separate_counters(
            counter,
            other,
            start,
            made,
            other_made.drop_last(),
            other_steps.drop_last(),
        );
        assert(other_made[n].cell == other.cell(other_steps[n].cell));
        assert(all.last() == other_made[n]);
        assert(counter.cell(CountCell::Active) != all.last().cell);
        assert(counter.cell(CountCell::WebSockets) != all.last().cell);
        assert(counter.cell(CountCell::Streams) != all.last().cell);
        if counter.undisturbed(start, made) {
            assert forall|i: int, cell: CountCell|
                0 <= i < all.len() && #[trigger] all[i].cell == #[trigger] counter.cell(
                    cell,
                ) implies all[i].before == held(
                all.take(i),
                counter.cell(cell),
                start.value(cell),
            ) by {
                if i < before.len() {
                    assert(before[i].cell == counter.cell(cell));
                    assert(before.take(i) =~= all.take(i));
                }
            }
        }
    }
}

} // verus!

//! The laws of counting, in terms of single atomic operations and plain numbers.

use crate::cells::{cell_added, cell_created, cell_loaded, cell_subtracted, held, CellAccess};
use crate::connection_counter::ConnectionCounter;
use crate::counts::{changed, dec_steps, guard_drop_steps, inc_steps, read_step, read_steps};
use crate::counts::{ConnectionCounts, ConnectionType, CountCell, CountChange, CountStep};
use std::sync::atomic::AtomicUsize;
use vstd::prelude::*;

verus! {

/// `after` is one more than `before`, and zero where that is the largest number of the type.
pub open spec fn one_more(before: usize, after: usize) -> bool {
    if before == usize::MAX {
        after == 0
    } else {
        after == before + 1
    }
}

/// The operation found a number in the cell and left one more there.
pub open spec fn goes_up(access: CellAccess, cell: AtomicUsize) -> bool {
    access.cell == cell && one_more(access.before, access.after)
}

/// The operation found a number in the cell and left one less there.
pub open spec fn goes_down(access: CellAccess, cell: AtomicUsize) -> bool {
    access.cell == cell && one_more(access.after, access.before)
}

/// The operation left in the cell what it found.
pub open spec fn stays(access: CellAccess, cell: AtomicUsize) -> bool {
    access.cell == cell && access.before == access.after
}

/// What was in the log is still there, and `n` operations came after it.
pub open spec fn goes_on(earlier: Seq<CellAccess>, later: Seq<CellAccess>, n: int) -> bool {
    &&& later.len() == earlier.len() + n
    &&& forall|i: int| 0 <= i < earlier.len() ==> #[trigger] later[i] == earlier[i]
}

/// What each change makes of a number.
proof fn lemma_changed(value: usize)
    ensures
        one_more(value, changed(value, CountChange::Up)),
        one_more(changed(value, CountChange::Down), value),
        changed(value, CountChange::Read) == value,
{
}

/// The entries that a log went on with, in terms of the log itself.
proof fn lemma_entry(
    counter: ConnectionCounter,
    earlier: Seq<CellAccess>,
    later: Seq<CellAccess>,
    steps: Seq<CountStep>,
    i: int,
)
    requires
        counter.logged(earlier, later, steps),
        0 <= i < steps.len(),
    ensures
        goes_on(earlier, later, steps.len() as int),
        later[earlier.len() + i].cell == counter.cell(steps[i].cell),
        later[earlier.len() + i].after == changed(
            later[earlier.len() + i].before,
            steps[i].change,
        ),
{
    let n = earlier.len() as int;
    assert(later.skip(n)[i] == later[n + i]);
    assert forall|k: int| 0 <= k < n implies #[trigger] later[k] == earlier[k] by {
        assert(later.take(n)[k] == later[k]);
    }
}

/// Counting one more connection is one operation for an HTTP connection: the total goes up. It is
/// two for any other: the total goes up, and then the number of WebSockets, or the number of
/// streams. The log grows by nothing else. Operations that go through another log are not seen.
pub proof fn law_inc_operations(
    counter: ConnectionCounter,
    earlier: Seq<CellAccess>,
    later: Seq<CellAccess>,
    conn_type: ConnectionType,
)
    requires
        counter.logged(earlier, later, inc_steps(conn_type)),
    ensures
        goes_up(later[earlier.len() as int], counter.cell(CountCell::Active)),
        conn_type == ConnectionType::Http ==> goes_on(earlier, later, 1),
        conn_type != ConnectionType::Http ==> goes_on(earlier, later, 2),
        conn_type == ConnectionType::WebSocket ==> goes_up(
            later[earlier.len() as int + 1],
            counter.cell(CountCell::WebSockets),
        ),
        conn_type == ConnectionType::GrpcStream || conn_type == ConnectionType::ServerSentEvents
            ==> goes_up(later[earlier.len() as int + 1], counter.cell(CountCell::Streams)),
{
    let n = earlier.len() as int;
    lemma_entry(counter, earlier, later, inc_steps(conn_type), 0);
    lemma_changed(later[n].before);
    if conn_type != ConnectionType::Http {
        lemma_entry(counter, earlier, later, inc_steps(conn_type), 1);
        lemma_changed(later[n + 1].before);
    }
}

/// Counting one connection less is one operation for an HTTP connection: the total goes down. It is
/// two for any other: the total goes down, and then the number of WebSockets, or the number of
/// streams. The log grows by nothing else. Operations that go through another log are not seen.
pub proof fn law_dec_operations(
    counter: ConnectionCounter,
    earlier: Seq<CellAccess>,
    later: Seq<CellAccess>,
    conn_type: ConnectionType,
)
    requires
        counter.logged(earlier, later, dec_steps(conn_type)),
    ensures
        goes_down(later[earlier.len() as int], counter.cell(CountCell::Active)),
        conn_type == ConnectionType::Http ==> goes_on(earlier, later, 1),
        conn_type != ConnectionType::Http ==> goes_on(earlier, later, 2),
        conn_type == ConnectionType::WebSocket ==> goes_down(
            later[earlier.len() as int + 1],
            counter.cell(CountCell::WebSockets),
        ),
        conn_type == ConnectionType::GrpcStream || conn_type == ConnectionType::ServerSentEvents
            ==> goes_down(later[earlier.len() as int + 1], counter.cell(CountCell::Streams)),
{
    let n = earlier.len() as int;
    lemma_entry(counter, earlier, later, dec_steps(conn_type), 0);
    lemma_changed(later[n].before);
    if conn_type != ConnectionType::Http {
        lemma_entry(counter, earlier, later, dec_steps(conn_type), 1);
        lemma_changed(later[n + 1].before);
    }
}

/// Reading a count is one operation, and reading the three is three. Each leaves its cell as it was.
pub proof fn law_read_operations(
    counter: ConnectionCounter,
    earlier: Seq<CellAccess>,
    later: Seq<CellAccess>,
    cell: CountCell,
)
    ensures
        counter.logged(earlier, later, seq![read_step(cell)]) ==> goes_on(earlier, later, 1)
            && stays(later[earlier.len() as int], counter.cell(cell)),
        counter.logged(earlier, later, read_steps()) ==> {
            &&& goes_on(earlier, later, 3)
            &&& stays(later[earlier.len() as int], counter.cell(CountCell::Active))
            &&& stays(later[earlier.len() as int + 1], counter.cell(CountCell::WebSockets))
            &&& stays(later[earlier.len() as int + 2], counter.cell(CountCell::Streams))
        },
{
    if counter.logged(earlier, later, seq![read_step(cell)]) {
        lemma_entry(counter, earlier, later, seq![read_step(cell)], 0);
    }
    if counter.logged(earlier, later, read_steps()) {
        lemma_entry(counter, earlier, later, read_steps(), 0);
        lemma_entry(counter, earlier, later, read_steps(), 1);
        lemma_entry(counter, earlier, later, read_steps(), 2);
    }
}

/// The log of a guard that was released stays as it is when the guard is dropped. That of another
/// grows by what counting its connection as closed does: the total goes down, and the number of
/// WebSockets or of streams for a connection of that kind, each once.
pub proof fn law_drop_operations(
    counter: ConnectionCounter,
    earlier: Seq<CellAccess>,
    later: Seq<CellAccess>,
    conn_type: ConnectionType,
    armed: bool,
)
    requires
        counter.logged(earlier, later, guard_drop_steps(conn_type, armed)),
    ensures
        !armed ==> later == earlier,
        armed ==> goes_down(later[earlier.len() as int], counter.cell(CountCell::Active)),
        armed && conn_type == ConnectionType::Http ==> goes_on(earlier, later, 1),
        armed && conn_type != ConnectionType::Http ==> goes_on(earlier, later, 2),
        armed && conn_type == ConnectionType::WebSocket ==> goes_down(
            later[earlier.len() as int + 1],
            counter.cell(CountCell::WebSockets),
        ),
        armed && (conn_type == ConnectionType::GrpcStream || conn_type
            == ConnectionType::ServerSentEvents) ==> goes_down(
            later[earlier.len() as int + 1],
            counter.cell(CountCell::Streams),
        ),
{
    if armed {
        law_dec_operations(counter, earlier, later, conn_type);
    } else {
        assert(later.take(earlier.len() as int) =~= later);
    }
}

/// A connection that was counted once more went up in the total, and in the number of its kind.
pub proof fn law_inc_took_place(counter: ConnectionCounter, conn_type: ConnectionType)
    requires
        counter.took_all(inc_steps(conn_type)),
    ensures
        exists|before: usize, after: usize| #[trigger]
            cell_added(counter.cell(CountCell::Active), before, after) && one_more(before, after),
        conn_type == ConnectionType::WebSocket ==> exists|before: usize, after: usize| #[trigger]
            cell_added(counter.cell(CountCell::WebSockets), before, after) && one_more(
                before,
                after,
            ),
        conn_type == ConnectionType::GrpcStream || conn_type == ConnectionType::ServerSentEvents
            ==> exists|before: usize, after: usize| #[trigger]
            cell_added(counter.cell(CountCell::Streams), before, after) && one_more(before, after),
{
    assert(counter.took(inc_steps(conn_type)[0]));
    if conn_type != ConnectionType::Http {
        assert(counter.took(inc_steps(conn_type)[1]));
    }
}

/// A connection that was counted as closed went down in the total, and in the number of its kind.
pub proof fn law_dec_took_place(counter: ConnectionCounter, conn_type: ConnectionType)
    requires
        counter.took_all(dec_steps(conn_type)),
    ensures
        exists|before: usize, after: usize| #[trigger]
            cell_subtracted(counter.cell(CountCell::Active), before, after) && one_more(
                after,
                before,
            ),
        conn_type == ConnectionType::WebSocket ==> exists|before: usize, after: usize| #[trigger]
            cell_subtracted(counter.cell(CountCell::WebSockets), before, after) && one_more(
                after,
                before,
            ),
        conn_type == ConnectionType::GrpcStream || conn_type == ConnectionType::ServerSentEvents
            ==> exists|before: usize, after: usize| #[trigger]
            cell_subtracted(counter.cell(CountCell::Streams), before, after) && one_more(
                after,
                before,
            ),
{
    assert(counter.took(dec_steps(conn_type)[0]));
    if conn_type != ConnectionType::Http {
        assert(counter.took(dec_steps(conn_type)[1]));
    }
}

/// Counts that were read were loaded, each from its own cell.
pub proof fn law_counts_were_loaded(counter: ConnectionCounter, counts: ConnectionCounts)
    ensures
        counter.read(counts) <==> cell_loaded(counter.cell(CountCell::Active), counts.active)
            && cell_loaded(counter.cell(CountCell::WebSockets), counts.websockets) && cell_loaded(
            counter.cell(CountCell::Streams),
            counts.streams,
        ),
{
    if cell_loaded(counter.cell(CountCell::Active), counts.active) && cell_loaded(
        counter.cell(CountCell::WebSockets),
        counts.websockets,
    ) && cell_loaded(counter.cell(CountCell::Streams), counts.streams) {
        assert forall|cell: CountCell| cell_loaded(
            #[trigger] counter.cell(cell),
            counts.value(cell),
        ) by {
            match cell {
                CountCell::Active => {},
                CountCell::WebSockets => {},
                CountCell::Streams => {},
            }
        }
    }
    if counter.read(counts) {
        assert(counts.value(CountCell::Active) == counts.active);
        assert(cell_loaded(counter.cell(CountCell::Active), counts.value(CountCell::Active)));
        assert(cell_loaded(
            counter.cell(CountCell::WebSockets),
            counts.value(CountCell::WebSockets),
        ));
        assert(cell_loaded(counter.cell(CountCell::Streams), counts.value(CountCell::Streams)));
    }
}

/// The three cells of a new counter are three cells, and start out at zero.
pub proof fn law_new_cells(counter: ConnectionCounter)
    requires
        counter.created_with(ConnectionCounts::zero()),
        counter.cells_differ(),
    ensures
        cell_created(counter.cell(CountCell::Active), 0),
        cell_created(counter.cell(CountCell::WebSockets), 0),
        cell_created(counter.cell(CountCell::Streams), 0),
        counter.cell(CountCell::Active) != counter.cell(CountCell::WebSockets),
        counter.cell(CountCell::Active) != counter.cell(CountCell::Streams),
        counter.cell(CountCell::WebSockets) != counter.cell(CountCell::Streams),
{
    let zero = ConnectionCounts::zero();
    assert(cell_created(counter.cell(CountCell::Active), zero.value(CountCell::Active)));
    assert(cell_created(counter.cell(CountCell::WebSockets), zero.value(CountCell::WebSockets)));
    assert(cell_created(counter.cell(CountCell::Streams), zero.value(CountCell::Streams)));
}

/// A cell holds what the last operation on it left, and what it held first where there was
/// none.
pub proof fn law_last_operation_counts(
    made: Seq<CellAccess>,
    cell: AtomicUsize,
    first: usize,
    last: int,
)
    requires
        -1 <= last < made.len(),
        last >= 0 ==> made[last].cell == cell,
        forall|i: int| last < i < made.len() ==> (#[trigger] made[i]).cell != cell,
    ensures
        held(made, cell, first) == if last >= 0 {
            made[last].after
        } else {
            first
        },
    decreases made.len(),
{
    if made.len() > 0 && last < made.len() - 1 {
        let rest = made.drop_last();
        assert(made[made.len() - 1].cell != cell);
        assert forall|i: int| last < i < rest.len() implies (#[trigger] rest[i]).cell != cell by {
            assert(made[i].cell != cell);
        }
        law_last_operation_counts(rest, cell, first, last);
    }
}

/// Every connection is an HTTP connection, a WebSocket or a stream: the numbers of the three kinds
/// make up the total. Where more WebSockets and streams than connections are read, there is
/// no HTTP connection.
pub proof fn law_http_connections(counts: ConnectionCounts)
    ensures
        0 <= counts.http() <= counts.active,
        counts.http() > 0 ==> counts.http() + counts.websockets + counts.streams == counts.active,
        counts.websockets + counts.streams <= counts.active ==> counts.http() + counts.websockets
            + counts.streams == counts.active,
        counts.websockets + counts.streams >= counts.active ==> counts.http() == 0,
{
}

/// There are no long-lived connections if and only if there is neither a WebSocket nor a stream,
/// however many connections there are. Where the counts fit together, there are some exactly
/// where not all connections are HTTP connections.
pub proof fn law_long_lived_connections(counts: ConnectionCounts)
    ensures
        !counts.long_lived() <==> counts.websockets == 0 && counts.streams == 0,
        counts.websockets + counts.streams <= counts.active ==> (counts.long_lived()
            <==> counts.http() < counts.active),
{
}

} // verus!

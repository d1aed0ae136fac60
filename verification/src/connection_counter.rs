//! Connection tracking for graceful shutdown and hot restart
//!
//! This module provides atomic connection counting to track active connections
//! during graceful shutdown and hot restart scenarios.

use crate::cells::{cell_added, cell_created, cell_loaded, cell_subtracted, held, is_new_to};
use crate::cells::{fetch_add, fetch_sub, load, new_cells, AccessLog, CellAccess};
use crate::counts::{changed, dec_steps, guard_drop_steps, inc_steps, kind_cell};
use crate::counts::{read_step, read_steps};
use crate::counts::{ConnectionCounts, CountCell, CountChange, CountStep};
pub use crate::counts::ConnectionType;
use std::sync::atomic::AtomicUsize;
use std::sync::Arc;
use vstd::prelude::*;

verus! {

/// Tracks active connections across the server
///
/// This type is `Send + Sync` and can be safely shared across threads.
/// All operations use atomic operations for lock-free concurrent access.
/// A clone counts in the same cells.
pub struct ConnectionCounter {
    /// Total active connections
    active_connections: Arc<AtomicUsize>,
    /// Active WebSocket connections (subset of active_connections)
    active_websockets: Arc<AtomicUsize>,
    /// Active streaming connections (gRPC, SSE, etc.)
    active_streams: Arc<AtomicUsize>,
}

impl ConnectionCounter {
    /// The atomic cell behind one of the counts.
    pub closed spec fn cell(self, cell: CountCell) -> AtomicUsize {
        match cell {
            CountCell::Active => *self.active_connections,
            CountCell::WebSockets => *self.active_websockets,
            CountCell::Streams => *self.active_streams,
        }
    }

    /// Each count has a cell of its own.
    pub open spec fn cells_differ(self) -> bool {
        forall|a: CountCell, b: CountCell|
            a != b ==> #[trigger] self.cell(a) != #[trigger] self.cell(b)
    }

    /// The invariant of every counter.
    #[verifier::type_invariant]
    spec fn has_own_cells(self) -> bool {
        self.cells_differ()
    }

    /// The cells held these counts when they were made.
    pub open spec fn created_with(self, counts: ConnectionCounts) -> bool {
        forall|cell: CountCell| cell_created(#[trigger] self.cell(cell), counts.value(cell))
    }

    /// None of these operations was performed on this counter.
    pub open spec fn is_new_to(self, made: Seq<CellAccess>) -> bool {
        forall|cell: CountCell| is_new_to(#[trigger] self.cell(cell), made)
    }

    /// The two counters have no cell in common.
    pub open spec fn shares_nothing_with(self, other: ConnectionCounter) -> bool {
        forall|a: CountCell, b: CountCell| #[trigger] self.cell(a) != #[trigger] other.cell(b)
    }

    /// The step took place on this counter.
    pub open spec fn took(self, step: CountStep) -> bool {
        let cell = self.cell(step.cell);
        match step.change {
            CountChange::Up => exists|before: usize| #[trigger]
                cell_added(cell, before, changed(before, CountChange::Up)),
            CountChange::Down => exists|before: usize| #[trigger]
                cell_subtracted(cell, before, changed(before, CountChange::Down)),
            CountChange::Read => exists|before: usize| #[trigger] cell_loaded(cell, before),
        }
    }

    /// All the steps took place on this counter.
    pub open spec fn took_all(self, steps: Seq<CountStep>) -> bool {
        forall|i: int| 0 <= i < steps.len() ==> self.took(#[trigger] steps[i])
    }

    /// These operations are the steps, one for one and in order, on the cells of this counter.
    pub open spec fn made_of(self, made: Seq<CellAccess>, steps: Seq<CountStep>) -> bool {
        &&& made.len() == steps.len()
        &&& forall|i: int|
            #![trigger made[i]]
            0 <= i < made.len() ==> made[i].cell == self.cell(steps[i].cell) && made[i].after
                == changed(made[i].before, steps[i].change)
    }

    /// From `earlier` on, the log went on with exactly these steps on this counter.
    pub open spec fn logged(
        self,
        earlier: Seq<CellAccess>,
        later: Seq<CellAccess>,
        steps: Seq<CountStep>,
    ) -> bool {
        &&& earlier.len() <= later.len()
        &&& later.take(earlier.len() as int) == earlier
        &&& self.made_of(later.skip(earlier.len() as int), steps)
    }

    /// These operations are all that was done to the counter: its counts were `start`
    /// before, and each operation found what the one before it on that cell had left.
    pub open spec fn undisturbed(self, start: ConnectionCounts, made: Seq<CellAccess>) -> bool {
        forall|i: int, cell: CountCell|
            0 <= i < made.len() && #[trigger] made[i].cell == #[trigger] self.cell(cell)
                ==> made[i].before == held(made.take(i), self.cell(cell), start.value(cell))
    }

    /// These operations are all that was done to the counter since it was made.
    pub open spec fn undisturbed_since_made(self, made: Seq<CellAccess>) -> bool {
        forall|start: ConnectionCounts| #[trigger]
            self.created_with(start) ==> self.undisturbed(start, made)
    }

    /// The counts after these operations, where they are all that was done to the counter.
    pub open spec fn left(self, start: ConnectionCounts, made: Seq<CellAccess>) -> ConnectionCounts {
        ConnectionCounts {
            active: held(made, self.cell(CountCell::Active), start.active),
            websockets: held(made, self.cell(CountCell::WebSockets), start.websockets),
            streams: held(made, self.cell(CountCell::Streams), start.streams),
        }
    }

    /// Each of `counts` is a value that was read from the cell behind it.
    pub open spec fn read(self, counts: ConnectionCounts) -> bool {
        forall|cell: CountCell| cell_loaded(#[trigger] self.cell(cell), counts.value(cell))
    }

    /// Create a new connection counter, whose cells are none that an operation in `log` was
    /// performed on
    pub fn new_in(log: &AccessLog) -> (counter: Self)
        ensures
            counter.created_with(ConnectionCounts::zero()),
            counter.cells_differ(),
            counter.is_new_to(log@),
    {
        let (active, websockets, streams) = new_cells(0, log);
        ConnectionCounter {
            active_connections: Arc::new(active),
            active_websockets: Arc::new(websockets),
            active_streams: Arc::new(streams),
        }
    }

    /// Create a new connection counter
    ///
    /// That it shares no cell with a given other counter is left unsaid here; where the other
    /// one was read in a log, [`new_in`](Self::new_in) says so.
    pub fn new() -> (counter: Self)
        ensures
            counter.created_with(ConnectionCounts::zero()),
            counter.cells_differ(),
    {
        ConnectionCounter::new_in(&AccessLog::new())
    }

    /// The cell in which this type is counted besides the total.
    fn kind_cell(&self, conn_type: ConnectionType) -> (cell: Option<&AtomicUsize>)
        ensures
            cell matches Some(c) ==> kind_cell(conn_type) is Some && *c == self.cell(
                kind_cell(conn_type)->0,
            ),
            cell is None ==> kind_cell(conn_type) is None,
        opens_invariants none
        no_unwind
    {
        match conn_type {
            ConnectionType::WebSocket => Some(&self.active_websockets),
            ConnectionType::GrpcStream | ConnectionType::ServerSentEvents => Some(
                &self.active_streams,
            ),
            ConnectionType::Http => None,
        }
    }

    /// Counts one more connection. The log grows by exactly these operations: each cell that
    /// counts the type goes up by one. Operations that go through another log are not seen.
    /// Returns the total that was found.
    pub fn inc_in(&self, conn_type: ConnectionType, log: &mut AccessLog) -> (before: usize)
        ensures
            self.cells_differ(),
            self.logged(old(log)@, final(log)@, inc_steps(conn_type)),
            before == final(log)@[old(log)@.len() as int].before,
            cell_added(
                self.cell(CountCell::Active),
                before,
                changed(before, CountChange::Up),
            ),
            self.took_all(inc_steps(conn_type)),
        opens_invariants none
        no_unwind
    {
        proof {
            use_type_invariant(self);
        }
        // Relaxed ordering is sufficient: we only need eventual consistency
        // for metrics, not strict happens-before relationships
        let before: usize = fetch_add(&self.active_connections, 1, log);
        assert(cell_added(
            self.cell(CountCell::Active),
            before,
            changed(before, CountChange::Up),
        ));
        assert(self.took(inc_steps(conn_type)[0]));
        if let Some(cell) = self.kind_cell(conn_type) {
            let kind: usize = fetch_add(cell, 1, log);
            assert(cell_added(*cell, kind, changed(kind, CountChange::Up)));
            assert(self.took(inc_steps(conn_type)[1]));
        }
        assert(log@.take(old(log)@.len() as int) =~= old(log)@);
        before
    }

    /// Counts one connection less. The log grows by exactly these operations: each cell that
    /// counts the type goes down by one. Operations that go through another log are not seen.
    pub fn dec_in(&self, conn_type: ConnectionType, log: &mut AccessLog)
        ensures
            self.cells_differ(),
            self.logged(old(log)@, final(log)@, dec_steps(conn_type)),
            self.took_all(dec_steps(conn_type)),
        opens_invariants none
        no_unwind
    {
        proof {
            use_type_invariant(self);
        }
        // Relaxed ordering is sufficient for decrement operations
        let total: usize = fetch_sub(&self.active_connections, 1, log);
        assert(cell_subtracted(
            self.cell(CountCell::Active),
            total,
            changed(total, CountChange::Down),
        ));
        assert(self.took(dec_steps(conn_type)[0]));
        if let Some(cell) = self.kind_cell(conn_type) {
            let kind: usize = fetch_sub(cell, 1, log);
            assert(cell_subtracted(*cell, kind, changed(kind, CountChange::Down)));
            assert(self.took(dec_steps(conn_type)[1]));
        }
        assert(log@.take(old(log)@.len() as int) =~= old(log)@);
    }

    /// Reads one count. The log grows by exactly one load of its cell. Operations that go
    /// through another log are not seen.
    pub fn count_in(&self, cell: CountCell, log: &mut AccessLog) -> (count: usize)
        ensures
            self.cells_differ(),
            self.logged(old(log)@, final(log)@, seq![read_step(cell)]),
            count == final(log)@[old(log)@.len() as int].before,
            cell_loaded(self.cell(cell), count),
        opens_invariants none
        no_unwind
    {
        proof {
            use_type_invariant(self);
        }
        let count: usize = match cell {
            CountCell::Active => load(&self.active_connections, log),
            CountCell::WebSockets => load(&self.active_websockets, log),
            CountCell::Streams => load(&self.active_streams, log),
        };
        assert(log@.take(old(log)@.len() as int) =~= old(log)@);
        count
    }

    /// Reads the three counts, one after the other. The log grows by exactly one load of each
    /// cell. Operations that go through another log are not seen.
    pub fn counts_in(&self, log: &mut AccessLog) -> (counts: ConnectionCounts)
        ensures
            self.cells_differ(),
            self.logged(old(log)@, final(log)@, read_steps()),
            counts.active == final(log)@[old(log)@.len() as int].before,
            counts.websockets == final(log)@[old(log)@.len() as int + 1].before,
            counts.streams == final(log)@[old(log)@.len() as int + 2].before,
            self.read(counts),
        opens_invariants none
        no_unwind
    {
        proof {
            use_type_invariant(self);
        }
        let active: usize = self.count_in(CountCell::Active, log);
        let ghost first = log@;
        let websockets: usize = self.count_in(CountCell::WebSockets, log);
        let ghost second = log@;
        let streams: usize = self.count_in(CountCell::Streams, log);
        proof {
            let n = old(log)@.len() as int;
            assert(first[n] == first.skip(n)[0]);
            assert(second[n + 1] == second.skip(n + 1)[0]);
            assert(log@[n + 2] == log@.skip(n + 2)[0]);
            assert(second[n] == second.take(n + 1)[n]);
            assert(log@[n] == log@.take(n + 2)[n]);
            assert(log@[n + 1] == log@.take(n + 2)[n + 1]);
            assert(log@.take(n) =~= second.take(n + 1).take(n));
        }
        ConnectionCounts { active, websockets, streams }
    }

    /// Increment connection count for a new connection, and tell whether the total wrapped
    /// around
    ///
    /// What it does to the cells is what [`inc_in`](Self::inc_in) does.
    pub fn inc_overflows(&self, conn_type: ConnectionType) -> (overflowed: bool)
        ensures
            exists|before: usize| #[trigger]
                cell_added(
                    self.cell(CountCell::Active),
                    before,
                    changed(before, CountChange::Up),
                ) && overflowed == (before == usize::MAX),
            self.took_all(inc_steps(conn_type)),
    {
        let mut log = AccessLog::new();
        let before: usize = self.inc_in(conn_type, &mut log);
        before == usize::MAX
    }

    /// Increment connection count for a new connection
    ///
    /// What it does to the cells is what [`inc_in`](Self::inc_in) does. What the counts are
    /// then depends on the other users of the counter.
    pub fn inc(&self, conn_type: ConnectionType)
        ensures
            self.took_all(inc_steps(conn_type)),
        opens_invariants none
        no_unwind
    {
        let mut log = AccessLog::new();
        let _before: usize = self.inc_in(conn_type, &mut log);
    }

    /// Decrement connection count when a connection closes
    ///
    /// What it does to the cells is what [`dec_in`](Self::dec_in) does. What the counts are
    /// then depends on the other users of the counter.
    pub fn dec(&self, conn_type: ConnectionType)
        ensures
            self.took_all(dec_steps(conn_type)),
        opens_invariants none
        no_unwind
    {
        let mut log = AccessLog::new();
        self.dec_in(conn_type, &mut log)
    }

    /// Get total number of active connections
    ///
    /// The number is one that the total stood at. Which one, where other threads count at
    /// the same time, is left unsaid.
    pub fn active_count(&self) -> (count: usize)
        ensures
            cell_loaded(self.cell(CountCell::Active), count),
    {
        let mut log = AccessLog::new();
        self.count_in(CountCell::Active, &mut log)
    }

    /// Get number of active WebSocket connections
    pub fn websocket_count(&self) -> (count: usize)
        ensures
            cell_loaded(self.cell(CountCell::WebSockets), count),
    {
        let mut log = AccessLog::new();
        self.count_in(CountCell::WebSockets, &mut log)
    }

    /// Get number of active streaming connections (non-WebSocket)
    pub fn streaming_count(&self) -> (count: usize)
        ensures
            cell_loaded(self.cell(CountCell::Streams), count),
    {
        let mut log = AccessLog::new();
        self.count_in(CountCell::Streams, &mut log)
    }

    /// Get number of regular HTTP connections (short-lived)
    ///
    /// Note: This is a best-effort calculation. Due to concurrent modifications
    /// by other threads, the value may be slightly inconsistent in high-concurrency
    /// scenarios. The returned value represents a snapshot that may not reflect
    /// simultaneous changes across the individual counters.
    pub fn http_count(&self) -> (count: usize)
        ensures
            exists|counts: ConnectionCounts| #[trigger]
                self.read(counts) && count == counts.http(),
    {
        let mut log = AccessLog::new();
        self.counts_in(&mut log).http_count()
    }

    /// Check if there are any long-lived connections active
    pub fn has_long_lived_connections(&self) -> (result: bool)
        ensures
            exists|counts: ConnectionCounts| #[trigger]
                self.read(counts) && result == counts.long_lived(),
    {
        let mut log = AccessLog::new();
        self.counts_in(&mut log).has_long_lived_connections()
    }
}

impl Default for ConnectionCounter {
    fn default() -> (counter: Self)
        ensures
            counter.created_with(ConnectionCounts::zero()),
            counter.cells_differ(),
    {
        ConnectionCounter::new()
    }
}

impl Clone for ConnectionCounter {
    fn clone(&self) -> (counter: Self)
        ensures
            counter == *self,
            counter.cells_differ(),
    {
        proof {
            use_type_invariant(self);
        }
        ConnectionCounter {
            active_connections: self.active_connections.clone(),
            active_websockets: self.active_websockets.clone(),
            active_streams: self.active_streams.clone(),
        }
    }
}

/// RAII guard for automatic connection count decrement
///
/// When this guard is dropped, it automatically decrements the connection count.
/// This ensures connections are properly tracked even if the handler panics.
pub struct ConnectionGuard {
    counter: ConnectionCounter,
    conn_type: ConnectionType,
    active: bool,
    overflowed: bool,
    log: AccessLog,
}

impl ConnectionGuard {
    /// The counter that the guard counts in.
    pub closed spec fn guarded(self) -> ConnectionCounter {
        self.counter
    }

    /// The type that the guard counts its connection as.
    pub closed spec fn kind(self) -> ConnectionType {
        self.conn_type
    }

    /// The guard has not been released.
    pub closed spec fn armed(self) -> bool {
        self.active
    }

    /// Counting the connection took the total around the end of its type.
    pub closed spec fn wrapped(self) -> bool {
        self.overflowed
    }

    /// The operations in the guard's log.
    pub closed spec fn accesses(self) -> Seq<CellAccess> {
        self.log@
    }

    /// Create a new connection guard and increment the counter
    pub fn new(counter: ConnectionCounter, conn_type: ConnectionType) -> (guard: Self)
        ensures
            guard.guarded() == counter,
            guard.kind() == conn_type,
            guard.armed(),
            counter.cells_differ(),
            counter.made_of(guard.accesses(), inc_steps(conn_type)),
            guard.wrapped() == (guard.accesses()[0].before == usize::MAX),
            counter.took_all(inc_steps(conn_type)),
        opens_invariants none
        no_unwind
    {
        let mut log = AccessLog::new();
        let before: usize = counter.inc_in(conn_type, &mut log);
        assert(log@.skip(0) =~= log@);
        ConnectionGuard {
            counter,
            conn_type,
            active: true,
            overflowed: before == usize::MAX,
            log,
        }
    }

    /// Manually release the guard without decrementing (useful for connection handoff)
    pub fn release(&mut self)
        ensures
            !final(self).armed(),
            final(self).guarded() == old(self).guarded(),
            final(self).kind() == old(self).kind(),
            final(self).wrapped() == old(self).wrapped(),
            final(self).accesses() == old(self).accesses(),
        opens_invariants none
        no_unwind
    {
        self.active = false;
    }

    /// Get the connection type
    pub fn connection_type(&self) -> (conn_type: ConnectionType)
        ensures
            conn_type == self.kind(),
        opens_invariants none
        no_unwind
    {
        self.conn_type
    }

    /// Check if this guard is still active
    pub fn is_active(&self) -> (active: bool)
        ensures
            active == self.armed(),
        opens_invariants none
        no_unwind
    {
        self.active
    }

    /// Check if counting the connection took the total around the end of its type
    pub fn overflowed(&self) -> (overflowed: bool)
        ensures
            overflowed == self.wrapped(),
        opens_invariants none
        no_unwind
    {
        self.overflowed
    }

    /// Get a reference to the underlying counter
    pub fn counter(&self) -> (counter: &ConnectionCounter)
        ensures
            *counter == self.guarded(),
        opens_invariants none
        no_unwind
    {
        &self.counter
    }
}

impl Drop for ConnectionGuard {
    fn drop(&mut self)
        ensures
            final(self).guarded() == old(self).guarded(),
            final(self).kind() == old(self).kind(),
            final(self).armed() == old(self).armed(),
            final(self).wrapped() == old(self).wrapped(),
            old(self).guarded().logged(
                old(self).accesses(),
                final(self).accesses(),
                guard_drop_steps(old(self).kind(), old(self).armed()),
            ),
            old(self).guarded().took_all(guard_drop_steps(old(self).kind(), old(self).armed())),
        opens_invariants none
        no_unwind
    {
        if self.active {
            self.counter.dec_in(self.conn_type, &mut self.log);
        }
        assert(old(self).accesses().take(old(self).accesses().len() as int) =~= old(
            self,
        ).accesses());
    }
}

} // verus!

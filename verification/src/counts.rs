//! What the connection counts are and how connections move them.

use vstd::prelude::*;

verus! {

/// Connection type classification for specialized handling during shutdown.
#[derive(Debug, Clone, Copy, PartialEq, Eq, Structural)]
pub enum ConnectionType {
    /// Regular HTTP/HTTPS connection
    Http,
    /// WebSocket or other long-lived connection
    WebSocket,
    /// gRPC streaming connection
    GrpcStream,
    /// Server-Sent Events (SSE) connection
    ServerSentEvents,
}

/// One of the three cells of a counter.
#[derive(Debug, Clone, Copy, PartialEq, Eq, Structural)]
pub enum CountCell {
    /// All active connections
    Active,
    /// The active WebSocket connections
    WebSockets,
    /// The active streaming connections (gRPC, SSE)
    Streams,
}

/// What one atomic operation does to a count.
#[derive(Debug, Clone, Copy, PartialEq, Eq, Structural)]
pub enum CountChange {
    /// One more
    Up,
    /// One less
    Down,
    /// The count is only read
    Read,
}

/// One atomic operation on one cell.
pub struct CountStep {
    pub cell: CountCell,
    pub change: CountChange,
}

/// The cell, besides the one for all connections, in which a connection of this
/// type is counted.
pub open spec fn kind_cell(conn_type: ConnectionType) -> Option<CountCell> {
    match conn_type {
        ConnectionType::Http => None,
        ConnectionType::WebSocket => Some(CountCell::WebSockets),
        ConnectionType::GrpcStream => Some(CountCell::Streams),
        ConnectionType::ServerSentEvents => Some(CountCell::Streams),
    }
}

/// The same change to each cell that counts a connection of this type.
pub open spec fn connection_steps(conn_type: ConnectionType, change: CountChange) -> Seq<CountStep> {
    match kind_cell(conn_type) {
        None => seq![CountStep { cell: CountCell::Active, change }],
        Some(cell) => seq![
            CountStep { cell: CountCell::Active, change },
            CountStep { cell, change },
        ],
    }
}

/// The steps that count one more connection of this type.
pub open spec fn inc_steps(conn_type: ConnectionType) -> Seq<CountStep> {
    connection_steps(conn_type, CountChange::Up)
}

/// The steps that count one connection of this type less.
pub open spec fn dec_steps(conn_type: ConnectionType) -> Seq<CountStep> {
    connection_steps(conn_type, CountChange::Down)
}

/// The step that reads one count.
pub open spec fn read_step(cell: CountCell) -> CountStep {
    CountStep { cell, change: CountChange::Read }
}

/// The steps that read the three counts.
pub open spec fn read_steps() -> Seq<CountStep> {
    seq![
        read_step(CountCell::Active),
        read_step(CountCell::WebSockets),
        read_step(CountCell::Streams),
    ]
}

/// The steps that a guard takes when it is dropped: it counts its connection as closed
/// unless it was released before.
pub open spec fn guard_drop_steps(conn_type: ConnectionType, armed: bool) -> Seq<CountStep> {
    if armed {
        dec_steps(conn_type)
    } else {
        seq![]
    }
}

/// A cell's value after a change, around the end of the type.
pub open spec fn changed(value: usize, change: CountChange) -> usize {
    match change {
        CountChange::Up => value.wrapping_add(1),
        CountChange::Down => value.wrapping_sub(1),
        CountChange::Read => value,
    }
}

/// The values of the three cells of a counter.
#[derive(Debug, Clone, Copy, PartialEq, Eq, Structural)]
pub struct ConnectionCounts {
    /// Total active connections
    pub active: usize,
    /// Active WebSocket connections (subset of `active`)
    pub websockets: usize,
    /// Active streaming connections (gRPC, SSE, etc.)
    pub streams: usize,
}

impl ConnectionCounts {
    /// The counts of a server without connections.
    pub open spec fn zero() -> ConnectionCounts {
        ConnectionCounts { active: 0, websockets: 0, streams: 0 }
    }

    /// The value of one cell.
    pub open spec fn value(self, cell: CountCell) -> usize {
        match cell {
            CountCell::Active => self.active,
            CountCell::WebSockets => self.websockets,
            CountCell::Streams => self.streams,
        }
    }

    /// The counts after one operation on one cell.
    pub open spec fn step(self, step: CountStep) -> ConnectionCounts {
        let value = changed(self.value(step.cell), step.change);
        match step.cell {
            CountCell::Active => ConnectionCounts { active: value, ..self },
            CountCell::WebSockets => ConnectionCounts { websockets: value, ..self },
            CountCell::Streams => ConnectionCounts { streams: value, ..self },
        }
    }

    /// The counts after these steps, in this order.
    pub open spec fn run(self, steps: Seq<CountStep>) -> ConnectionCounts
        decreases steps.len(),
    {
        if steps.len() == 0 {
            self
        } else {
            self.run(steps.drop_last()).step(steps.last())
        }
    }

    /// The connections that are neither WebSocket nor streaming connections.
    pub open spec fn http(self) -> int {
        if self.active >= self.websockets + self.streams {
            self.active - (self.websockets + self.streams)
        } else {
            0
        }
    }

    /// Whether some connection is a WebSocket or a streaming one.
    pub open spec fn long_lived(self) -> bool {
        self.websockets > 0 || self.streams > 0
    }

    /// Get number of regular HTTP connections (short-lived)
    ///
    /// Values that were read one after the other need not fit together. Where more
    /// long-lived connections than connections were read, the answer is zero.
    pub fn http_count(&self) -> (count: usize)
        ensures
            count == self.http(),
    {
        self.active.saturating_sub(self.websockets.saturating_add(self.streams))
    }

    /// Check if there are any long-lived connections active
    pub fn has_long_lived_connections(&self) -> (result: bool)
        ensures
            result == self.long_lived(),
    {
        self.websockets > 0 || self.streams > 0
    }
}

} // verus!

//! Guest-side bridge for running SQL against a SQLite database owned by the
//! host across an isolation boundary.
//!
//! The library holds the protocol's logic: the wire encoding of parameters,
//! rows and errors, the statement lifecycle and statement cache, the bind
//! collector, and the row cursor. The host calls themselves are made by the
//! embedding program, which hands the results back to the state machines here.

pub mod value;
pub mod wire;
pub mod error;
pub mod bind;
pub mod types;
pub mod statement;
pub mod row;
pub mod connection;
pub mod functions;

pub use connection::SqliteConnection;
pub use functions::SqliteAggregateFunction;

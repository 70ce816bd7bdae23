//! A name-resolution-and-connect primitive.
//!
//! Given a textual host specification, the library produces an ordered queue
//! of candidate socket addresses, either by parsing a literal address or by
//! delegating to an asynchronous resolver backend, and then establishes a
//! transport connection by attempting the candidates in order under a single
//! overall deadline.
//!
//! The library holds the two state machines that carry the algorithmic
//! content — resolution with literal-address short-circuiting, and
//! deadline-bounded sequential connection racing — together with the message
//! types of the service that dispatches them.  The actual backend lookup, the
//! transport sockets and the timer are collaborators: a driver performs them
//! and feeds their outcomes back into the state machines as events.

pub mod addr;
pub mod parse;
pub mod race;
pub mod service;

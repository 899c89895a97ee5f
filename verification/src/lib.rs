//! A Chord distributed hash table: the identifier ring, the per-node routing
//! state, the message handlers that maintain the overlay, and the ring
//! coordinator that admits nodes and originates lookups.
//!
//! Every handler is a pure decision: from the node's state and one event it
//! computes the next state and the commands that a runtime has to carry out.
//! The runtime reports back how the commands ended, which is one more event.
//! What holds of every state and every event is proved in [`laws`], what
//! holds of a whole round of stabilization in [`rounds`].

pub mod circular_buffer;
pub mod command;
pub mod coordinator;
pub mod csv;
pub mod data;
pub mod finger_table;
pub mod hash;
pub mod laws;
pub mod msg;
pub mod node;
pub mod node_state;
pub mod retry;
pub mod ring;
pub mod rounds;
pub mod store;
pub mod strings;
pub mod succ_table;

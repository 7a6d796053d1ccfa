//! A read-only server for QCOW2 disk images: the header decoder, the lookup
//! of guest clusters through the L1 and L2 tables, the NBD negotiation and
//! transmission state machine, and the dispatch of the control service, each
//! stated and proved over a mathematical model.

pub mod bytes;
pub mod header;
pub mod lookup;
pub mod nbd;
pub mod qcow2;
pub mod rpc;

//! Dispatch cores of two thread pools: a fixed pool draining one shared FIFO
//! queue with an ordered shutdown, and an elastic pool that grows on demand
//! through a rendezvous handoff. Threads, locks and blocking live with the
//! caller; these types decide what each submission and each worker does.

pub mod elastic;
pub mod fixed;

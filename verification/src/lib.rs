pub mod codec;
pub mod credit;
pub mod engine;
pub mod frame;
pub mod inbound;
pub mod queue;

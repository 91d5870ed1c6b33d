pub mod frame;
pub mod queue;
pub mod region;
pub mod uio;
pub mod umem;

//! Memories that keep the messages of a conversation across runs.
pub mod dummy_memory;
pub mod memory;
pub mod simple_memory;
pub mod window_buffer;

pub use dummy_memory::DummyMemory;
pub use memory::Memory;
pub use simple_memory::SimpleMemory;
pub use window_buffer::WindowBufferMemory;

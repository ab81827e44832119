//! HBM is a hardware buffer allocator.
//!
//! This crate provides a library to allocate, export/import, and access hardware buffer objects
//! (BOs).
//!
//! A BO allocation is divided into 3 steps.  The classification step validates the parameters and
//! checks for hardware support.  The create step creates the BO descriptor, which encompasses the
//! physical layout and the supported memory types.  The bind step creates or imports a memory, and
//! binds the memory to the BO.

pub mod backends;
pub mod bo;
pub mod device;
pub mod dma_buf;
pub mod formats;
pub mod types;
pub mod utils;

pub use backends::Backend;
pub use backends::Class;
pub use backends::Constraint;
pub use backends::CopyBuffer;
pub use backends::CopyBufferImage;
pub use backends::Description;
pub use backends::Extent;
pub use backends::Flags;
pub use backends::Handle;
pub use backends::HandlePayload;
pub use backends::Layout;
pub use backends::MemoryType;
pub use backends::Usage;
pub use bo::Bo;
pub use device::Builder;
pub use device::Device;
pub use types::Error;
pub use types::Fd;
pub use types::Format;
pub use types::Mapping;
pub use types::Modifier;
pub use types::Size;

//! Records that borrow a NUL-terminated name and carry an age, held through
//! nullable owning handles.

pub mod c_string;
pub mod laws;
pub mod record;

pub use record::{create_rust_struct, free_rust_struct, Handle, MyRustStruct, RecordView};

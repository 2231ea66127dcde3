//! Mirrors a directory tree and plans one decompiler invocation per container file.

pub mod dispatch;
pub mod export_type;
pub mod names;
pub mod path;
pub mod text;
pub mod tree;
pub mod walk;

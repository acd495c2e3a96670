pub mod compiler;
pub mod instruction;
pub mod kernel;
pub mod machine;
pub mod memory;
pub mod scope;
pub mod value;

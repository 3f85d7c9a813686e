pub mod codec;
pub mod cost_model;
pub mod error;
pub mod machine;
pub mod resolver;
pub mod syscalls;
pub mod tx;

pub mod codec;
pub mod laws;
pub mod machine;
pub mod msg;

pub mod address;
pub mod condition;
pub mod immediate;
pub mod location;
pub mod offset;
pub mod register;

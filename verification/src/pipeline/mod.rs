//! Pipeline building blocks that carry protocol logic: the outbound
//! encoder and the application service admission policy.
pub mod encoder;
pub mod service;
pub mod decoder;
pub mod route;

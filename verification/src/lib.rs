//! The coordination core of a pull-through cache for container images:
//! where cached objects live and when they are stale, which upstream serves
//! a namespace, and what a cleanup pass removes.

pub mod cleanup;
pub mod span;
pub mod storage;
pub mod text;
pub mod upstream;

//! The hand-written project types of the detection chain.

pub mod anchor;
pub mod middleman;
pub mod nextjs;
pub mod nodejs;
pub mod rails;
pub mod rust;

//! Build-time orchestration for a GPU layer-normalization kernel: detect
//! the target architecture, validate it against the toolchain, plan the
//! compile and archive steps, publish link directives, and map element
//! types to the kernel's numeric tags.
pub mod builder;
pub mod catalog;
pub mod detect;
pub mod dispatch;
pub mod errors;
pub mod pipeline;
pub mod publisher;
pub mod sdk;
pub mod text;

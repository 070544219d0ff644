//! A minimal resource wrapper around a graphics API's vertex array object
//! (VAO), vertex buffer object (VBO), and element/index buffer object (EBO).
//!
//! The library verifies the wrapper's logic against a mock graphics context
//! ([`context::GlContext`]) that models handle allocation, buffer uploads and
//! the process-wide binding state. The real graphics calls, which Verus cannot
//! see, live outside the library and mirror the same call sequence.

pub mod context;
pub mod mesh;

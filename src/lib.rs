//! Inline function hooking, verified: status codes and errors, jump
//! encodings, trampoline construction from decoded instructions, the hook
//! registry and its lifecycle laws, the trampoline slot pool, the movement
//! of frozen threads across a patch, and the engine context around them.

pub mod activation;
pub mod encode;
pub mod engine;
pub mod lifecycle;
pub mod pool;
pub mod registry;
pub mod status;
pub mod trampoline;

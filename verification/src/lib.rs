//! Verified core of the editor's chrome: the windowing, outline, frost-extent
//! and gutter-hit rules that the renderer's drawing code reads.
use vstd::prelude::*;

pub mod bench;
pub mod dropdown;
pub mod frost;
pub mod gutter;
pub mod hint;
pub mod hud;
pub mod outline;
pub mod outline_plan;
pub mod pipeline;
pub mod snapshot;
pub mod text;
pub mod typing;
pub mod window;

verus! {
} // verus!

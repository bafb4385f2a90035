use vstd::prelude::*;

pub mod collision;
pub mod context;
pub mod runtime_core;
pub mod creates;
pub mod diagnostics;
pub mod eval_context;
pub mod event_dispatch;
pub mod event_run;
pub mod frame;
pub mod helpers;
pub mod host_files;
pub mod instance_updates;
pub mod lowered;
pub mod model;
pub mod names;
pub mod overlay;
pub mod package_caches;
pub mod player;
pub mod render;
pub mod room_builder;
pub mod room_transitions;
pub mod scene_change;
pub mod spatial_index;
pub mod statements;
pub mod step_events;
pub mod text;
pub mod tick;
pub mod with_targets;

pub use vstd::hash_map::StringHashMap;
pub use vstd::hash_set::StringHashSet;

verus! {

} // verus!

//! Verified decision logic of the Hell Workers job and lighting systems.
//!
//! Every module works on plain values: entities are `u64` identifiers (the
//! bits of an ECS entity), grid cells are `(i32, i32)` pairs, and the ECS
//! world is represented by the facts that a decision reads.

pub mod acceptance;
pub mod blueprint;
pub mod building;
pub mod commit;
pub mod construction;
pub mod decon;
pub mod designation;
pub mod door;
pub mod finalizer;
pub mod grid;
pub mod light_fixture;
pub mod light_input;
pub mod light_runtime;
pub mod png;
pub mod protocol;
pub mod recovery;
pub mod recovery_laws;
pub mod site_progress;
pub mod room_summary;
pub mod sort;
pub mod soul_spa;
pub mod spa_cancel;
pub mod task_terminals;
pub mod text;

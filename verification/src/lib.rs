//! Core logic of an active-window launcher: the slot settings model, the
//! path classification rules, the launch command builder, the backup
//! rotation policy and the reference-window tracking state machine.

pub mod text;
pub mod paths;
pub mod settings;
pub mod tracking;
pub mod launch;
pub mod backups;
pub mod shell;

//! Versioned backups of save-game directories: the scanning model that maps
//! saves to their backups, and the step-by-step protocol that creates,
//! restores and deletes backups without losing data.
pub mod order;
pub mod path;
pub mod clock;
pub mod save;
pub mod backup;
pub mod engine;
pub mod pzsm;
pub mod roots;
pub mod laws;
pub mod stamp_order;
pub mod map_laws;

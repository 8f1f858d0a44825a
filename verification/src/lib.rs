//! Core logic of the Sticky desktop notes application: note and block
//! records, the recycle-bin store commands, block content rules, the
//! markdown renderer's span finder and the small text formats the
//! application writes.

pub mod text;
pub mod markdown;
pub mod block;
pub mod canvas;
pub mod db;
pub mod note;
pub mod desktop;
pub mod sql;

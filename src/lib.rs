//! A small interactive shell for firmware boot services: the line editor, the
//! command dispatcher and the memory-map walk, with the firmware itself left to
//! the caller.
pub mod command;
pub mod line_editor;
pub mod memory_map;
pub mod text;

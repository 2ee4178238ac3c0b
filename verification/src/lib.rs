//! A session model for a small digital audio workstation: the transport,
//! tracks and clips, the project, offline export planning and the
//! terminal front end's state machine.

pub mod transport;
pub mod track;
pub mod project;
pub mod render;
pub mod export;
pub mod text;
pub mod engine;
pub mod ui;
pub mod screen;

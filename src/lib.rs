//! Theme application engine of a desktop theming utility: themes are named
//! variable sets, modules are desktop components whose configuration
//! templates are rendered against a theme, written out and optionally
//! reloaded. The engine decides; the caller performs the file writes and runs
//! the reload commands it is told to.

pub mod vars;
pub mod names;
pub mod template;
pub mod parse;
pub mod theme;
pub mod module;
pub mod state;
pub mod commands;
pub mod apply;
pub mod run;
pub mod laws;

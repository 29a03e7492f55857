//! Configuration: icons, highlighting, bindings, keymaps, colors and paths.

pub mod filehighlight;
pub mod hotlist;
pub mod icons;
pub mod keymap;
pub mod scheme;
pub mod skin;
pub mod extbind;
pub mod app;
pub mod paths;

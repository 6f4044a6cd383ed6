//! vudo: the decisions and text formatting behind running a command as root
//! with a graphical prompt that previews the exact command.

pub mod text;
pub mod quote;
pub mod unix;
pub mod linux;
pub mod num;
pub mod caller;
pub mod dialog;
pub mod cli;
pub mod update;
pub mod macos;
pub mod win;
pub mod icon;

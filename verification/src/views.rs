//! The smaller views: home screen, help, title entry, keyboard, organ,
//! piano, module picker, project overview, plugin, arpeggiator and the
//! splash screen.

pub mod home;
pub mod keys;
pub mod help;
pub mod keyboard;
pub mod save;
pub mod pepper;
pub mod drawbars;
pub mod piano;
pub mod hammond;
pub mod arpeggio;
pub mod plugin;
pub mod modules;
pub mod project;
pub mod splash;

//! The verified core of the Lotion desktop shell: the persisted window and tab
//! state and its encryption, the sandbox start-up, the locale catalog, the menu,
//! and the checks that guard the commands a page may invoke.

pub mod commands;
pub mod i18n;
pub mod litebox;
pub mod menu;
pub mod spellcheck;
pub mod state;
pub mod tab_controller;
pub mod table;
pub mod text;
pub mod vault;

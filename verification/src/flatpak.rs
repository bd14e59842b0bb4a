//! Building `flatpak` command lines.

pub mod flatpak;
pub mod flatpak_install_test;
pub mod flatpak_list;

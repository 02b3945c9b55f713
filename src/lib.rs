//! Composes the static GRUB configuration from a pre-amble, the drop-in
//! fragments in byte order and a post-amble, locates the EFI vendor
//! directory, and decides each step of an installation; the caller performs
//! the filesystem work that each step names.

pub mod compose;
pub mod efi;
pub mod error;
pub mod fragments;
pub mod install;
pub mod order;

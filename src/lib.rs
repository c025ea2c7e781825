//! Content-addressed batch renaming: every file is renamed to the lowercase
//! hex form of the BLAKE3 digest of its contents, keeping its extension.
//!
//! The library holds the rules; a driver performs the file system work that
//! [`run::Renamer`] asks for and reports back what happened.
pub mod hex;
pub mod digest;
pub mod naming;
pub mod run;

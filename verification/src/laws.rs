//! What the library's operations are for, as laws over all their inputs. Each
//! law is stated on the texts and values that go in and come out.

pub mod builds;
pub mod commands;
pub mod constraint;
pub mod install;
pub mod layout;
pub mod pins;
pub mod proxy;
pub mod release;
pub mod text;
pub mod tool;
pub mod versions;
pub mod workspace;

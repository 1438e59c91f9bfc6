//! # Lockrs
//!
//! Lockrs lets egui render to a lock screen through the `ext-session-lock-v1`
//! protocol, with different output on different monitors. This crate holds the
//! decisions of the lock screen: what a frame's [`Action`]s mean for the lock
//! loop, when a password check runs and when the lock ends, how a surface that
//! was lost is recreated, how a rendered frame is turned into a screenshot, and
//! how the bundled widgets lay out and read their data.

pub mod session;
pub mod state;
pub mod utils;
pub mod widgets;

use vstd::prelude::*;

verus! {

/// the path type of the standard library, carried through unchanged.
#[verifier::external_type_specification]
#[verifier::external_body]
pub struct ExPathBuf(std::path::PathBuf);

/// describes an action for the lockscreen:
/// - [`Action::Nothing`]: don't try to exit the lockscreen.
/// - [`Action::TakeScreenshot`]: pass a [`std::path::PathBuf`], and a screenshot of
///   the lockscreen is saved there.
/// - [`Action::ForceExit`]: force the lockscreen to exit without doing a password check.
/// - [`Action::PasswdCheck`]: pass a [`String`]; if it matches the password,
///   the lockscreen will exit, otherwise assume that the password check failed.
pub enum Action {
    Nothing,
    TakeScreenshot(std::path::PathBuf),
    ForceExit,
    PasswdCheck(String),
}

/// the text of an optional string
pub open spec fn option_string_view(s: Option<String>) -> Option<Seq<char>> {
    match s {
        Some(s) => Some(s@),
        None => None,
    }
}

} // verus!

//! An interactive session/tab/pane picker.
//!
//! Two sibling engines form the core: [`session_tree::SessionList`] filters a
//! three-level tree of sessions, tabs and panes against a single query string
//! split on whitespace into per-level sub-queries, and
//! [`flat_list::NewSessionList`] filters a flat list of filesystem candidates
//! with one fuzzy pass.  Both own their selection state, navigate with the
//! rules described on each method, and flatten their current state into an
//! abstract display list; a host driver paints the rows and performs the
//! [`action::Action`] values the engines hand back.

pub mod action;
pub mod commandline;
pub mod flat_list;
pub mod matching;
pub mod records;
pub mod session_tree;
pub mod text;

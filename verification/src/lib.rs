//! Verified core of a modal, vim-like terminal menu navigator.
//!
//! The navigator shows an ordered master list of tagged menu items
//! (`[list] todo`, `[quickmark] home`, `[config]`, ...), lets the user
//! browse and filter it with vim-like keys, and decides which external
//! action a confirmed item stands for.  Everything with state or rules
//! lives here, verified:
//!
//! - [`nav`]: the modal state machine (Normal / Command / Filter / Help),
//!   its transition function, its selection invariant, and the render
//!   model of one frame;
//! - [`filter`]: the order-preserving, case-insensitive filter engine;
//! - [`menu`]: the fixed command and help menus, and the builder that
//!   turns scanned directory content into tagged menu lines;
//! - [`dispatch`]: tag recognition, the mapping from a confirmed item or
//!   a typed command name to an action, and editor resolution;
//! - [`config`]: the key/value configuration store and its line parser;
//! - [`paths`]: derivation of the application's well-known paths;
//! - [`repo`]: repository names and the content of a sample repository;
//! - [`strutil`]: verified text helpers shared by the modules above.
//!
//! All input and output (terminal, filesystem, processes, git, HTTP)
//! stays outside; callers hand the library plain values and perform the
//! effects and actions it returns.

pub mod config;
pub mod dispatch;
pub mod filter;
pub mod menu;
pub mod nav;
pub mod paths;
pub mod repo;
pub mod strutil;

//! A media-library cataloguer: a pool of storage connections addressed by
//! stable indices (`pool`), a depth-bounded directory scanner driven as a
//! worklist (`scanner`), and the decisions of the effect dispatcher that ties
//! them to the UI state (`dispatch`), with the settings pages and input
//! widgets that feed it.

pub mod config;
pub mod dispatch;
pub mod keys;
pub mod library;
pub mod localfs;
pub mod nfo;
pub mod pool;
pub mod scanner;
pub mod settings;
pub mod text;
pub mod widgets;

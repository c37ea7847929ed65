//! Verified core of the TrackMLN screen-time tracker: how executable paths
//! become app identities and display names, how settings and goals are
//! normalised, how tracked sessions are bucketed and summarised, and how
//! goal limits decide when to warn.

pub mod unicode;
pub mod text;
pub mod names;
pub mod manifest;
pub mod versioninfo;
pub mod labels;
pub mod cache;
pub mod resolver;
pub mod paths;
pub mod settings;
pub mod models;
pub mod goals;
pub mod limits;
pub mod usage;
pub mod calendar;
pub mod week;
pub mod session;
pub mod alerts;
pub mod installer;
pub mod grouping;
pub mod hotkey;

//! Command builders, output parsers and decisions of a desktop front end for
//! the Android Debug Bridge, with their contracts.

use vstd::prelude::*;

pub mod adb;
pub mod apps;
pub mod device;
pub mod external;
pub mod files;
pub mod input;
pub mod logcat;
pub mod menu;
pub mod model;
pub mod oauth;
pub mod permissions;
pub mod preview;
pub mod settings;
pub mod sqlite;
pub mod text;
pub mod tools;

verus! {

} // verus!

//! Core logic of the Lifeblood manager: installed versions, launch options,
//! configuration files and the setup wizard, with their contracts.
pub mod text;
pub mod launch_data;
pub mod paths;
pub mod installation_data;
pub mod version_metadata;
pub mod install_support;
pub mod config_data;
pub mod config_data_collection;
pub mod main_widget_config;
pub mod wizard;
pub mod wizard_config;
pub mod wizard_to_config;
pub mod cli;
pub mod houdini_utils;
pub mod config_roundtrip;
pub mod wizard_pages;
pub mod wizard_summary;

use vstd::prelude::*;

verus! {

} // verus!

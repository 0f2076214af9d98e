//! Decision logic of a Windows sandbox backend: what is parsed, compared,
//! planned and answered between the native calls.

pub mod aces;
pub mod acl_builder;
pub mod acl_enforcement;
pub mod acl_entries;
pub mod acl_error;
pub mod acl_given;
pub mod acl_mutation;
pub mod acl_operations;
pub mod acl_plan;
pub mod addresses;
pub mod bytes;
pub mod collected;
pub mod descriptors;
pub mod error;
pub mod filesystem_path;
pub mod filesystem_plan;
pub mod firewall;
pub mod glob_run;
pub mod glob_scan;
pub mod intervals;
pub mod keyed;
pub mod local_ipc;
pub mod materialization;
pub mod native_path;
pub mod native_strings;
pub mod network_attribution;
pub mod network_ingress;
pub mod network_routes;
pub mod network_shared;
pub mod ordering;
pub mod outside;
pub mod owner_identity;
pub mod path_text;
pub mod process;
pub mod profile_digest;
pub mod random_sid;
pub mod runner_bootstrap;
pub mod runner_boundary;
pub mod runner_desktop;
pub mod runner_launch;
pub mod runner_output;
pub mod runner_pipe;
pub mod runner_protocol;
pub mod runner_session;
pub mod runner_stdio;
pub mod setup;
pub mod setup_error;
pub mod setup_paths;
pub mod setup_protocol;
pub mod setup_resources;
pub mod setup_rights;
pub mod setup_status;
pub mod setup_wfp;
pub mod subtree_run;
pub mod subtree_scan;
pub mod text;
pub mod utf16;

//! Typed reading, merging and interpolation of `docker-compose.yml` files.
//!
//! A field of a `docker-compose.yml` file can often be written in more than
//! one way, and almost any string in it may refer to variables of the
//! environment.  This library brings every field to one typed form, keeps
//! what refers to variables as it was written until it is resolved, merges
//! a file that overrides another into it, and writes everything back.
//!
//! The leaves of a file are [`raw_or::RawOr`] values.  The functions that
//! read the nodes of a document and write them are in [`helpers`], and the
//! text of each kind of leaf is parsed and formatted in the module of its
//! type.  Every function comes with a contract that says what it returns,
//! and the laws that hold between the functions are proved beside them:
//! that the text of a value reads back as the value, that what is shown of
//! a string is what was written, that interpolating twice is interpolating
//! once, and that a configuration without lists, merged with itself, is
//! itself.

pub mod aliased_name;
pub mod builds;
pub mod command_line;
pub mod context;
pub mod depends_on_service;
pub mod env_file;
pub mod errors;
pub mod extends;
pub mod external_network;
pub mod file;
pub mod git_url;
pub mod healthcheck;
pub mod helpers;
pub mod host_address;
pub mod host_mapping;
pub mod image;
pub mod interpolate_all;
pub mod interpolation;
pub mod logging;
pub mod memory_size;
pub mod merge_override;
pub mod mode_enum;
pub mod network;
pub mod network_interface;
pub mod node;
pub mod permissions;
pub mod port_mapping;
pub mod raw_or;
pub mod service;
pub mod service_volume;
pub mod sorted_map;
pub mod text;
pub mod ulimit;
pub mod validate;
pub mod volume;
pub mod volume_modes;
pub mod volume_mount;
pub mod volumes_from;

//! Core of a self-organizing peer-to-peer overlay node.
//!
//! The identifier space of 256-bit names is partitioned among sections
//! identified by binary prefixes.  Each section is governed by a committee of
//! elders, and reaches agreement on membership changes using BLS threshold
//! signatures accumulated across the elder set.

pub mod accumulator;
pub mod adult;
pub mod bytes_util;
pub mod codec;
pub mod crypto;
pub mod delivery_group;
pub mod error;
pub mod event;
pub mod get_group_key_response;
pub mod location;
pub mod members;
pub mod messages;
pub mod peer;
pub mod proof_chain;
pub mod section;
pub mod section_map;
pub mod service;
pub mod shared_state;
pub mod stage;
pub mod states;
pub mod text;
pub mod types;
pub mod vote;
pub mod xor_space;

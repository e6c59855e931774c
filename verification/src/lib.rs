use vstd::prelude::*;

pub mod text;
pub mod model;
pub mod table;
pub mod action;
pub mod action_handlers;
pub mod action_registry;
pub mod protocol;
pub mod knowledge;
pub mod profiles;
pub mod workbench_surface;
pub mod viewer;
pub mod index;
pub mod theme;
pub mod mod_extensions;
pub mod runtime;
pub mod nostr;
pub mod hex;
pub mod crypto;
pub mod identity;
pub mod nostr_event;
pub mod renderer;
pub mod agent;
pub mod nostr_signer;
pub mod trust;
pub mod nip46_flow;
pub mod relay_messages;
pub mod nip46_rpc;

verus! {
} // verus!

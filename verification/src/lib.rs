//! Multi-tenant permission and credential registry.
//!
//! Organizations register themselves, administrators issue time-bounded role
//! credentials to members, and anyone can ask whether a member may perform an
//! action on a resource.  The registry core lives in [`rbac`], with its
//! mathematical model in [`model`] and the laws it obeys in [`laws`].
//!
//! The surrounding modules model the byte-oriented key-value storage pattern
//! that the registry's host environment uses: [`assoc`] and [`kv`] give a
//! verified key-value store, and [`accesspass`], [`forms`], [`forms_v2`] and
//! [`counter`] are small registries built on it.

pub mod accesspass;
pub mod assoc;
pub mod bytevec;
pub mod counter;
pub mod credstore;
pub mod forms;
pub mod forms_debug;
pub mod forms_debug_abi;
pub mod forms_v2;
pub mod ids;
pub mod kv;
pub mod laws;
pub mod model;
pub mod rbac;

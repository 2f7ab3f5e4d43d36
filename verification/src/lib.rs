//! A point-in-time inventory of the compute resources that running pods request.
//!
//! The cluster is asked for the pods of each namespace on its own. Each answer
//! is a [`collect::NamespaceListing`]: the pods as [`raw::RawPod`] values, or
//! the failure of the query. [`collect::Inventory::absorb`] takes one answer
//! in, [`collect::collect`] merges a whole list of them. A pod that is not
//! running is passed over; a running pod becomes a
//! [`record::PodComputeInfo`], or is left out with an incident that says why
//! ([`normalize::normalize`]). What holds of every inventory is proved in
//! [`laws`].

pub mod collect;
pub mod laws;
pub mod normalize;
pub mod raw;
pub mod record;
pub mod string_map;
pub mod text;

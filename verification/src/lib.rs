//! A generic invocation layer: typed method/invoker abstractions with
//! pluggable encoders and decoders, plus a type-keyed store used both for
//! per-call context propagation and for a registry of invoker instances.

pub mod codec;
pub mod invoker;
pub mod invoker_manager;
pub mod json;
pub mod store;
pub mod transport;

use vstd::prelude::*;

use crate::invoker_manager::StoredValue;
use crate::store::TypeKeyed;

verus! {

/// A container that stores one value per concrete type and hands values
/// back by their static type, with no caller-supplied key.
pub trait Typed: Sized {
    /// The mapping from `TypeKey` to erased value that the container holds.
    spec fn table(&self) -> Map<int, StoredValue>;

    /// The container's invariant.
    spec fn table_wf(&self) -> bool;

    /// A read-only reference to the held value of type `I`, if present.
    fn get<I: TypeKeyed<StoredValue>>(&self) -> (r: Option<&I>)
        requires
            self.table_wf(),
        ensures
            match r {
                Some(t) => self.table().contains_key(I::key()) && self.table()[I::key()]
                    == t.inj(),
                None => !self.table().contains_key(I::key()),
            },
    ;

    /// A mutable reference to the held value of type `I`, if present.
    fn get_mut<I: TypeKeyed<StoredValue>>(&mut self) -> (r: Option<&mut I>)
        requires
            old(self).table_wf(),
        ensures
            final(self).table_wf(),
            r.is_none() ==> !old(self).table().contains_key(I::key()) && *final(self) == *old(
                self,
            ),
            r.is_some() ==> old(self).table().contains_key(I::key()) && old(self).table()[I::key()]
                == (*r.unwrap()).inj() && final(self).table() == old(self).table().insert(
                I::key(),
                (*final(r.unwrap())).inj(),
            ),
    ;
}

} // verus!

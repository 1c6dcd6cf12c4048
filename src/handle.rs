use vstd::prelude::*;

verus! {

/// Opaque identity of a node instance: the sole addressing primitive.
#[derive(Debug, Clone, Copy, PartialEq, Eq, Hash, Structural)]
pub struct Handle {
    pub id: u128,
}

impl Handle {
    /// Wrap a 128-bit identifier minted by the caller.
    pub fn from_u128(id: u128) -> (r: Handle)
        ensures
            r.id == id,
    {
        Handle { id }
    }

    /// The 128-bit identifier behind this handle.
    pub fn as_u128(&self) -> (r: u128)
        ensures
            r == self.id,
    {
        self.id
    }
}

/// Outbound stamp a node uses to emit impulses into its enclosing scope.
///
/// Every payload built through it carries `this_soma` as its source.
#[derive(Debug, Clone, Copy, PartialEq, Eq, Hash, Structural)]
pub struct Effector {
    pub this_soma: Handle,
}

} // verus!

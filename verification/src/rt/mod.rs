//! The runtime abstraction: the contract a concrete sandboxing backend
//! provides to host code.
//!
//! A runtime issues the scope capabilities for its foreign instance,
//! resolves the foreign entry points, and brackets every transfer of
//! control to foreign code. The reference backend lives in [`mock`].

use vstd::prelude::*;

use crate::OGResult;
use crate::abi::OGABI;
use crate::alloc_tracker::AllocTracker;
use crate::id::OGID;
use crate::markers::{AccessScope, AllocScope};

pub mod mock;

verus! {

/// The argument registers of a callback invocation, as foreign code filled
/// them.
pub trait CallbackContext: Sized {
    /// The argument registers, in order.
    spec fn arg_regs_spec(&self) -> Seq<usize>;

    /// Read one argument register, if it exists.
    fn get_argument_register(&self, reg: usize) -> (r: Option<usize>)
        ensures
            r == if (reg as int) < self.arg_regs_spec().len() {
                Some(self.arg_regs_spec()[reg as int])
            } else {
                None::<usize>
            },
    ;
}

/// The return registers of a callback invocation, as the host callback
/// fills them before control goes back to foreign code.
pub trait CallbackReturn: Sized {
    /// The return registers, in order.
    spec fn return_regs_spec(&self) -> Seq<usize>;

    /// Store one return register. Succeeds exactly when the register
    /// exists; the other registers are unchanged.
    fn set_return_register(&mut self, reg: usize, value: usize) -> (r: bool)
        ensures
            r == ((reg as int) < old(self).return_regs_spec().len()),
            r ==> final(self).return_regs_spec() == old(self).return_regs_spec().update(
                reg as int,
                value,
            ),
            !r ==> final(self).return_regs_spec() == old(self).return_regs_spec(),
    ;
}

/// The contract a concrete sandboxing backend provides.
///
/// Backend-specific operations (scoped allocation, callback registration
/// and dispatch) live on the backend type itself, stated over its own
/// allocation tracker; this trait covers identity, symbol resolution, and
/// the bracket around a foreign call.
pub trait OGRuntime: Sized {
    type ID: OGID;

    type AllocTracker: AllocTracker;

    type ABI: OGABI;

    type SymbolTableState;

    /// The imprint of the instance this runtime manages.
    spec fn id_imprint_spec(&self) -> <Self::ID as OGID>::Imprint;

    /// Return the imprint of the instance this runtime manages.
    fn id_imprint(&self) -> (r: <Self::ID as OGID>::Imprint)
        ensures
            r == self.id_imprint_spec(),
    ;

    /// One-time binding of the required foreign entry points, named by the
    /// given symbol strings. `None` is reported to callers as
    /// [`SymbolNotFound`](crate::OGError::SymbolNotFound).
    fn resolve_symbols(&self, symbol_table: &Vec<Vec<u8>>) -> Option<Self::SymbolTableState>;

    /// Look up the address of a previously resolved symbol. `None` is
    /// reported to callers as
    /// [`SymbolNotFound`](crate::OGError::SymbolNotFound).
    fn lookup_symbol(
        &self,
        compact_symtab_index: usize,
        symtab_state: &Self::SymbolTableState,
    ) -> Option<usize>;

    /// Bracket the transfer of control to foreign code.
    ///
    /// Both scopes of this instance must be presented: succeeds exactly
    /// when their imprints match the runtime's own, and then runs `f` (the
    /// invocation itself). Foreign code may rewrite foreign memory at will,
    /// so nothing is promised about the arena contents afterwards; the
    /// scopes still belong to the same instance, and the allocations are
    /// those the host had made.
    fn execute<R, F: FnOnce() -> R>(
        &self,
        alloc_scope: &mut AllocScope<Self::AllocTracker, Self::ID>,
        access_scope: &mut AccessScope<Self::ID>,
        f: F,
    ) -> (r: OGResult<R>)
        requires
            f.requires(()),
        ensures
            (r is Ok) <==> (old(alloc_scope).id_imprint_spec() == self.id_imprint_spec() && old(
                access_scope,
            ).id_imprint_spec() == self.id_imprint_spec()),
            r matches Ok(v) ==> f.ensures((), v),
            r matches Err(e) ==> e == crate::OGError::IDMismatch && *final(access_scope) == *old(
                access_scope,
            ),
            *final(alloc_scope) == *old(alloc_scope),
            final(access_scope).id_imprint_spec() == old(access_scope).id_imprint_spec(),
            final(access_scope).mem_spec().len() == old(access_scope).mem_spec().len(),
    ;
}

} // verus!

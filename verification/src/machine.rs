//! A minimal token machine: one indivisible token moves through a hierarchy
//! of references.
//!
//! Every reference is derived from a parent reference (the root is its own
//! parent), and the token may only travel along these parent/child edges: a
//! parent lends it to a child, and the child eventually hands it back, dying
//! in the process. Exactly one reference owns the token at any time, and only
//! the owner may use it to access the modeled memory location.

use vstd::prelude::*;

verus! {

/// Lifecycle of a reference.
#[derive(Debug, Copy, Clone, Eq, PartialEq, Structural)]
pub enum RefState {
    /// The reference has never held the token.
    Created,
    /// The reference has received the token from its parent at some point,
    /// though it may have passed it on since.
    Borrowing,
    /// The reference has returned the token to its parent and can never
    /// receive it again.
    Dead,
}

/// An opaque reference identity: an index into the machine's registry.
#[derive(Debug, Copy, Clone, Eq, PartialEq, Structural)]
pub struct Reference(pub u32);

/// The registry record of one reference.
#[derive(Debug, Copy, Clone, Eq, PartialEq, Structural)]
pub struct RefInfo {
    /// The reference this reference was derived from.
    pub parent: Reference,
    /// Current lifecycle state of the reference.
    pub state: RefState,
}

/// The machine itself: a registry of references and the current owner of the
/// single token.
#[derive(Debug, Clone)]
pub struct TokenMachine {
    pub ref_count: u32,
    /// The reference that currently holds the token.
    pub current_owner: Reference,
    pub ref_info: Vec<RefInfo>,
}

/// Order on lifecycle states: a reference may stay where it is or move
/// forward (`Created` before `Borrowing` before `Dead`), never backward.
pub open spec fn lifecycle_le(a: RefState, b: RefState) -> bool {
    match (a, b) {
        (RefState::Created, _) => true,
        (RefState::Borrowing, RefState::Borrowing) => true,
        (RefState::Borrowing, RefState::Dead) => true,
        (RefState::Dead, RefState::Dead) => true,
        _ => false,
    }
}

/// Every reference present before an operation is still present afterwards
/// and its lifecycle state has only moved forward.
pub open spec fn lifecycle_advances(pre: Seq<RefInfo>, post: Seq<RefInfo>) -> bool {
    &&& post.len() >= pre.len()
    &&& forall|i: int| 0 <= i < pre.len() ==> lifecycle_le(pre[i].state, (#[trigger] post[i]).state)
}

impl TokenMachine {
    /// `r` is an identity this machine has allocated.
    pub open spec fn valid_ref(self, r: Reference) -> bool {
        r.0 < self.ref_count
    }

    /// The registry record of `r`.
    pub open spec fn info(self, r: Reference) -> RefInfo {
        self.ref_info@[r.0 as int]
    }

    /// Well-formedness: the registry has one record per allocated identity,
    /// every parent edge points at an allocated identity, and so does the
    /// current owner.
    pub open spec fn wf(self) -> bool {
        &&& self.ref_info@.len() == self.ref_count
        &&& self.current_owner.0 < self.ref_count
        &&& forall|i: int| 0 <= i < self.ref_info@.len()
            ==> (#[trigger] self.ref_info@[i]).parent.0 < self.ref_count
    }

    /// In the initial state there is a single reference, borrowing from
    /// itself, holding the token. The self-loop spares the registry an
    /// optional parent field: lookups treat the root like every other node.
    pub fn init() -> (r: (Reference, Self))
        ensures
            r.1.wf(),
            r.0 == (Reference(0)),
            r.1.ref_count == 1,
            r.1.current_owner == (Reference(0)),
            (r.1.ref_info@ == seq![RefInfo { parent: Reference(0), state: RefState::Borrowing }]),
    {
        let initial_ref = Reference(0);
        let mut ref_info: Vec<RefInfo> = Vec::new();
        ref_info.push(RefInfo { parent: initial_ref, state: RefState::Borrowing });
        let m = TokenMachine { ref_count: 1, current_owner: initial_ref, ref_info };
        proof {
            assert(m.ref_info@ =~= seq![
                RefInfo { parent: Reference(0), state: RefState::Borrowing },
            ]);
        }
        (initial_ref, m)
    }

    /// Create a new reference with another reference as its parent. The new
    /// reference can only ever receive the token from that parent.
    pub fn create_ref(&mut self, parent: Reference) -> (new_ref: Reference)
        requires
            old(self).wf(),
            old(self).valid_ref(parent),
            old(self).ref_count < u32::MAX,
        ensures
            final(self).wf(),
            new_ref == (Reference(old(self).ref_count)),
            final(self).ref_count == old(self).ref_count + 1,
            final(self).current_owner == old(self).current_owner,
            (final(self).ref_info@ == old(self).ref_info@.push(
                RefInfo { parent: parent, state: RefState::Created },
            )),
            lifecycle_advances(old(self).ref_info@, final(self).ref_info@),
    {
        let id = self.ref_count;
        self.ref_count = self.ref_count + 1;
        let new_ref = Reference(id);
        self.ref_info.push(RefInfo { parent, state: RefState::Created });
        new_ref
    }

    /// Lend the token from a parent to its child: `target` is the child and
    /// the token moves from the parent recorded at `target`'s creation.
    ///
    /// The parent must currently hold the token, and the child must never
    /// have held it before; anything else is a fatal modeling error, so those
    /// calls are excluded up front.
    pub fn borrow_token(&mut self, target: Reference)
        requires
            old(self).wf(),
            old(self).valid_ref(target),
            old(self).info(target).parent == old(self).current_owner,
            old(self).info(target).state == RefState::Created,
        ensures
            final(self).wf(),
            final(self).ref_count == old(self).ref_count,
            final(self).current_owner == target,
            (final(self).ref_info@ == old(self).ref_info@.update(
                target.0 as int,
                RefInfo { state: RefState::Borrowing, ..old(self).info(target) },
            )),
            lifecycle_advances(old(self).ref_info@, final(self).ref_info@),
    {
        let t: usize = target.0 as usize;
        let target_info = self.ref_info[t];
        // Once a reference has received the token its state becomes
        // Borrowing, recording that it has held the token at some point and
        // will die when it returns it to its parent.
        self.ref_info[t] = RefInfo { state: RefState::Borrowing, ..target_info };
        self.current_owner = target;
    }

    /// Return the token from the current owner to its parent. The owner dies
    /// and can never receive the token again.
    pub fn return_token(&mut self)
        requires
            old(self).wf(),
        ensures
            final(self).wf(),
            final(self).ref_count == old(self).ref_count,
            final(self).current_owner == old(self).info(old(self).current_owner).parent,
            (final(self).ref_info@ == old(self).ref_info@.update(
                old(self).current_owner.0 as int,
                RefInfo { state: RefState::Dead, ..old(self).info(old(self).current_owner) },
            )),
            lifecycle_advances(old(self).ref_info@, final(self).ref_info@),
    {
        let s: usize = self.current_owner.0 as usize;
        let source_info = self.ref_info[s];
        self.ref_info[s] = RefInfo { state: RefState::Dead, ..source_info };
        self.current_owner = source_info.parent;
    }

    /// Use the token to perform a memory access, which only the current
    /// owner may do.
    pub fn use_token(&mut self, source: Reference)
        requires
            old(self).wf(),
            source == old(self).current_owner,
        ensures
            *final(self) == *old(self),
    {
    }
}

} // verus!

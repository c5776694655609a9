//! The full token machine: fungible token units, a permission register, and
//! the access validator of the aliasing discipline.
//!
//! The machine models exactly one memory location and a tree of references
//! derived from a single root. The root starts out holding the entire token
//! in exclusive read-write mode. Token units may be lent along parent/child
//! edges, returned (whole, never as a fragment), split into further units and
//! merged back. The permission register — read-only versus read-write — may
//! only be changed by the sole holder of the only outstanding unit, and the
//! access validator decides from a reference's kind, its holdings and the
//! register whether a requested read or write respects the discipline.
//!
//! A violated precondition is a fault of the traced program, not of the
//! machine: every operation either fully commits its transition or rejects
//! with a named fault and no observable side effect.

use vstd::prelude::*;

verus! {

/// Lifecycle of a reference.
#[derive(Debug, Copy, Clone, Eq, PartialEq, Structural)]
pub enum RefState {
    /// The reference has never held a token unit.
    Created,
    /// The reference has received a token unit at some point, though it may
    /// have passed all of it on since.
    Borrowing,
    /// The reference has given back the unit it received — in its entirety,
    /// not only some split piece of it — and is permanently excluded from
    /// future lending.
    Dead,
}

/// Kind of a reference, fixed at creation.
#[derive(Debug, Copy, Clone, Eq, PartialEq, Structural)]
pub enum RefKind {
    SharedReadOnly,
    SharedReadWrite,
    Unique,
}

/// An opaque reference identity: an index into the machine's registry.
#[derive(Debug, Copy, Clone, Eq, PartialEq, Structural)]
pub struct Reference(pub u32);

/// The registry record of one reference.
#[derive(Debug, Copy, Clone, Eq, PartialEq, Structural)]
pub struct RefInfo {
    pub kind: RefKind,
    pub state: RefState,
    /// The reference this reference was derived from.
    pub parent: Reference,
    /// How many token units this reference currently holds.
    pub num_tokens: u32,
    /// Into how many outstanding pieces this reference has fragmented its
    /// part of the token. A reference must reassemble everything it split
    /// before it can return its unit to its parent.
    pub num_splits: u32,
}

/// Sharing regime of the token, derived from the global unit count — never
/// stored, so it can never go stale.
#[derive(Debug, Copy, Clone, Eq, PartialEq, Structural)]
pub enum TokenExclusivity {
    Shared,
    Exclusive,
}

/// The stored half of the permission register.
#[derive(Debug, Copy, Clone, Eq, PartialEq, Structural)]
pub enum TokenPermissions {
    ReadOnly,
    ReadWrite,
}

/// The full permission register as the access validator sees it: the derived
/// exclusivity paired with the stored access mode.
#[derive(Debug, Copy, Clone, Eq, PartialEq, Structural)]
pub struct TokenInfo(pub TokenExclusivity, pub TokenPermissions);

/// A requested access.
#[derive(Debug, Copy, Clone, Eq, PartialEq, Structural)]
pub enum AccessKind {
    Read,
    Write,
}

/// Faults of the registry, ledger and register operations. Each names the
/// precondition that the traced program violated.
#[derive(Debug, Copy, Clone, Eq, PartialEq, Structural)]
pub enum TokenError {
    /// A read-only reference tried to spawn a descendant that is not itself
    /// read-only.
    KindViolation,
    /// A reference tried to lend or split a unit it does not hold.
    InsufficientTokens,
    /// A dead reference was offered a fresh grant from its parent.
    DeadTarget,
    /// A reference tried to give back a unit it does not hold.
    NoTokenToReturn,
    /// A reference tried to give back its unit while pieces it split off are
    /// still outstanding.
    PartialReturnForbidden,
    /// A reference tried to merge without two units and an outstanding
    /// split of its own.
    NothingToMerge,
    /// The access mode was changed by a reference that does not hold the
    /// sole outstanding unit.
    NotExclusive,
}

/// Faults of the access validator. Each names the rule of the discipline
/// that the requested access broke.
#[derive(Debug, Copy, Clone, Eq, PartialEq, Structural)]
pub enum AccessViolation {
    /// The reference holds no token unit.
    NoToken,
    /// The reference is dead.
    DeadReference,
    /// A write was requested through a read-only reference.
    ReadOnlyViolation,
    /// A read was requested while a concurrently active writer is possible:
    /// the token is shared and in read-write mode.
    ReadConflict,
    /// A write was requested through a shared read-write reference while the
    /// register is in read-only mode.
    WriteModeConflict,
    /// A write was requested through a unique reference that is not the sole
    /// holder of a write-capable token.
    WriteNotExclusive,
}

/// The machine: the reference registry, the token ledger and the stored half
/// of the permission register.
#[derive(Debug, Clone)]
pub struct TokenMachine {
    pub ref_count: u32,
    /// Total number of token units in existence; always the sum of the
    /// units held across all references.
    pub token_count: u32,
    pub ref_info: Vec<RefInfo>,
    pub token_perms: TokenPermissions,
}

/// Units held across all references.
pub open spec fn sum_tokens(refs: Seq<RefInfo>) -> int
    decreases refs.len(),
{
    if refs.len() == 0 {
        0
    } else {
        sum_tokens(refs.drop_last()) + refs.last().num_tokens
    }
}

/// Outstanding splits across all references.
pub open spec fn sum_splits(refs: Seq<RefInfo>) -> int
    decreases refs.len(),
{
    if refs.len() == 0 {
        0
    } else {
        sum_splits(refs.drop_last()) + refs.last().num_splits
    }
}

/// Order on lifecycle states: a reference may stay where it is or move
/// forward (`Created` before `Borrowing` before `Dead`), never backward.
pub open spec fn lifecycle_le(a: RefState, b: RefState) -> bool {
    match (a, b) {
        (RefState::Created, _) => true,
        (RefState::Borrowing, RefState::Borrowing) => true,
        (RefState::Borrowing, RefState::Dead) => true,
        (RefState::Dead, RefState::Dead) => true,
        _ => false,
    }
}

/// Every reference present before an operation is still present afterwards
/// and its lifecycle state has only moved forward.
pub open spec fn lifecycle_advances(pre: Seq<RefInfo>, post: Seq<RefInfo>) -> bool {
    &&& post.len() >= pre.len()
    &&& forall|i: int| 0 <= i < pre.len() ==> lifecycle_le(pre[i].state, (#[trigger] post[i]).state)
}

/// Every parent edge points at an allocated identity.
pub open spec fn parents_ok(refs: Seq<RefInfo>) -> bool {
    forall|i: int| 0 <= i < refs.len() ==> (#[trigger] refs[i]).parent.0 < refs.len()
}

/// The ledger balances: the units held across all references sum to the
/// global unit count, and the count exceeds the outstanding splits by
/// exactly the one unit the machine started with.
pub open spec fn ledger_balanced(refs: Seq<RefInfo>, token_count: u32) -> bool {
    &&& sum_tokens(refs) == token_count
    &&& 1 + sum_splits(refs) == token_count
}

/// The registry record of `r`.
pub open spec fn ref_at(refs: Seq<RefInfo>, r: Reference) -> RefInfo {
    refs[r.0 as int]
}

/// The registry record of the root reference.
pub open spec fn root_info() -> RefInfo {
    RefInfo {
        kind: RefKind::Unique,
        state: RefState::Borrowing,
        parent: Reference(0),
        num_tokens: 1,
        num_splits: 0,
    }
}

/// A reference may spawn a descendant of kind `kind` unless it is read-only
/// and the descendant would not be: a read-only reference must not hand out
/// mutable access it does not have itself.
pub open spec fn create_allowed(refs: Seq<RefInfo>, parent: Reference, kind: RefKind) -> bool {
    !(ref_at(refs, parent).kind == RefKind::SharedReadOnly && kind != RefKind::SharedReadOnly)
}

/// The registry record of a freshly created reference.
pub open spec fn created_info(parent: Reference, kind: RefKind) -> RefInfo {
    RefInfo { kind, state: RefState::Created, parent, num_tokens: 0, num_splits: 0 }
}

/// Lending one unit to `target` is allowed when `target`'s parent holds a
/// unit to lend and `target` is not dead. A still-living reference may
/// receive a second unit; a dead one never receives again.
pub open spec fn borrow_allowed(refs: Seq<RefInfo>, target: Reference) -> bool {
    &&& ref_at(refs, ref_at(refs, target).parent).num_tokens >= 1
    &&& ref_at(refs, target).state != RefState::Dead
}

/// The fault a disallowed lend reports: a parent without units comes first,
/// then a dead target.
pub open spec fn borrow_fault(refs: Seq<RefInfo>, target: Reference) -> TokenError {
    if ref_at(refs, ref_at(refs, target).parent).num_tokens == 0 {
        TokenError::InsufficientTokens
    } else {
        TokenError::DeadTarget
    }
}

/// The registry after lending one unit to `target`: one unit moves from the
/// parent to `target`, whose state becomes `Borrowing`. The two updates are
/// sequential, so lending from a reference to itself leaves its holdings
/// unchanged.
pub open spec fn borrow_result(refs: Seq<RefInfo>, target: Reference) -> Seq<RefInfo> {
    let source = ref_at(refs, target).parent;
    let s = source.0 as int;
    let t = target.0 as int;
    let step = refs.update(
        s,
        RefInfo { num_tokens: (refs[s].num_tokens - 1) as u32, ..refs[s] },
    );
    step.update(
        t,
        RefInfo {
            num_tokens: (step[t].num_tokens + 1) as u32,
            state: RefState::Borrowing,
            ..step[t]
        },
    )
}

/// Returning a unit is allowed when `source` holds one and has no
/// outstanding splits: a reference gives back the entire unit it received,
/// never just some piece of it.
pub open spec fn return_allowed(refs: Seq<RefInfo>, source: Reference) -> bool {
    &&& ref_at(refs, source).num_tokens >= 1
    &&& ref_at(refs, source).num_splits == 0
}

/// The fault a disallowed return reports: a missing unit comes first, then
/// outstanding splits.
pub open spec fn return_fault(refs: Seq<RefInfo>, source: Reference) -> TokenError {
    if ref_at(refs, source).num_tokens == 0 {
        TokenError::NoTokenToReturn
    } else {
        TokenError::PartialReturnForbidden
    }
}

/// The registry after `source` returns one unit to its parent. If that
/// leaves `source` with no units it dies; a reference left holding further
/// units — received through repeated lending — stays alive. The parent may
/// itself be dead: deadness blocks fresh grants, not return traffic relayed
/// from children. The updates are sequential, so the self-parented root
/// returns the unit to itself and nothing changes.
pub open spec fn return_result(refs: Seq<RefInfo>, source: Reference) -> Seq<RefInfo> {
    let target = ref_at(refs, source).parent;
    let s = source.0 as int;
    let t = target.0 as int;
    let step = refs.update(
        s,
        RefInfo { num_tokens: (refs[s].num_tokens - 1) as u32, ..refs[s] },
    );
    let moved = step.update(
        t,
        RefInfo { num_tokens: (step[t].num_tokens + 1) as u32, ..step[t] },
    );
    if moved[s].num_tokens == 0 {
        moved.update(s, RefInfo { state: RefState::Dead, ..moved[s] })
    } else {
        moved
    }
}

/// Splitting is allowed when `source` holds a unit to fragment.
pub open spec fn dup_allowed(refs: Seq<RefInfo>, source: Reference) -> bool {
    ref_at(refs, source).num_tokens >= 1
}

/// The registry after `source` fragments one of its units into two, both of
/// which it keeps.
pub open spec fn dup_result(refs: Seq<RefInfo>, source: Reference) -> Seq<RefInfo> {
    let s = source.0 as int;
    refs.update(
        s,
        RefInfo {
            num_tokens: (refs[s].num_tokens + 1) as u32,
            num_splits: (refs[s].num_splits + 1) as u32,
            ..refs[s]
        },
    )
}

/// Merging is allowed when `source` holds two units and at least one of them
/// came from a split of its own; a reference holding several whole units
/// received through repeated lending has nothing to merge.
pub open spec fn merge_allowed(refs: Seq<RefInfo>, source: Reference) -> bool {
    &&& ref_at(refs, source).num_tokens >= 2
    &&& ref_at(refs, source).num_splits >= 1
}

/// The registry after `source` recombines two of its units into one.
pub open spec fn merge_result(refs: Seq<RefInfo>, source: Reference) -> Seq<RefInfo> {
    let s = source.0 as int;
    refs.update(
        s,
        RefInfo {
            num_tokens: (refs[s].num_tokens - 1) as u32,
            num_splits: (refs[s].num_splits - 1) as u32,
            ..refs[s]
        },
    )
}

/// Changing the access mode requires the caller to hold the sole
/// outstanding unit: exclusivity must hold at the moment of the change.
pub open spec fn set_perms_allowed(refs: Seq<RefInfo>, token_count: u32, source: Reference) -> bool {
    &&& ref_at(refs, source).num_tokens >= 1
    &&& token_count == 1
}

/// Reading is safe whenever no writer can be concurrently active: the token
/// is either shared in read-only mode or held exclusively.
pub open spec fn read_allowed(info: TokenInfo) -> bool {
    info.0 == TokenExclusivity::Exclusive || info.1 == TokenPermissions::ReadOnly
}

/// The permission lattice of the discipline: whether a reference of kind
/// `kind` may perform `access` under the register `info`.
pub open spec fn access_allowed(kind: RefKind, info: TokenInfo, access: AccessKind) -> bool {
    match (kind, access) {
        // Reading through a read-only view needs the absence of writers.
        (RefKind::SharedReadOnly, AccessKind::Read) => read_allowed(info),
        // A read-only reference never writes.
        (RefKind::SharedReadOnly, AccessKind::Write) => false,
        // Any token regime permits a read through a read-write-capable
        // shared reference.
        (RefKind::SharedReadWrite, AccessKind::Read) => true,
        // Several shared read-write references may write concurrently, as
        // long as the register is in write mode.
        (RefKind::SharedReadWrite, AccessKind::Write) => info.1 == TokenPermissions::ReadWrite,
        // A unique reference reads under the same condition as a read-only
        // one: no writer may be active.
        (RefKind::Unique, AccessKind::Read) => read_allowed(info),
        // A unique reference writes only as the sole holder of a
        // write-capable unit.
        (RefKind::Unique, AccessKind::Write) => info == (TokenInfo(
            TokenExclusivity::Exclusive,
            TokenPermissions::ReadWrite,
        )),
    }
}

/// The violation a disallowed access reports, naming the rule it broke.
pub open spec fn access_fault(kind: RefKind, access: AccessKind) -> AccessViolation {
    match (kind, access) {
        (RefKind::SharedReadOnly, AccessKind::Read) => AccessViolation::ReadConflict,
        (RefKind::SharedReadOnly, AccessKind::Write) => AccessViolation::ReadOnlyViolation,
        (RefKind::SharedReadWrite, _) => AccessViolation::WriteModeConflict,
        (RefKind::Unique, AccessKind::Read) => AccessViolation::ReadConflict,
        (RefKind::Unique, AccessKind::Write) => AccessViolation::WriteNotExclusive,
    }
}

proof fn lemma_sum_tokens_push(refs: Seq<RefInfo>, v: RefInfo)
    ensures
        sum_tokens(refs.push(v)) == sum_tokens(refs) + v.num_tokens,
{
    assert(refs.push(v).drop_last() =~= refs);
}

proof fn lemma_sum_splits_push(refs: Seq<RefInfo>, v: RefInfo)
    ensures
        sum_splits(refs.push(v)) == sum_splits(refs) + v.num_splits,
{
    assert(refs.push(v).drop_last() =~= refs);
}

proof fn lemma_sum_tokens_update(refs: Seq<RefInfo>, i: int, v: RefInfo)
    requires
        0 <= i < refs.len(),
    ensures
        sum_tokens(refs.update(i, v)) == sum_tokens(refs) - refs[i].num_tokens + v.num_tokens,
    decreases refs.len(),
{
    let u = refs.update(i, v);
    if i == refs.len() - 1 {
        assert(u.drop_last() =~= refs.drop_last());
        assert(u.last() == v);
    } else {
        assert(u.drop_last() =~= refs.drop_last().update(i, v));
        lemma_sum_tokens_update(refs.drop_last(), i, v);
        assert(u.last() == refs.last());
    }
}

proof fn lemma_sum_splits_update(refs: Seq<RefInfo>, i: int, v: RefInfo)
    requires
        0 <= i < refs.len(),
    ensures
        sum_splits(refs.update(i, v)) == sum_splits(refs) - refs[i].num_splits + v.num_splits,
    decreases refs.len(),
{
    let u = refs.update(i, v);
    if i == refs.len() - 1 {
        assert(u.drop_last() =~= refs.drop_last());
        assert(u.last() == v);
    } else {
        assert(u.drop_last() =~= refs.drop_last().update(i, v));
        lemma_sum_splits_update(refs.drop_last(), i, v);
        assert(u.last() == refs.last());
    }
}

proof fn lemma_sum_tokens_nonneg(refs: Seq<RefInfo>)
    ensures
        sum_tokens(refs) >= 0,
    decreases refs.len(),
{
    if refs.len() > 0 {
        lemma_sum_tokens_nonneg(refs.drop_last());
    }
}

proof fn lemma_sum_splits_nonneg(refs: Seq<RefInfo>)
    ensures
        sum_splits(refs) >= 0,
    decreases refs.len(),
{
    if refs.len() > 0 {
        lemma_sum_splits_nonneg(refs.drop_last());
    }
}

/// No single reference holds more units than exist in the ledger.
proof fn lemma_sum_tokens_le(refs: Seq<RefInfo>, i: int)
    requires
        0 <= i < refs.len(),
    ensures
        refs[i].num_tokens <= sum_tokens(refs),
    decreases refs.len(),
{
    if i == refs.len() - 1 {
        lemma_sum_tokens_nonneg(refs.drop_last());
    } else {
        lemma_sum_tokens_le(refs.drop_last(), i);
        assert(refs.drop_last()[i] == refs[i]);
    }
}

/// No single reference has more outstanding splits than the whole ledger.
proof fn lemma_sum_splits_le(refs: Seq<RefInfo>, i: int)
    requires
        0 <= i < refs.len(),
    ensures
        refs[i].num_splits <= sum_splits(refs),
    decreases refs.len(),
{
    if i == refs.len() - 1 {
        lemma_sum_splits_nonneg(refs.drop_last());
    } else {
        lemma_sum_splits_le(refs.drop_last(), i);
        assert(refs.drop_last()[i] == refs[i]);
    }
}

/// Global unit conservation: in a well-formed machine the units held across
/// all references sum to the recorded global unit count. Every operation
/// preserves well-formedness, and each one's contract shows the count
/// unchanged except by a split or a merge.
pub proof fn lemma_unit_conservation(m: TokenMachine)
    requires
        m.wf(),
    ensures
        sum_tokens(m.ref_info@) == m.token_count,
{
}

/// `Dead` is absorbing: wherever lifecycle states have only moved forward, a
/// reference that was dead is dead still.
pub proof fn lemma_dead_is_absorbing(pre: Seq<RefInfo>, post: Seq<RefInfo>, i: int)
    requires
        lifecycle_advances(pre, post),
        0 <= i < pre.len(),
        pre[i].state == RefState::Dead,
    ensures
        post[i].state == RefState::Dead,
{
    assert(lifecycle_le(pre[i].state, post[i].state));
}

/// Whole-unit return: a reference whose split count is nonzero cannot return
/// its unit, whatever else holds of it.
pub proof fn lemma_whole_unit_return(refs: Seq<RefInfo>, source: Reference)
    requires
        source.0 < refs.len(),
        ref_at(refs, source).num_splits != 0,
    ensures
        !return_allowed(refs, source),
{
}

/// After a successful split, returning is blocked: the split leaves the
/// source with an outstanding split, which only a matching merge removes.
pub proof fn lemma_split_blocks_return(refs: Seq<RefInfo>, token_count: u32, source: Reference)
    requires
        ledger_balanced(refs, token_count),
        source.0 < refs.len(),
        dup_allowed(refs, source),
    ensures
        !return_allowed(dup_result(refs, source), source),
{
    lemma_sum_splits_le(refs, source.0 as int);
}

/// Split/merge round trip: a split followed immediately by a merge on the
/// same reference restores its holdings, its split count and — by the two
/// operations' contracts on the global count — the count as well.
pub proof fn lemma_split_merge_round_trip(refs: Seq<RefInfo>, token_count: u32, source: Reference)
    requires
        ledger_balanced(refs, token_count),
        source.0 < refs.len(),
        dup_allowed(refs, source),
        token_count < u32::MAX,
    ensures
        merge_allowed(dup_result(refs, source), source),
        merge_result(dup_result(refs, source), source) == refs,
{
    lemma_sum_tokens_le(refs, source.0 as int);
    lemma_sum_splits_le(refs, source.0 as int);
    assert(merge_result(dup_result(refs, source), source) =~= refs);
}

/// Exclusivity gating: a reference that holds a unit may change the access
/// mode exactly when the global unit count is one.
pub proof fn lemma_exclusivity_gate(refs: Seq<RefInfo>, token_count: u32, source: Reference)
    requires
        source.0 < refs.len(),
        ref_at(refs, source).num_tokens >= 1,
    ensures
        set_perms_allowed(refs, token_count, source) <==> token_count == 1,
{
}

/// A dead reference cannot re-receive: when returning its single unit kills
/// `source`, any subsequent lend to `source` is turned away as a grant to
/// the dead — and not for the parent's want of units, which the return
/// itself has replenished.
pub proof fn lemma_dead_cannot_receive(refs: Seq<RefInfo>, token_count: u32, source: Reference)
    requires
        ledger_balanced(refs, token_count),
        parents_ok(refs),
        source.0 < refs.len(),
        return_allowed(refs, source),
        ref_at(refs, source).num_tokens == 1,
        ref_at(refs, source).parent != source,
    ensures
        ref_at(return_result(refs, source), source).num_tokens == 0,
        ref_at(return_result(refs, source), source).state == RefState::Dead,
        !borrow_allowed(return_result(refs, source), source),
        borrow_fault(return_result(refs, source), source) == TokenError::DeadTarget,
{
    let s = source.0 as int;
    let target = ref_at(refs, source).parent;
    let t = target.0 as int;
    let step = refs.update(s, RefInfo { num_tokens: (refs[s].num_tokens - 1) as u32, ..refs[s] });
    lemma_sum_tokens_update(
        refs,
        s,
        RefInfo { num_tokens: (refs[s].num_tokens - 1) as u32, ..refs[s] },
    );
    lemma_sum_tokens_le(step, t);
}

impl TokenMachine {
    /// `r` is an identity this machine has allocated.
    pub open spec fn valid_ref(self, r: Reference) -> bool {
        r.0 < self.ref_count
    }

    /// The registry record of `r`.
    pub open spec fn info(self, r: Reference) -> RefInfo {
        ref_at(self.ref_info@, r)
    }

    /// Exclusivity is derived from the live unit count, never stored.
    pub open spec fn exclusivity(self) -> TokenExclusivity {
        if self.token_count == 1 {
            TokenExclusivity::Exclusive
        } else {
            TokenExclusivity::Shared
        }
    }

    /// The current permission register.
    pub open spec fn token_info(self) -> TokenInfo {
        TokenInfo(self.exclusivity(), self.token_perms)
    }

    /// Well-formedness: one registry record per allocated identity, every
    /// parent edge in range, and a balanced ledger.
    pub open spec fn wf(self) -> bool {
        &&& self.ref_info@.len() == self.ref_count
        &&& parents_ok(self.ref_info@)
        &&& ledger_balanced(self.ref_info@, self.token_count)
    }

    /// The access validator's decision for `source` requesting `access`: a
    /// unit-less reference is turned away first, a dead one second — a dead
    /// reference cannot access even while relaying units — and what remains
    /// is judged by the permission lattice.
    pub open spec fn use_token_decision(self, source: Reference, access: AccessKind) -> Result<
        (),
        AccessViolation,
    > {
        if self.info(source).num_tokens == 0 {
            Err(AccessViolation::NoToken)
        } else if self.info(source).state == RefState::Dead {
            Err(AccessViolation::DeadReference)
        } else if access_allowed(self.info(source).kind, self.token_info(), access) {
            Ok(())
        } else {
            Err(access_fault(self.info(source).kind, access))
        }
    }

    /// In the initial state there is a single reference — borrowing from
    /// itself, which spares the registry an optional parent field — holding
    /// the whole token in exclusive read-write mode.
    pub fn init() -> (r: (Reference, Self))
        ensures
            r.1.wf(),
            r.0 == (Reference(0)),
            r.1.ref_count == 1,
            r.1.token_count == 1,
            r.1.token_perms == TokenPermissions::ReadWrite,
            (r.1.ref_info@ == seq![root_info()]),
    {
        let initial_ref = Reference(0);
        let mut ref_info: Vec<RefInfo> = Vec::new();
        ref_info.push(RefInfo {
            kind: RefKind::Unique,
            state: RefState::Borrowing,
            parent: initial_ref,
            num_tokens: 1,
            num_splits: 0,
        });
        let m = TokenMachine {
            ref_count: 1,
            token_count: 1,
            ref_info,
            token_perms: TokenPermissions::ReadWrite,
        };
        proof {
            assert(m.ref_info@ =~= seq![root_info()]);
            assert(m.ref_info@.drop_last() =~= Seq::<RefInfo>::empty());
            assert(sum_tokens(m.ref_info@.drop_last()) == 0);
            assert(sum_splits(m.ref_info@.drop_last()) == 0);
        }
        (initial_ref, m)
    }

    /// Create a new reference with `parent` as its parent; the new reference
    /// can only initially receive a token unit from that parent. Fails with
    /// [`TokenError::KindViolation`] when a read-only parent would spawn a
    /// descendant that is not itself read-only.
    pub fn create_ref(&mut self, parent: Reference, kind: RefKind) -> (r: Result<
        Reference,
        TokenError,
    >)
        requires
            old(self).wf(),
            old(self).valid_ref(parent),
            old(self).ref_count < u32::MAX,
        ensures
            final(self).wf(),
            final(self).token_count == old(self).token_count,
            final(self).token_perms == old(self).token_perms,
            lifecycle_advances(old(self).ref_info@, final(self).ref_info@),
            create_allowed(old(self).ref_info@, parent, kind) ==> r == Ok::<_, TokenError>(
                Reference(old(self).ref_count),
            ),
            create_allowed(old(self).ref_info@, parent, kind) ==> final(self).ref_count == old(
                self,
            ).ref_count + 1,
            create_allowed(old(self).ref_info@, parent, kind) ==> final(self).ref_info@ == old(
                self,
            ).ref_info@.push(created_info(parent, kind)),
            !create_allowed(old(self).ref_info@, parent, kind) ==> r == Err::<Reference, _>(
                TokenError::KindViolation,
            ),
            !create_allowed(old(self).ref_info@, parent, kind) ==> *final(self) == *old(self),
    {
        let p: usize = parent.0 as usize;
        let parent_info = self.ref_info[p];
        if parent_info.kind == RefKind::SharedReadOnly && kind != RefKind::SharedReadOnly {
            // Prevent a read-only reference from spawning mutable references
            // and using them to mutate.
            return Err(TokenError::KindViolation);
        }
        let id = self.ref_count;
        self.ref_count = self.ref_count + 1;
        let new_ref = Reference(id);
        self.ref_info.push(RefInfo {
            kind,
            state: RefState::Created,
            parent,
            num_tokens: 0,
            num_splits: 0,
        });
        proof {
            lemma_sum_tokens_push(old(self).ref_info@, created_info(parent, kind));
            lemma_sum_splits_push(old(self).ref_info@, created_info(parent, kind));
        }
        Ok(new_ref)
    }

    /// Lend one token unit along the fixed derivation edge: the unit moves
    /// from `target`'s parent to `target`, whose state becomes `Borrowing`.
    /// Fails with [`TokenError::InsufficientTokens`] when the parent holds no
    /// unit, and with [`TokenError::DeadTarget`] when `target` is dead —
    /// deadness blocks fresh grants from the parent.
    pub fn borrow_token(&mut self, target: Reference) -> (r: Result<(), TokenError>)
        requires
            old(self).wf(),
            old(self).valid_ref(target),
        ensures
            final(self).wf(),
            final(self).ref_count == old(self).ref_count,
            final(self).token_count == old(self).token_count,
            final(self).token_perms == old(self).token_perms,
            lifecycle_advances(old(self).ref_info@, final(self).ref_info@),
            borrow_allowed(old(self).ref_info@, target) ==> r == Ok::<_, TokenError>(()),
            borrow_allowed(old(self).ref_info@, target) ==> final(self).ref_info@ == borrow_result(
                old(self).ref_info@,
                target,
            ),
            !borrow_allowed(old(self).ref_info@, target) ==> r == Err::<(), _>(
                borrow_fault(old(self).ref_info@, target),
            ),
            !borrow_allowed(old(self).ref_info@, target) ==> *final(self) == *old(self),
    {
        let t: usize = target.0 as usize;
        let target_info = self.ref_info[t];
        let source = target_info.parent;
        let s: usize = source.0 as usize;
        let source_info = self.ref_info[s];

        // The source must own a unit to lend one out.
        if source_info.num_tokens == 0 {
            return Err(TokenError::InsufficientTokens);
        }
        // The target must be ready to receive a unit.
        if target_info.state == RefState::Dead {
            return Err(TokenError::DeadTarget);
        }

        self.ref_info[s] = RefInfo { num_tokens: source_info.num_tokens - 1, ..source_info };
        proof {
            lemma_sum_tokens_update(
                old(self).ref_info@,
                s as int,
                RefInfo { num_tokens: (source_info.num_tokens - 1) as u32, ..source_info },
            );
            lemma_sum_splits_update(
                old(self).ref_info@,
                s as int,
                RefInfo { num_tokens: (source_info.num_tokens - 1) as u32, ..source_info },
            );
            // After taking a unit from the source, the target holds at most
            // token_count - 1 units, so adding one cannot overflow.
            lemma_sum_tokens_le(self.ref_info@, t as int);
        }
        let ghost mid = self.ref_info@;
        let target_info2 = self.ref_info[t];
        self.ref_info[t] = RefInfo {
            num_tokens: target_info2.num_tokens + 1,
            state: RefState::Borrowing,
            ..target_info2
        };
        proof {
            lemma_sum_tokens_update(
                mid,
                t as int,
                RefInfo {
                    num_tokens: (target_info2.num_tokens + 1) as u32,
                    state: RefState::Borrowing,
                    ..target_info2
                },
            );
            lemma_sum_splits_update(
                mid,
                t as int,
                RefInfo {
                    num_tokens: (target_info2.num_tokens + 1) as u32,
                    state: RefState::Borrowing,
                    ..target_info2
                },
            );
        }
        Ok(())
    }

    /// Return one unit from `source` to its parent; if that leaves `source`
    /// with nothing it dies and can never receive a unit again. Fails with
    /// [`TokenError::NoTokenToReturn`] when `source` holds no unit, and with
    /// [`TokenError::PartialReturnForbidden`] while pieces `source` split off
    /// are still outstanding: only the whole unit may be given back.
    pub fn return_token(&mut self, source: Reference) -> (r: Result<(), TokenError>)
        requires
            old(self).wf(),
            old(self).valid_ref(source),
        ensures
            final(self).wf(),
            final(self).ref_count == old(self).ref_count,
            final(self).token_count == old(self).token_count,
            final(self).token_perms == old(self).token_perms,
            lifecycle_advances(old(self).ref_info@, final(self).ref_info@),
            return_allowed(old(self).ref_info@, source) ==> r == Ok::<_, TokenError>(()),
            return_allowed(old(self).ref_info@, source) ==> final(self).ref_info@ == return_result(
                old(self).ref_info@,
                source,
            ),
            !return_allowed(old(self).ref_info@, source) ==> r == Err::<(), _>(
                return_fault(old(self).ref_info@, source),
            ),
            !return_allowed(old(self).ref_info@, source) ==> *final(self) == *old(self),
    {
        let s: usize = source.0 as usize;
        let source_info = self.ref_info[s];

        if source_info.num_tokens == 0 {
            return Err(TokenError::NoTokenToReturn);
        }
        if source_info.num_splits > 0 {
            return Err(TokenError::PartialReturnForbidden);
        }

        let target = source_info.parent;
        let t: usize = target.0 as usize;

        self.ref_info[s] = RefInfo { num_tokens: source_info.num_tokens - 1, ..source_info };
        proof {
            lemma_sum_tokens_update(
                old(self).ref_info@,
                s as int,
                RefInfo { num_tokens: (source_info.num_tokens - 1) as u32, ..source_info },
            );
            lemma_sum_splits_update(
                old(self).ref_info@,
                s as int,
                RefInfo { num_tokens: (source_info.num_tokens - 1) as u32, ..source_info },
            );
            // After taking the unit from the source, the parent holds at
            // most token_count - 1 units, so adding one cannot overflow.
            lemma_sum_tokens_le(self.ref_info@, t as int);
        }
        let ghost mid = self.ref_info@;
        let target_info = self.ref_info[t];
        self.ref_info[t] = RefInfo { num_tokens: target_info.num_tokens + 1, ..target_info };
        proof {
            lemma_sum_tokens_update(
                mid,
                t as int,
                RefInfo { num_tokens: (target_info.num_tokens + 1) as u32, ..target_info },
            );
            lemma_sum_splits_update(
                mid,
                t as int,
                RefInfo { num_tokens: (target_info.num_tokens + 1) as u32, ..target_info },
            );
        }
        let ghost moved = self.ref_info@;
        if self.ref_info[s].num_tokens == 0 {
            // You die when you give back your whole unit, meaning you can
            // never receive one again.
            let dead_info = self.ref_info[s];
            self.ref_info[s] = RefInfo { state: RefState::Dead, ..dead_info };
            proof {
                lemma_sum_tokens_update(
                    moved,
                    s as int,
                    RefInfo { state: RefState::Dead, ..moved[s as int] },
                );
                lemma_sum_splits_update(
                    moved,
                    s as int,
                    RefInfo { state: RefState::Dead, ..moved[s as int] },
                );
            }
        }
        Ok(())
    }

    /// Fragment one of `source`'s units into two, both still owned by
    /// `source` — modeling divergent, still-aliasing uses drawn from the same
    /// reference. Fails with [`TokenError::InsufficientTokens`] when `source`
    /// holds no unit to fragment.
    pub fn dup_token(&mut self, source: Reference) -> (r: Result<(), TokenError>)
        requires
            old(self).wf(),
            old(self).valid_ref(source),
            old(self).token_count < u32::MAX,
        ensures
            final(self).wf(),
            final(self).ref_count == old(self).ref_count,
            final(self).token_perms == old(self).token_perms,
            lifecycle_advances(old(self).ref_info@, final(self).ref_info@),
            dup_allowed(old(self).ref_info@, source) ==> r == Ok::<_, TokenError>(()),
            dup_allowed(old(self).ref_info@, source) ==> final(self).ref_info@ == dup_result(
                old(self).ref_info@,
                source,
            ),
            dup_allowed(old(self).ref_info@, source) ==> final(self).token_count == old(
                self,
            ).token_count + 1,
            !dup_allowed(old(self).ref_info@, source) ==> r == Err::<(), _>(
                TokenError::InsufficientTokens,
            ),
            !dup_allowed(old(self).ref_info@, source) ==> *final(self) == *old(self),
    {
        let s: usize = source.0 as usize;
        let source_info = self.ref_info[s];

        if source_info.num_tokens == 0 {
            return Err(TokenError::InsufficientTokens);
        }

        proof {
            // The holdings of one reference never exceed the global count,
            // and its splits stay one below it, so neither increment can
            // overflow.
            lemma_sum_tokens_le(self.ref_info@, s as int);
            lemma_sum_splits_le(self.ref_info@, s as int);
        }
        self.ref_info[s] = RefInfo {
            num_tokens: source_info.num_tokens + 1,
            num_splits: source_info.num_splits + 1,
            ..source_info
        };
        self.token_count = self.token_count + 1;
        proof {
            lemma_sum_tokens_update(
                old(self).ref_info@,
                s as int,
                RefInfo {
                    num_tokens: (source_info.num_tokens + 1) as u32,
                    num_splits: (source_info.num_splits + 1) as u32,
                    ..source_info
                },
            );
            lemma_sum_splits_update(
                old(self).ref_info@,
                s as int,
                RefInfo {
                    num_tokens: (source_info.num_tokens + 1) as u32,
                    num_splits: (source_info.num_splits + 1) as u32,
                    ..source_info
                },
            );
        }
        Ok(())
    }

    /// Recombine two of `source`'s units into one, undoing a split. Fails
    /// with [`TokenError::NothingToMerge`] unless `source` holds at least two
    /// units and at least one outstanding split of its own.
    pub fn merge_token(&mut self, source: Reference) -> (r: Result<(), TokenError>)
        requires
            old(self).wf(),
            old(self).valid_ref(source),
        ensures
            final(self).wf(),
            final(self).ref_count == old(self).ref_count,
            final(self).token_perms == old(self).token_perms,
            lifecycle_advances(old(self).ref_info@, final(self).ref_info@),
            merge_allowed(old(self).ref_info@, source) ==> r == Ok::<_, TokenError>(()),
            merge_allowed(old(self).ref_info@, source) ==> final(self).ref_info@ == merge_result(
                old(self).ref_info@,
                source,
            ),
            merge_allowed(old(self).ref_info@, source) ==> final(self).token_count == old(
                self,
            ).token_count - 1,
            !merge_allowed(old(self).ref_info@, source) ==> r == Err::<(), _>(
                TokenError::NothingToMerge,
            ),
            !merge_allowed(old(self).ref_info@, source) ==> *final(self) == *old(self),
    {
        let s: usize = source.0 as usize;
        let source_info = self.ref_info[s];

        if source_info.num_tokens <= 1 {
            return Err(TokenError::NothingToMerge);
        }
        if source_info.num_splits == 0 {
            return Err(TokenError::NothingToMerge);
        }

        proof {
            // An outstanding split means the global count is at least two,
            // so the decrement cannot underflow.
            lemma_sum_splits_le(self.ref_info@, s as int);
        }
        self.ref_info[s] = RefInfo {
            num_tokens: source_info.num_tokens - 1,
            num_splits: source_info.num_splits - 1,
            ..source_info
        };
        self.token_count = self.token_count - 1;
        proof {
            lemma_sum_tokens_update(
                old(self).ref_info@,
                s as int,
                RefInfo {
                    num_tokens: (source_info.num_tokens - 1) as u32,
                    num_splits: (source_info.num_splits - 1) as u32,
                    ..source_info
                },
            );
            lemma_sum_splits_update(
                old(self).ref_info@,
                s as int,
                RefInfo {
                    num_tokens: (source_info.num_tokens - 1) as u32,
                    num_splits: (source_info.num_splits - 1) as u32,
                    ..source_info
                },
            );
        }
        Ok(())
    }

    /// The register as `source` currently sees it: `None` without a unit,
    /// otherwise the derived exclusivity paired with the stored access mode.
    pub fn get_token_info(&self, source: Reference) -> (r: Option<TokenInfo>)
        requires
            self.wf(),
            self.valid_ref(source),
        ensures
            self.info(source).num_tokens == 0 ==> r is None,
            self.info(source).num_tokens >= 1 ==> r == Some(self.token_info()),
    {
        let s: usize = source.0 as usize;
        let source_info = self.ref_info[s];

        if source_info.num_tokens == 0 {
            return None;
        }

        let exclusivity = if self.token_count == 1 {
            TokenExclusivity::Exclusive
        } else {
            TokenExclusivity::Shared
        };

        Some(TokenInfo(exclusivity, self.token_perms))
    }

    /// Set the stored access mode of the token. Changing the mode is itself
    /// treated as a write, so it passes the same exclusivity gate a write
    /// would: it fails with [`TokenError::NotExclusive`] unless `source`
    /// holds the sole outstanding unit.
    pub fn set_token_perms(&mut self, source: Reference, token_perms: TokenPermissions) -> (r:
        Result<(), TokenError>)
        requires
            old(self).wf(),
            old(self).valid_ref(source),
        ensures
            final(self).wf(),
            final(self).ref_count == old(self).ref_count,
            final(self).token_count == old(self).token_count,
            final(self).ref_info@ == old(self).ref_info@,
            lifecycle_advances(old(self).ref_info@, final(self).ref_info@),
            set_perms_allowed(old(self).ref_info@, old(self).token_count, source) ==> r == Ok::<
                _,
                TokenError,
            >(()),
            set_perms_allowed(old(self).ref_info@, old(self).token_count, source)
                ==> final(self).token_perms == token_perms,
            !set_perms_allowed(old(self).ref_info@, old(self).token_count, source) ==> r == Err::<
                (),
                _,
            >(TokenError::NotExclusive),
            !set_perms_allowed(old(self).ref_info@, old(self).token_count, source) ==> *final(self)
                == *old(self),
    {
        let token_info = match self.get_token_info(source) {
            None => {
                return Err(TokenError::NotExclusive);
            },
            Some(info) => info,
        };

        if !matches!(token_info.0, TokenExclusivity::Exclusive) {
            return Err(TokenError::NotExclusive);
        }

        self.token_perms = token_perms;
        Ok(())
    }

    /// Use a token unit to perform a memory access: the access validator's
    /// decision procedure, and the only place application-visible aliasing
    /// violations originate. The machine itself is left untouched.
    pub fn use_token(&mut self, source: Reference, access_kind: AccessKind) -> (r: Result<
        (),
        AccessViolation,
    >)
        requires
            old(self).wf(),
            old(self).valid_ref(source),
        ensures
            *final(self) == *old(self),
            r == old(self).use_token_decision(source, access_kind),
    {
        let token_info = match self.get_token_info(source) {
            None => {
                return Err(AccessViolation::NoToken);
            },
            Some(info) => info,
        };

        let s: usize = source.0 as usize;
        let source_info = self.ref_info[s];

        if source_info.state == RefState::Dead {
            return Err(AccessViolation::DeadReference);
        }

        match source_info.kind {
            RefKind::SharedReadOnly => match access_kind {
                AccessKind::Read => {
                    if token_info.0 == TokenExclusivity::Exclusive || token_info.1
                        == TokenPermissions::ReadOnly {
                        Ok(())
                    } else {
                        Err(AccessViolation::ReadConflict)
                    }
                },
                AccessKind::Write => Err(AccessViolation::ReadOnlyViolation),
            },
            RefKind::SharedReadWrite => match access_kind {
                AccessKind::Read => Ok(()),
                AccessKind::Write => {
                    if token_info.1 == TokenPermissions::ReadWrite {
                        Ok(())
                    } else {
                        Err(AccessViolation::WriteModeConflict)
                    }
                },
            },
            RefKind::Unique => match access_kind {
                AccessKind::Read => {
                    if token_info.0 == TokenExclusivity::Exclusive || token_info.1
                        == TokenPermissions::ReadOnly {
                        Ok(())
                    } else {
                        Err(AccessViolation::ReadConflict)
                    }
                },
                AccessKind::Write => {
                    if token_info.0 == TokenExclusivity::Exclusive && token_info.1
                        == TokenPermissions::ReadWrite {
                        Ok(())
                    } else {
                        Err(AccessViolation::WriteNotExclusive)
                    }
                },
            },
        }
    }
}

} // verus!

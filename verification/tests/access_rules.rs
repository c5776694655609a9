use token_machine::machine2::{
    AccessKind, AccessViolation, RefKind, TokenError, TokenExclusivity, TokenInfo, TokenMachine,
    TokenPermissions,
};

#[test]
fn read_only_parent_spawns_only_read_only_children() {
    let (root, mut m) = TokenMachine::init();
    let r = m.create_ref(root, RefKind::SharedReadOnly).unwrap();
    assert_eq!(m.create_ref(r, RefKind::Unique), Err(TokenError::KindViolation));
    assert_eq!(
        m.create_ref(r, RefKind::SharedReadWrite),
        Err(TokenError::KindViolation)
    );
    assert!(m.create_ref(r, RefKind::SharedReadOnly).is_ok());
}

#[test]
fn unique_root_writes_and_read_only_child_reads_under_exclusivity() {
    // A unique root holding the single unit in read-write mode may write.
    let (root, mut m) = TokenMachine::init();
    assert_eq!(m.use_token(root, AccessKind::Write), Ok(()));

    // Lending moves the unit instead of creating one, so the global count
    // stays one and exclusivity still holds for the child's read.
    let child = m.create_ref(root, RefKind::SharedReadOnly).unwrap();
    m.borrow_token(child).unwrap();
    assert_eq!(m.token_count, 1);
    assert_eq!(m.use_token(child, AccessKind::Read), Ok(()));
}

#[test]
fn set_access_mode_needs_the_sole_outstanding_unit() {
    let (root, mut m) = TokenMachine::init();
    assert_eq!(m.set_token_perms(root, TokenPermissions::ReadOnly), Ok(()));
    assert_eq!(m.token_perms, TokenPermissions::ReadOnly);
    assert_eq!(m.set_token_perms(root, TokenPermissions::ReadWrite), Ok(()));

    m.dup_token(root).unwrap();
    m.dup_token(root).unwrap();
    assert_eq!(m.token_count, 3);
    assert_eq!(
        m.set_token_perms(root, TokenPermissions::ReadOnly),
        Err(TokenError::NotExclusive)
    );
    assert_eq!(m.token_perms, TokenPermissions::ReadWrite);

    // A reference without any unit fails the same gate even when the global
    // count is one.
    m.merge_token(root).unwrap();
    m.merge_token(root).unwrap();
    let a = m.create_ref(root, RefKind::Unique).unwrap();
    assert_eq!(m.token_count, 1);
    assert_eq!(
        m.set_token_perms(a, TokenPermissions::ReadOnly),
        Err(TokenError::NotExclusive)
    );
}

#[test]
fn get_token_info_derives_exclusivity_from_the_live_count() {
    let (root, mut m) = TokenMachine::init();
    assert_eq!(
        m.get_token_info(root),
        Some(TokenInfo(TokenExclusivity::Exclusive, TokenPermissions::ReadWrite))
    );
    m.dup_token(root).unwrap();
    assert_eq!(
        m.get_token_info(root),
        Some(TokenInfo(TokenExclusivity::Shared, TokenPermissions::ReadWrite))
    );
    let a = m.create_ref(root, RefKind::Unique).unwrap();
    assert_eq!(m.get_token_info(a), None);
}

#[test]
fn access_without_a_unit_fails() {
    let (root, mut m) = TokenMachine::init();
    let a = m.create_ref(root, RefKind::SharedReadWrite).unwrap();
    assert_eq!(m.use_token(a, AccessKind::Read), Err(AccessViolation::NoToken));
}

#[test]
fn dead_relay_cannot_access_its_held_unit() {
    let (root, mut m) = TokenMachine::init();
    let a = m.create_ref(root, RefKind::Unique).unwrap();
    let b = m.create_ref(a, RefKind::Unique).unwrap();
    m.dup_token(root).unwrap();
    m.dup_token(root).unwrap();
    m.borrow_token(a).unwrap();
    m.borrow_token(a).unwrap();
    m.borrow_token(b).unwrap();
    m.return_token(a).unwrap();
    m.return_token(b).unwrap();
    // a now holds a unit it is relaying upward, but it is dead.
    assert_eq!(m.ref_info[a.0 as usize].num_tokens, 1);
    assert_eq!(
        m.use_token(a, AccessKind::Read),
        Err(AccessViolation::DeadReference)
    );
}

#[test]
fn read_only_reference_never_writes() {
    let (root, mut m) = TokenMachine::init();
    let r = m.create_ref(root, RefKind::SharedReadOnly).unwrap();
    m.borrow_token(r).unwrap();
    assert_eq!(
        m.use_token(r, AccessKind::Write),
        Err(AccessViolation::ReadOnlyViolation)
    );
}

#[test]
fn shared_read_only_read_blocked_while_writers_are_possible() {
    let (root, mut m) = TokenMachine::init();
    let r = m.create_ref(root, RefKind::SharedReadOnly).unwrap();
    m.dup_token(root).unwrap();
    m.borrow_token(r).unwrap();
    // Shared and read-write: a writer may be active elsewhere.
    assert_eq!(
        m.use_token(r, AccessKind::Read),
        Err(AccessViolation::ReadConflict)
    );
    // In shared read-only mode the read is safe again. The mode must be set
    // before the second unit exists.
    let (root2, mut m2) = TokenMachine::init();
    m2.set_token_perms(root2, TokenPermissions::ReadOnly).unwrap();
    let r2 = m2.create_ref(root2, RefKind::SharedReadOnly).unwrap();
    m2.dup_token(root2).unwrap();
    m2.borrow_token(r2).unwrap();
    assert_eq!(m2.use_token(r2, AccessKind::Read), Ok(()));
}

#[test]
fn shared_read_write_reads_always_and_writes_in_write_mode() {
    let (root, mut m) = TokenMachine::init();
    let w = m.create_ref(root, RefKind::SharedReadWrite).unwrap();
    m.dup_token(root).unwrap();
    m.borrow_token(w).unwrap();
    // Shared and read-write: both accesses pass through a shared read-write
    // reference.
    assert_eq!(m.use_token(w, AccessKind::Read), Ok(()));
    assert_eq!(m.use_token(w, AccessKind::Write), Ok(()));

    // In read-only mode the write is refused, the read still passes.
    let (root2, mut m2) = TokenMachine::init();
    m2.set_token_perms(root2, TokenPermissions::ReadOnly).unwrap();
    let w2 = m2.create_ref(root2, RefKind::SharedReadWrite).unwrap();
    m2.borrow_token(w2).unwrap();
    assert_eq!(
        m2.use_token(w2, AccessKind::Write),
        Err(AccessViolation::WriteModeConflict)
    );
    assert_eq!(m2.use_token(w2, AccessKind::Read), Ok(()));
}

#[test]
fn unique_write_needs_exclusive_read_write_access() {
    let (root, mut m) = TokenMachine::init();
    m.dup_token(root).unwrap();
    // Two units exist, so the unique root no longer writes...
    assert_eq!(
        m.use_token(root, AccessKind::Write),
        Err(AccessViolation::WriteNotExclusive)
    );
    // ...nor reads, while the shared token is write-capable.
    assert_eq!(
        m.use_token(root, AccessKind::Read),
        Err(AccessViolation::ReadConflict)
    );
    m.merge_token(root).unwrap();
    assert_eq!(m.use_token(root, AccessKind::Write), Ok(()));

    // Exclusive but read-only: the unique reference may read, not write.
    m.set_token_perms(root, TokenPermissions::ReadOnly).unwrap();
    assert_eq!(m.use_token(root, AccessKind::Read), Ok(()));
    assert_eq!(
        m.use_token(root, AccessKind::Write),
        Err(AccessViolation::WriteNotExclusive)
    );
}

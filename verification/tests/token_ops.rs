use token_machine::machine2::{
    RefKind, RefState, Reference, TokenError, TokenMachine, TokenPermissions,
};

fn unit_sum(m: &TokenMachine) -> u64 {
    m.ref_info.iter().map(|info| info.num_tokens as u64).sum()
}

#[test]
fn init_holds_one_exclusive_read_write_unit() {
    let (root, m) = TokenMachine::init();
    assert_eq!(root, Reference(0));
    assert_eq!(m.ref_count, 1);
    assert_eq!(m.token_count, 1);
    assert_eq!(m.token_perms, TokenPermissions::ReadWrite);
    assert_eq!(m.ref_info[0].kind, RefKind::Unique);
    assert_eq!(m.ref_info[0].state, RefState::Borrowing);
    assert_eq!(m.ref_info[0].parent, root);
    assert_eq!(m.ref_info[0].num_tokens, 1);
    assert_eq!(m.ref_info[0].num_splits, 0);
}

#[test]
fn units_are_conserved_across_operations() {
    let (root, mut m) = TokenMachine::init();
    assert_eq!(unit_sum(&m), m.token_count as u64);

    let a = m.create_ref(root, RefKind::Unique).unwrap();
    assert_eq!(unit_sum(&m), m.token_count as u64);

    m.dup_token(root).unwrap();
    assert_eq!(m.token_count, 2);
    assert_eq!(unit_sum(&m), 2);

    m.borrow_token(a).unwrap();
    assert_eq!(m.token_count, 2);
    assert_eq!(unit_sum(&m), 2);

    m.return_token(a).unwrap();
    assert_eq!(m.token_count, 2);
    assert_eq!(unit_sum(&m), 2);

    m.merge_token(root).unwrap();
    assert_eq!(m.token_count, 1);
    assert_eq!(unit_sum(&m), 1);
}

#[test]
fn lending_moves_one_unit_to_the_child() {
    let (root, mut m) = TokenMachine::init();
    let a = m.create_ref(root, RefKind::Unique).unwrap();
    assert_eq!(a, Reference(1));
    m.borrow_token(a).unwrap();
    assert_eq!(m.ref_info[0].num_tokens, 0);
    assert_eq!(m.ref_info[1].num_tokens, 1);
    assert_eq!(m.ref_info[1].state, RefState::Borrowing);
    assert_eq!(m.token_count, 1);
}

#[test]
fn lending_without_a_unit_fails() {
    let (root, mut m) = TokenMachine::init();
    let a = m.create_ref(root, RefKind::Unique).unwrap();
    let b = m.create_ref(a, RefKind::Unique).unwrap();
    // a has never received a unit, so it has nothing to lend to b.
    assert_eq!(m.borrow_token(b), Err(TokenError::InsufficientTokens));
    assert_eq!(m.ref_info[b.0 as usize].state, RefState::Created);
}

#[test]
fn a_living_borrower_may_receive_a_second_unit() {
    let (root, mut m) = TokenMachine::init();
    let a = m.create_ref(root, RefKind::Unique).unwrap();
    m.dup_token(root).unwrap();
    m.borrow_token(a).unwrap();
    m.borrow_token(a).unwrap();
    assert_eq!(m.ref_info[a.0 as usize].num_tokens, 2);
    assert_eq!(m.ref_info[a.0 as usize].num_splits, 0);
    assert_eq!(m.ref_info[a.0 as usize].state, RefState::Borrowing);
}

#[test]
fn returning_without_a_unit_fails() {
    let (root, mut m) = TokenMachine::init();
    let a = m.create_ref(root, RefKind::Unique).unwrap();
    assert_eq!(m.return_token(a), Err(TokenError::NoTokenToReturn));
}

#[test]
fn whole_unit_return_blocked_until_merge() {
    let (root, mut m) = TokenMachine::init();
    m.dup_token(root).unwrap();
    assert_eq!(m.return_token(root), Err(TokenError::PartialReturnForbidden));
    m.merge_token(root).unwrap();
    let a = m.create_ref(root, RefKind::Unique).unwrap();
    m.borrow_token(a).unwrap();
    assert_eq!(m.return_token(a), Ok(()));
    assert_eq!(m.ref_info[a.0 as usize].state, RefState::Dead);
}

#[test]
fn split_then_merge_restores_the_ledger() {
    let (root, mut m) = TokenMachine::init();
    let before = (
        m.ref_info[0].num_tokens,
        m.ref_info[0].num_splits,
        m.token_count,
    );
    m.dup_token(root).unwrap();
    assert_eq!(m.ref_info[0].num_tokens, before.0 + 1);
    assert_eq!(m.ref_info[0].num_splits, before.1 + 1);
    assert_eq!(m.token_count, before.2 + 1);
    m.merge_token(root).unwrap();
    let after = (
        m.ref_info[0].num_tokens,
        m.ref_info[0].num_splits,
        m.token_count,
    );
    assert_eq!(before, after);
}

#[test]
fn splitting_without_a_unit_fails() {
    let (root, mut m) = TokenMachine::init();
    let a = m.create_ref(root, RefKind::Unique).unwrap();
    assert_eq!(m.dup_token(a), Err(TokenError::InsufficientTokens));
}

#[test]
fn merging_a_single_unit_fails() {
    let (root, mut m) = TokenMachine::init();
    assert_eq!(m.merge_token(root), Err(TokenError::NothingToMerge));
}

#[test]
fn merging_unsplit_units_fails() {
    let (root, mut m) = TokenMachine::init();
    let a = m.create_ref(root, RefKind::Unique).unwrap();
    m.dup_token(root).unwrap();
    m.borrow_token(a).unwrap();
    m.borrow_token(a).unwrap();
    // a holds two whole units received from its parent, but fragmented
    // nothing itself, so it has nothing to merge.
    assert_eq!(m.ref_info[a.0 as usize].num_tokens, 2);
    assert_eq!(m.merge_token(a), Err(TokenError::NothingToMerge));
}

#[test]
fn dead_reference_cannot_re_receive() {
    let (root, mut m) = TokenMachine::init();
    let a = m.create_ref(root, RefKind::Unique).unwrap();
    m.borrow_token(a).unwrap();
    m.return_token(a).unwrap();
    assert_eq!(m.ref_info[a.0 as usize].num_tokens, 0);
    assert_eq!(m.ref_info[a.0 as usize].state, RefState::Dead);
    // The parent got its unit back, so only deadness stands in the way.
    assert_eq!(m.ref_info[0].num_tokens, 1);
    assert_eq!(m.borrow_token(a), Err(TokenError::DeadTarget));
    assert_eq!(m.ref_info[a.0 as usize].state, RefState::Dead);
}

#[test]
fn dead_reference_relays_return_traffic() {
    let (root, mut m) = TokenMachine::init();
    let a = m.create_ref(root, RefKind::Unique).unwrap();
    let b = m.create_ref(a, RefKind::Unique).unwrap();
    // Give a two whole units so it can lend one on and still die cleanly.
    m.dup_token(root).unwrap();
    m.dup_token(root).unwrap();
    m.borrow_token(a).unwrap();
    m.borrow_token(a).unwrap();
    m.borrow_token(b).unwrap();
    m.return_token(a).unwrap();
    assert_eq!(m.ref_info[a.0 as usize].state, RefState::Dead);
    // b returns its unit to the dead a, which holds it in passing...
    m.return_token(b).unwrap();
    assert_eq!(m.ref_info[a.0 as usize].num_tokens, 1);
    assert_eq!(m.ref_info[a.0 as usize].state, RefState::Dead);
    // ...and forwards it up while staying dead.
    m.return_token(a).unwrap();
    assert_eq!(m.ref_info[a.0 as usize].num_tokens, 0);
    assert_eq!(m.ref_info[0].num_tokens, 3);
    assert_eq!(unit_sum(&m), m.token_count as u64);
}

#[test]
fn returning_from_the_self_parented_root_changes_nothing() {
    let (root, mut m) = TokenMachine::init();
    assert_eq!(m.return_token(root), Ok(()));
    assert_eq!(m.ref_info[0].num_tokens, 1);
    assert_eq!(m.ref_info[0].state, RefState::Borrowing);
    assert_eq!(m.token_count, 1);
}

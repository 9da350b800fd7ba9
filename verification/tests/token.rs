use token_combat::token::vec_to_btreemap;
use token_combat::token::TokenContainer;
use token_combat::token::TokenSet;
use token_combat::token::TokenType;
use token_combat::token::TOKEN_KINDS;

#[test]
fn should_create_btreemap_from_vec() {
    let btm = vec_to_btreemap(&[(TokenType::Vulnurable, 2), (TokenType::Block, 1)]);

    assert_eq!(btm.get(&TokenType::Block), Some(&1));
    assert_eq!(btm.get(&TokenType::Vulnurable), Some(&2));
    assert_eq!(btm.get(&TokenType::Daze), None);
}

fn get_container() -> TokenContainer {
    TokenContainer::new(&[(TokenType::Vulnurable, 2), (TokenType::Dodge, 1)])
}

#[test]
fn get_non_existing_token() {
    let tc = get_container();
    assert_eq!(tc.get_token_count(&TokenType::Block), 0);
}

#[test]
fn existing_token() {
    let mut tc = get_container();
    tc.add_token(&TokenType::Weak, 1);
    assert_eq!(tc.get_token_count(&TokenType::Weak), 1);
}

#[test]
fn more_tokens_than_default_limit() {
    let mut tc = get_container();
    tc.add_token(&TokenType::Weak, 3);
    assert_eq!(tc.get_token_count(&TokenType::Weak), 1);
}

#[test]
fn more_tokens_than_limit() {
    let mut tc = get_container();
    tc.add_token(&TokenType::Vulnurable, 5);
    assert_eq!(tc.get_token_count(&TokenType::Vulnurable), 2);
}

#[test]
fn more_tokens_than_set_existing_limit() {
    let mut tc = get_container();
    tc.set_token_limit(&TokenType::Vulnurable, 3);
    tc.add_token(&TokenType::Vulnurable, 5);
    assert_eq!(tc.get_token_count(&TokenType::Vulnurable), 3);
}

#[test]
fn more_tokens_than_newly_set_limit() {
    let mut tc = get_container();
    tc.set_token_limit(&TokenType::Daze, 2);
    tc.add_token(&TokenType::Daze, 5);
    assert_eq!(tc.get_token_count(&TokenType::Daze), 2);
}

#[test]
fn decrease_limit_with_more_tokens() {
    let mut tc = get_container();
    tc.set_token_limit(&TokenType::Daze, 4);
    tc.add_token(&TokenType::Daze, 5);
    tc.set_token_limit(&TokenType::Daze, 2);
    assert_eq!(tc.get_token_count(&TokenType::Daze), 2);
}

#[test]
fn simple() {
    let mut tc = get_container();
    tc.set_token_limit(&TokenType::Daze, 4);
    tc.add_token(&TokenType::Daze, 3);
    tc.remove_token(&TokenType::Daze, 2);
    assert_eq!(tc.get_token_count(&TokenType::Daze), 1);
}

#[test]
fn more_than_value() {
    let mut tc = get_container();
    tc.set_token_limit(&TokenType::Daze, 4);
    tc.add_token(&TokenType::Daze, 3);
    tc.remove_token(&TokenType::Daze, 5);
    assert_eq!(tc.get_token_count(&TokenType::Daze), 0);
}

#[test]
fn add_never_exceeds_capacity() {
    let mut tc = TokenContainer::new(&[(TokenType::Health, 10)]);
    for amount in [0u8, 1, 9, 10, 11, 200, 255] {
        tc.add_token(&TokenType::Health, amount);
        assert!(tc.get_token_count(&TokenType::Health) <= 10);
        tc.add_token(&TokenType::Stun, amount);
        assert!(tc.get_token_count(&TokenType::Stun) <= 1);
    }
    assert_eq!(tc.get_token_count(&TokenType::Health), 10);
    assert_eq!(tc.get_token_count(&TokenType::Stun), 1);
}

#[test]
fn add_sums_below_capacity() {
    let mut tc = TokenContainer::new(&[(TokenType::Stamina, 9)]);
    tc.add_token(&TokenType::Stamina, 3);
    tc.add_token(&TokenType::Stamina, 4);
    assert_eq!(tc.get_token_count(&TokenType::Stamina), 7);
    tc.add_token(&TokenType::Stamina, 2);
    assert_eq!(tc.get_token_count(&TokenType::Stamina), 9);
}

#[test]
fn add_past_the_largest_count_stops_at_capacity() {
    let mut tc = TokenContainer::new(&[(TokenType::Health, 255)]);
    tc.add_token(&TokenType::Health, 200);
    tc.add_token(&TokenType::Health, 100);
    assert_eq!(tc.get_token_count(&TokenType::Health), 255);
}

#[test]
fn add_nothing_leaves_kind_absent() {
    let mut tc = get_container();
    tc.add_token(&TokenType::Dodge, 0);
    assert_eq!(tc.get_token_count(&TokenType::Dodge), 0);
    assert_eq!(tc.entries(), vec![]);
}

#[test]
fn add_to_kind_without_room_leaves_it_absent() {
    let mut tc = TokenContainer::new(&[(TokenType::Block, 0)]);
    tc.add_token(&TokenType::Block, 3);
    assert_eq!(tc.get_token_count(&TokenType::Block), 0);
    assert_eq!(tc.entries(), vec![]);
}

#[test]
fn remove_leaves_the_difference_or_nothing() {
    for (held, amount, left) in [(5u8, 0u8, 5u8), (5, 2, 3), (5, 4, 1), (5, 5, 0), (5, 6, 0), (5, 255, 0)] {
        let mut tc = TokenContainer::new(&[(TokenType::Health, 5)]);
        tc.add_token(&TokenType::Health, held);
        tc.remove_token(&TokenType::Health, amount);
        assert_eq!(tc.get_token_count(&TokenType::Health), left);
        if left == 0 {
            assert_eq!(tc.entries(), vec![]);
        } else {
            assert_eq!(tc.entries(), vec![(TokenType::Health, left)]);
        }
    }
}

#[test]
fn remove_from_absent_kind_changes_nothing() {
    let mut tc = get_container();
    tc.add_token(&TokenType::Dodge, 1);
    tc.remove_token(&TokenType::Weak, 3);
    assert_eq!(tc.get_token_count(&TokenType::Weak), 0);
    assert_eq!(tc.entries(), vec![(TokenType::Dodge, 1)]);
}

#[test]
fn lowering_capacity_clamps_at_once() {
    let mut tc = TokenContainer::new(&[(TokenType::Health, 10)]);
    tc.add_token(&TokenType::Health, 8);
    tc.set_token_limit(&TokenType::Health, 3);
    assert_eq!(tc.get_token_count(&TokenType::Health), 3);
    assert_eq!(tc.get_token_limit(&TokenType::Health), 3);
    tc.add_token(&TokenType::Health, 1);
    assert_eq!(tc.get_token_count(&TokenType::Health), 3);
}

#[test]
fn lowering_capacity_to_zero_removes_the_kind() {
    let mut tc = TokenContainer::new(&[(TokenType::Health, 10)]);
    tc.add_token(&TokenType::Health, 8);
    tc.set_token_limit(&TokenType::Health, 0);
    assert_eq!(tc.get_token_count(&TokenType::Health), 0);
    assert_eq!(tc.entries(), vec![]);
}

#[test]
fn raising_capacity_keeps_the_count() {
    let mut tc = TokenContainer::new(&[(TokenType::Health, 4)]);
    tc.add_token(&TokenType::Health, 4);
    tc.set_token_limit(&TokenType::Health, 9);
    assert_eq!(tc.get_token_count(&TokenType::Health), 4);
    tc.add_token(&TokenType::Health, 9);
    assert_eq!(tc.get_token_count(&TokenType::Health), 9);
}

#[test]
fn unset_capacity_is_one() {
    let tc = get_container();
    assert_eq!(tc.get_token_limit(&TokenType::Counter), 1);
    assert_eq!(tc.get_token_limit(&TokenType::Vulnurable), 2);
}

#[test]
fn later_pair_of_a_kind_wins() {
    let btm = vec_to_btreemap(&[(TokenType::Block, 1), (TokenType::Daze, 7), (TokenType::Block, 4)]);
    assert_eq!(btm.get(&TokenType::Block), Some(&4));
    assert_eq!(btm.get(&TokenType::Daze), Some(&7));
}

#[test]
fn entries_come_in_the_order_of_the_kinds() {
    let mut tc = TokenContainer::new(&[(TokenType::Health, 10), (TokenType::Damage, 5)]);
    tc.add_token(&TokenType::Counter, 1);
    tc.add_token(&TokenType::Health, 6);
    tc.add_token(&TokenType::Dodge, 1);
    tc.add_token(&TokenType::Damage, 2);
    assert_eq!(
        tc.entries(),
        vec![
            (TokenType::Dodge, 1),
            (TokenType::Health, 6),
            (TokenType::Damage, 2),
            (TokenType::Counter, 1),
        ]
    );
}

#[test]
fn kinds_and_positions_are_inverse() {
    for i in 0..TOKEN_KINDS {
        let kind = TokenType::from_index(i).unwrap();
        assert_eq!(kind.index(), i);
    }
    assert_eq!(TokenType::from_index(TOKEN_KINDS), None);
    assert_eq!(TokenType::from_index(255), None);
    assert_eq!(TokenType::Dodge.index(), 0);
    assert_eq!(TokenType::Counter.index(), 14);
}

#[test]
fn token_set_holds_what_was_put_in() {
    let mut set = TokenSet::new();
    assert!(!set.contains(&TokenType::Dodge));
    assert!(set.insert(TokenType::Dodge));
    assert!(!set.insert(TokenType::Dodge));
    assert!(set.contains(&TokenType::Dodge));
    assert!(!set.contains(&TokenType::Blind));

    let listed = TokenSet::from_slice(&[TokenType::Blind, TokenType::Stun, TokenType::Blind]);
    assert!(listed.contains(&TokenType::Blind));
    assert!(listed.contains(&TokenType::Stun));
    assert!(!listed.contains(&TokenType::Dodge));
}

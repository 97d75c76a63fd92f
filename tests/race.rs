use race_solana::{create_pool, end_race, initialize, join_race, ErrorCode, Identity, Payout, Pool, RaceAdmin};

fn id(b: u8) -> Identity {
    Identity::new([b; 32])
}

fn admin() -> RaceAdmin {
    RaceAdmin { authority: id(200), burn_wallet: id(201), mint_authority: id(202) }
}

fn amounts(p: &[Payout]) -> Vec<u64> {
    p.iter().map(|x| x.amount).collect()
}

fn pool_with(entry_amount: u64, players: &[u8]) -> Pool {
    let mut pool = create_pool(id(100), None, entry_amount).unwrap();
    for &p in players {
        join_race(&mut pool, &admin(), id(p)).unwrap();
    }
    pool
}

#[test]
fn every_accepted_entry_amount_opens_a_pool() {
    for a in [50_000_000u64, 100_000_000, 250_000_000, 500_000_000, 1_000_000_000] {
        let pool = create_pool(id(1), Some(10), a).unwrap();
        assert_eq!(pool.entry_amount, a);
        assert!(pool.is_active);
        assert!(pool.participants.is_empty());
        assert_eq!(pool.authority, id(1));
        assert_eq!(pool.max_participants, Some(10));
    }
}

#[test]
fn other_entry_amounts_are_refused() {
    for a in [0u64, 1, 49_999_999, 50_000_001, 75_000_000, 2_000_000_000, u64::MAX] {
        assert_eq!(create_pool(id(1), None, a).unwrap_err(), ErrorCode::InvalidEntryAmount);
        assert_eq!(create_pool(id(1), Some(0), a).unwrap_err(), ErrorCode::InvalidEntryAmount);
    }
}

#[test]
fn participant_cap_must_lie_between_two_and_ten() {
    assert_eq!(create_pool(id(1), Some(1), 50_000_000).unwrap_err(), ErrorCode::InvalidParticipantCount);
    assert_eq!(create_pool(id(1), Some(11), 50_000_000).unwrap_err(), ErrorCode::InvalidParticipantCount);
    assert!(create_pool(id(1), Some(2), 50_000_000).is_ok());
    assert!(create_pool(id(1), None, 50_000_000).is_ok());
}

#[test]
fn join_appends_and_orders_deposit_and_credit() {
    let mut pool = create_pool(id(1), None, 250_000_000).unwrap();
    let order = join_race(&mut pool, &admin(), id(7)).unwrap();
    assert_eq!(order.player, id(7));
    assert_eq!(order.amount, 250_000_000);
    assert_eq!(order.issuer, id(202));
    assert_eq!(pool.participants, vec![id(7)]);
}

#[test]
fn an_identity_joins_at_most_once() {
    let mut pool = create_pool(id(1), None, 50_000_000).unwrap();
    join_race(&mut pool, &admin(), id(7)).unwrap();
    join_race(&mut pool, &admin(), id(8)).unwrap();
    for _ in 0..3 {
        assert_eq!(join_race(&mut pool, &admin(), id(7)).unwrap_err(), ErrorCode::AlreadyJoined);
    }
    assert_eq!(pool.participants, vec![id(7), id(8)]);
}

#[test]
fn join_on_inactive_pool_is_refused() {
    let mut pool = pool_with(50_000_000, &[1, 2]);
    end_race(&mut pool, &vec![id(1), id(2), id(3)]).unwrap();
    assert_eq!(join_race(&mut pool, &admin(), id(9)).unwrap_err(), ErrorCode::RaceNotActive);
    assert!(pool.participants.is_empty());
    assert!(!pool.is_active);
}

#[test]
fn join_on_full_pool_is_refused() {
    let mut pool = create_pool(id(1), Some(2), 50_000_000).unwrap();
    join_race(&mut pool, &admin(), id(5)).unwrap();
    join_race(&mut pool, &admin(), id(6)).unwrap();
    assert_eq!(join_race(&mut pool, &admin(), id(7)).unwrap_err(), ErrorCode::PoolFull);
    assert_eq!(pool.participants, vec![id(5), id(6)]);
}

#[test]
fn three_participants_split_fifty_twenty_five_fifteen_ten() {
    let mut pool = pool_with(100_000_000, &[1, 2, 3]);
    let recipients = vec![id(3), id(1), id(2), id(201)];
    let payouts = end_race(&mut pool, &recipients).unwrap();
    assert_eq!(amounts(&payouts), vec![150_000_000, 75_000_000, 45_000_000, 30_000_000]);
    let to: Vec<Identity> = payouts.iter().map(|p| p.to).collect();
    assert_eq!(to, recipients);
    assert!(!pool.is_active);
    assert!(pool.participants.is_empty());
}

#[test]
fn empty_pool_refunds_its_authority() {
    let mut pool = create_pool(id(100), None, 50_000_000).unwrap();
    let payouts = end_race(&mut pool, &vec![]).unwrap();
    assert_eq!(payouts.len(), 1);
    assert_eq!(payouts[0].to, id(100));
    assert_eq!(payouts[0].amount, 50_000_000);
    assert!(!pool.is_active);
}

#[test]
fn one_participant_gets_ninety_percent() {
    let mut pool = pool_with(500_000_000, &[4]);
    let payouts = end_race(&mut pool, &vec![id(4), id(201)]).unwrap();
    assert_eq!(amounts(&payouts), vec![450_000_000, 50_000_000]);
    assert_eq!(payouts[1].to, id(201));
}

#[test]
fn two_participants_split_sixty_thirty_ten() {
    let mut pool = pool_with(1_000_000_000, &[4, 5]);
    let payouts = end_race(&mut pool, &vec![id(5), id(4), id(201)]).unwrap();
    assert_eq!(amounts(&payouts), vec![1_200_000_000, 600_000_000, 200_000_000]);
}

#[test]
fn five_participants_split_four_ways_with_no_burn_cut() {
    let mut pool = pool_with(50_000_000, &[1, 2, 3, 4, 5]);
    let recipients = vec![id(5), id(4), id(3), id(2), id(1), id(201)];
    let payouts = end_race(&mut pool, &recipients).unwrap();
    assert_eq!(amounts(&payouts), vec![125_000_000, 62_500_000, 37_500_000, 25_000_000]);
    assert_eq!(amounts(&payouts).iter().sum::<u64>(), 250_000_000);
    assert_eq!(payouts[3].to, id(2));
}

#[test]
fn rounding_loses_less_than_a_unit_per_extra_slot() {
    let mut pool = Pool {
        entry_amount: 7,
        participants: vec![id(1)],
        is_active: true,
        authority: id(100),
        max_participants: None,
    };
    let payouts = end_race(&mut pool, &vec![id(1), id(201)]).unwrap();
    assert_eq!(amounts(&payouts), vec![6, 0]);

    let mut pool = Pool {
        entry_amount: 33,
        participants: vec![id(1), id(2), id(3)],
        is_active: true,
        authority: id(100),
        max_participants: None,
    };
    let payouts = end_race(&mut pool, &vec![id(1), id(2), id(3), id(201)]).unwrap();
    assert_eq!(amounts(&payouts), vec![49, 24, 14, 9]);
    let paid: u64 = amounts(&payouts).iter().sum();
    assert!(paid <= 99 && paid + 3 >= 99);
}

#[test]
fn a_settled_pool_cannot_be_settled_again() {
    let mut pool = pool_with(100_000_000, &[1, 2]);
    end_race(&mut pool, &vec![id(1), id(2), id(201)]).unwrap();
    assert_eq!(end_race(&mut pool, &vec![id(1), id(2), id(201)]).unwrap_err(), ErrorCode::RaceNotActive);

    let mut empty = create_pool(id(100), None, 50_000_000).unwrap();
    end_race(&mut empty, &vec![]).unwrap();
    assert_eq!(end_race(&mut empty, &vec![]).unwrap_err(), ErrorCode::RaceNotActive);
}

#[test]
fn short_recipient_list_is_refused_and_pool_kept() {
    let mut pool = pool_with(100_000_000, &[1, 2, 3]);
    assert_eq!(end_race(&mut pool, &vec![id(1), id(2), id(3)]).unwrap_err(), ErrorCode::InsufficientRecipients);
    assert!(pool.is_active);
    assert_eq!(pool.participants, vec![id(1), id(2), id(3)]);
}

#[test]
fn empty_recipient_list_on_non_empty_pool_is_refused() {
    let mut pool = pool_with(100_000_000, &[1]);
    assert_eq!(end_race(&mut pool, &vec![]).unwrap_err(), ErrorCode::NoWinners);
    assert!(pool.is_active);
}

#[test]
fn pot_overflow_is_refused() {
    let mut pool = Pool {
        entry_amount: u64::MAX,
        participants: vec![id(1), id(2)],
        is_active: true,
        authority: id(100),
        max_participants: None,
    };
    assert_eq!(end_race(&mut pool, &vec![id(1), id(2), id(3)]).unwrap_err(), ErrorCode::ArithmeticOverflow);
    assert!(pool.is_active);
}

#[test]
fn largest_pot_pays_without_overflow() {
    let mut pool = Pool {
        entry_amount: u64::MAX,
        participants: vec![id(1)],
        is_active: true,
        authority: id(100),
        max_participants: None,
    };
    let payouts = end_race(&mut pool, &vec![id(1), id(2)]).unwrap();
    assert_eq!(payouts[0].amount, ((u64::MAX as u128) * 90 / 100) as u64);
    assert_eq!(payouts[1].amount, u64::MAX / 10);
}

#[test]
fn registry_is_created_once() {
    let mut registry: Option<RaceAdmin> = None;
    initialize(&mut registry, id(1), id(2), id(3)).unwrap();
    let created = registry.unwrap();
    assert_eq!(created.authority, id(1));
    assert_eq!(created.burn_wallet, id(2));
    assert_eq!(created.mint_authority, id(3));
    assert_eq!(initialize(&mut registry, id(4), id(5), id(6)).unwrap_err(), ErrorCode::AlreadyInitialized);
    assert_eq!(registry.unwrap().authority, id(1));
}

#[test]
fn identities_compare_by_all_bytes() {
    let mut b = [9u8; 32];
    assert_eq!(Identity::new(b), Identity::new([9u8; 32]));
    b[31] = 8;
    assert_ne!(Identity::new(b), Identity::new([9u8; 32]));
}

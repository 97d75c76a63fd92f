use vstd::prelude::*;
use crate::error::ErrorCode;
use crate::identity::Identity;
use crate::registry::RaceAdmin;

verus! {

/// One contest round: its stake, its participants in order of joining,
/// whether it still takes joins, who opened it, and its optional cap.
#[derive(Clone, Debug)]
pub struct Pool {
    pub entry_amount: u64,
    pub participants: Vec<Identity>,
    pub is_active: bool,
    pub authority: Identity,
    pub max_participants: Option<u64>,
}

/// A pool as a mathematical value.
pub struct PoolView {
    pub entry_amount: u64,
    pub participants: Seq<Identity>,
    pub is_active: bool,
    pub authority: Identity,
    pub max_participants: Option<u64>,
}

impl View for Pool {
    type V = PoolView;

    open spec fn view(&self) -> PoolView {
        PoolView {
            entry_amount: self.entry_amount,
            participants: self.participants@,
            is_active: self.is_active,
            authority: self.authority,
            max_participants: self.max_participants,
        }
    }
}

impl PoolView {
    /// The pool after settlement: closed, with no participants left.
    pub open spec fn closed(self) -> PoolView {
        PoolView { participants: Seq::empty(), is_active: false, ..self }
    }
}

/// The entry amounts a pool may be opened with.
pub open spec fn accepted_entry_amount(a: u64) -> bool {
    a == 50_000_000 || a == 100_000_000 || a == 250_000_000 || a == 500_000_000 || a == 1_000_000_000
}

/// A participant cap, where one is given, lies in `2..=10`.
pub open spec fn accepted_cap(cap: Option<u64>) -> bool {
    match cap {
        Some(m) => 1 < m <= 10,
        None => true,
    }
}

/// No identity occurs twice in `s`.
pub open spec fn no_duplicates(s: Seq<Identity>) -> bool {
    forall|i: int, j: int| 0 <= i < s.len() && 0 <= j < s.len() && i != j ==> s[i] != s[j]
}

impl PoolView {
    /// The pool has as many participants as its cap allows.
    pub open spec fn is_full(self) -> bool {
        match self.max_participants {
            Some(m) => self.participants.len() >= m,
            None => false,
        }
    }

    /// The invariant that every pool reached by the operations keeps.
    pub open spec fn wf(self) -> bool {
        &&& accepted_entry_amount(self.entry_amount)
        &&& accepted_cap(self.max_participants)
        &&& no_duplicates(self.participants)
        &&& match self.max_participants {
            Some(m) => self.participants.len() <= m,
            None => true,
        }
        &&& !self.is_active ==> self.participants.len() == 0
    }
}

/// What the host must carry out, in this order, for a join to stand: move
/// `amount` from `player` into the pool's custodial balance, then issue
/// `amount` participation credits to `player`, signed by `issuer`.
#[derive(Clone, Copy, Debug)]
pub struct JoinOrder {
    pub player: Identity,
    pub amount: u64,
    pub issuer: Identity,
}

/// What opening a pool yields: the new pool, or the reason it is refused.
pub open spec fn open_pool(authority: Identity, cap: Option<u64>, entry_amount: u64) -> Result<PoolView, ErrorCode> {
    if !accepted_entry_amount(entry_amount) {
        Err(ErrorCode::InvalidEntryAmount)
    } else if !accepted_cap(cap) {
        Err(ErrorCode::InvalidParticipantCount)
    } else {
        Ok(
            PoolView {
                entry_amount,
                participants: Seq::empty(),
                is_active: true,
                authority,
                max_participants: cap,
            },
        )
    }
}

/// What `player` joining `pool` yields: the pool with `player` appended and the
/// order for the host, or the reason the join is refused.
pub open spec fn join(pool: PoolView, admin: RaceAdmin, player: Identity) -> Result<(PoolView, JoinOrder), ErrorCode> {
    if !pool.is_active {
        Err(ErrorCode::RaceNotActive)
    } else if pool.participants.contains(player) {
        Err(ErrorCode::AlreadyJoined)
    } else if pool.is_full() {
        Err(ErrorCode::PoolFull)
    } else {
        Ok(
            (
                PoolView { participants: pool.participants.push(player), ..pool },
                JoinOrder { player, amount: pool.entry_amount, issuer: admin.mint_authority },
            ),
        )
    }
}

fn is_accepted_entry_amount(a: u64) -> (r: bool)
    ensures
        r == accepted_entry_amount(a),
{
    a == 50_000_000 || a == 100_000_000 || a == 250_000_000 || a == 500_000_000 || a == 1_000_000_000
}

fn holds(participants: &Vec<Identity>, player: &Identity) -> (r: bool)
    ensures
        r == participants@.contains(*player),
{
    let mut i: usize = 0;
    while i < participants.len()
        invariant
            i <= participants.len(),
            forall|j: int| 0 <= j < i ==> participants@[j] != *player,
        decreases participants.len() - i,
    {
        if participants[i] == *player {
            assert(participants@[i as int] == *player);
            return true;
        }
        i = i + 1;
    }
    false
}

/// Opens a pool for `authority` with the given stake and optional cap.
/// Fails with `InvalidEntryAmount` unless the stake is an accepted
/// denomination, and otherwise with `InvalidParticipantCount` unless the cap
/// lies in `2..=10`.
pub fn create_pool(authority: Identity, total_participants: Option<u64>, entry_amount: u64) -> (r: Result<Pool, ErrorCode>)
    ensures
        match r {
            Ok(pool) => open_pool(authority, total_participants, entry_amount) == Ok::<PoolView, ErrorCode>(pool@),
            Err(e) => open_pool(authority, total_participants, entry_amount) == Err::<PoolView, ErrorCode>(e),
        },
        r is Ok ==> r->Ok_0@.wf(),
{
    if !is_accepted_entry_amount(entry_amount) {
        return Err(ErrorCode::InvalidEntryAmount);
    }
    match total_participants {
        Some(m) => {
            if !(1 < m && m <= 10) {
                return Err(ErrorCode::InvalidParticipantCount);
            }
        },
        None => {},
    }
    let pool = Pool {
        entry_amount,
        participants: Vec::new(),
        is_active: true,
        authority,
        max_participants: total_participants,
    };
    proof {
        assert(pool@.participants =~= Seq::<Identity>::empty());
    }
    Ok(pool)
}

/// Admits `player` to an active pool it has not joined yet and that is not
/// full, and returns the deposit and credit issuance the host must carry out
/// for the join to stand. On an error the pool is unchanged.
pub fn join_race(pool: &mut Pool, admin: &RaceAdmin, player: Identity) -> (r: Result<JoinOrder, ErrorCode>)
    ensures
        match r {
            Ok(order) => join(old(pool)@, *admin, player) == Ok::<(PoolView, JoinOrder), ErrorCode>(
                (final(pool)@, order),
            ),
            Err(e) => join(old(pool)@, *admin, player) == Err::<(PoolView, JoinOrder), ErrorCode>(e)
                && final(pool)@ == old(pool)@,
        },
        old(pool)@.wf() ==> final(pool)@.wf(),
{
    if !pool.is_active {
        return Err(ErrorCode::RaceNotActive);
    }
    if holds(&pool.participants, &player) {
        return Err(ErrorCode::AlreadyJoined);
    }
    let full = match pool.max_participants {
        Some(m) => pool.participants.len() as u64 >= m,
        None => false,
    };
    if full {
        return Err(ErrorCode::PoolFull);
    }
    let order = JoinOrder { player, amount: pool.entry_amount, issuer: admin.mint_authority };
    pool.participants.push(player);
    proof {
        assert(pool@ =~= PoolView { participants: old(pool)@.participants.push(player), ..old(pool)@ });
        if old(pool)@.wf() {
            lemma_join_keeps_wf(old(pool)@, *admin, player);
        }
    }
    Ok(order)
}

/// A join keeps the pool's invariant.
pub proof fn lemma_join_keeps_wf(pool: PoolView, admin: RaceAdmin, player: Identity)
    requires
        pool.wf(),
    ensures
        join(pool, admin, player) is Ok ==> join(pool, admin, player)->Ok_0.0.wf(),
{
    if join(pool, admin, player) is Ok {
        let s = pool.participants.push(player);
        assert forall|i: int, j: int| 0 <= i < s.len() && 0 <= j < s.len() && i != j implies s[i] != s[j] by {
            if i == s.len() - 1 {
                assert(pool.participants.contains(s[j]));
            } else if j == s.len() - 1 {
                assert(pool.participants.contains(s[i]));
            }
        }
    }
}

/// Opening a pool succeeds for every accepted entry amount (given an accepted
/// cap), and fails with `InvalidEntryAmount` for every other amount, whatever
/// the cap.
pub proof fn lemma_entry_amount_decides(authority: Identity, cap: Option<u64>, entry_amount: u64)
    ensures
        accepted_entry_amount(entry_amount) && accepted_cap(cap) ==> open_pool(authority, cap, entry_amount) is Ok,
        !accepted_entry_amount(entry_amount) ==> open_pool(authority, cap, entry_amount) == Err::<PoolView, ErrorCode>(
            ErrorCode::InvalidEntryAmount,
        ),
{
}

/// The pool after `players` try to join it one after another, each refused
/// attempt leaving it as it was.
pub open spec fn join_attempts(pool: PoolView, admin: RaceAdmin, players: Seq<Identity>) -> PoolView
    decreases players.len(),
{
    if players.len() == 0 {
        pool
    } else {
        let before = join_attempts(pool, admin, players.drop_last());
        match join(before, admin, players.last()) {
            Ok((after, _)) => after,
            Err(_) => before,
        }
    }
}

/// However many join attempts are made on a pool, no identity ends up among
/// its participants twice.
pub proof fn lemma_join_attempts_unique(pool: PoolView, admin: RaceAdmin, players: Seq<Identity>)
    requires
        pool.wf(),
    ensures
        join_attempts(pool, admin, players).wf(),
        no_duplicates(join_attempts(pool, admin, players).participants),
    decreases players.len(),
{
    if players.len() > 0 {
        lemma_join_attempts_unique(pool, admin, players.drop_last());
        lemma_join_keeps_wf(join_attempts(pool, admin, players.drop_last()), admin, players.last());
    }
}

/// A join on an inactive pool is always refused with `RaceNotActive`, so the
/// participants stay as they were.
pub proof fn lemma_join_inactive(pool: PoolView, admin: RaceAdmin, player: Identity)
    requires
        !pool.is_active,
    ensures
        join(pool, admin, player) == Err::<(PoolView, JoinOrder), ErrorCode>(ErrorCode::RaceNotActive),
{
}

} // verus!

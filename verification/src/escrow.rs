use vstd::prelude::*;

verus! {

use crate::u256::U256;
use crate::depositor::{
    EvmAddress,
    DepositsReturn,
    DepositedFilter,
    RestoredFilter,
    WithdrawnFilter,
    DepositorErrors,
    DepositAlreadyExists,
    DepositAlreadyWithdrawn,
    DepositDoesNotExist,
    LockTimeTooShort,
    TimeLockNotExpired,
    ZeroAddressNotAllowed,
    ZeroDepositAmount,
};

/// One stored deposit, as mathematics: plain values only.
pub struct EscrowRecord {
    pub sender: Seq<u8>,
    pub recipient: Seq<u8>,
    pub amount: nat,
    pub lock_time: nat,
    pub is_withdrawn: bool,
}

/// The contract's storage, as mathematics: the minimum lock time and the
/// deposit mapping, keyed by secret hash. Records are never removed;
/// `is_withdrawn` marks spent ones.
pub struct EscrowState {
    pub min_lock_time: nat,
    pub deposits: Map<Seq<u8>, EscrowRecord>,
}

/// How each escrow call ends.
#[derive(PartialEq, Eq, Structural)]
pub enum EscrowOutcome {
    Accepted,
    RejectedZeroAddress,
    RejectedZeroAmount,
    RejectedDepositAlreadyExists,
    RejectedLockTimeTooShort,
    RejectedDepositDoesNotExist,
    RejectedDepositAlreadyWithdrawn,
    RejectedTimeLockNotExpired,
}

pub open spec fn is_zero_addr(a: Seq<u8>) -> bool {
    forall|i: int| 0 <= i < a.len() ==> a[i] == 0u8
}

/// The contract's `deposit(recipient, secretHash, lockTime) payable`, called
/// by `sender` with `value` attached wei: rejects a zero recipient, a zero
/// amount, an existing deposit under the same hash, and a lock time below the
/// minimum; otherwise stores the record.
pub open spec fn spec_deposit(
    s: EscrowState,
    sender: Seq<u8>,
    recipient: Seq<u8>,
    value: nat,
    h: Seq<u8>,
    lock_time: nat,
) -> (EscrowState, EscrowOutcome) {
    if is_zero_addr(recipient) {
        (s, EscrowOutcome::RejectedZeroAddress)
    } else if value == 0 {
        (s, EscrowOutcome::RejectedZeroAmount)
    } else if s.deposits.contains_key(h) {
        (s, EscrowOutcome::RejectedDepositAlreadyExists)
    } else if lock_time < s.min_lock_time {
        (s, EscrowOutcome::RejectedLockTimeTooShort)
    } else {
        (
            EscrowState {
                min_lock_time: s.min_lock_time,
                deposits: s.deposits.insert(
                    h,
                    EscrowRecord {
                        sender,
                        recipient,
                        amount: value,
                        lock_time,
                        is_withdrawn: false,
                    },
                ),
            },
            EscrowOutcome::Accepted,
        )
    }
}

/// The contract's `withdraw(secret)`: the chain computes `h` as the Poseidon
/// hash of the secret and pays the stored recipient; it succeeds exactly on a
/// present, not yet withdrawn deposit under `h`.
pub open spec fn spec_withdraw(s: EscrowState, h: Seq<u8>) -> (EscrowState, EscrowOutcome) {
    if !s.deposits.contains_key(h) {
        (s, EscrowOutcome::RejectedDepositDoesNotExist)
    } else if s.deposits[h].is_withdrawn {
        (s, EscrowOutcome::RejectedDepositAlreadyWithdrawn)
    } else {
        let r = s.deposits[h];
        (
            EscrowState {
                min_lock_time: s.min_lock_time,
                deposits: s.deposits.insert(h, EscrowRecord { is_withdrawn: true, ..r }),
            },
            EscrowOutcome::Accepted,
        )
    }
}

/// The contract's `restore(secretHash)` at wall-clock `now`: returns a
/// present, unspent deposit to its sender once the lock time has elapsed.
pub open spec fn spec_restore(s: EscrowState, h: Seq<u8>, now: nat) -> (EscrowState, EscrowOutcome) {
    if !s.deposits.contains_key(h) {
        (s, EscrowOutcome::RejectedDepositDoesNotExist)
    } else if s.deposits[h].is_withdrawn {
        (s, EscrowOutcome::RejectedDepositAlreadyWithdrawn)
    } else if now < s.deposits[h].lock_time {
        (s, EscrowOutcome::RejectedTimeLockNotExpired)
    } else {
        let r = s.deposits[h];
        (
            EscrowState {
                min_lock_time: s.min_lock_time,
                deposits: s.deposits.insert(h, EscrowRecord { is_withdrawn: true, ..r }),
            },
            EscrowOutcome::Accepted,
        )
    }
}

/// At most one deposit per hash: once a deposit under `h` is stored, a second
/// `deposit` under `h` is rejected with `DepositAlreadyExists` — whatever its
/// other arguments, as long as they pass the argument checks that come first —
/// and the storage is left unchanged.
pub proof fn lemma_at_most_one_deposit_per_hash(
    s: EscrowState,
    sender1: Seq<u8>,
    recipient1: Seq<u8>,
    value1: nat,
    h: Seq<u8>,
    lock_time1: nat,
    sender2: Seq<u8>,
    recipient2: Seq<u8>,
    value2: nat,
    lock_time2: nat,
)
    requires
        spec_deposit(s, sender1, recipient1, value1, h, lock_time1).1 == EscrowOutcome::Accepted,
        !is_zero_addr(recipient2),
        value2 > 0,
    ensures
        ({
            let s1 = spec_deposit(s, sender1, recipient1, value1, h, lock_time1).0;
            spec_deposit(s1, sender2, recipient2, value2, h, lock_time2) == (
                s1,
                EscrowOutcome::RejectedDepositAlreadyExists,
            )
        }),
{
}

/// A hash stays bound across spending: neither `withdraw` nor `restore`
/// removes a record, so `DepositAlreadyExists` also guards spent hashes.
pub proof fn lemma_records_never_deleted(s: EscrowState, h: Seq<u8>, now: nat)
    ensures
        spec_withdraw(s, h).0.deposits.dom() =~= s.deposits.dom(),
        spec_restore(s, h, now).0.deposits.dom() =~= s.deposits.dom(),
{
}

/// Withdraw inverts the hash: `withdraw(k)`, whose hash the chain evaluates
/// to `h`, succeeds exactly when an existing, non-withdrawn deposit is stored
/// under `h`; it then marks that deposit spent and pays its recipient.
pub proof fn lemma_withdraw_iff_matching_deposit(s: EscrowState, h: Seq<u8>)
    ensures
        spec_withdraw(s, h).1 == EscrowOutcome::Accepted <==> (s.deposits.contains_key(h)
            && !s.deposits[h].is_withdrawn),
        spec_withdraw(s, h).1 == EscrowOutcome::Accepted ==> spec_withdraw(
            s,
            h,
        ).0.deposits[h].is_withdrawn && spec_withdraw(s, h).0.deposits[h].recipient
            == s.deposits[h].recipient && spec_withdraw(s, h).0.deposits[h].amount
            == s.deposits[h].amount,
        spec_withdraw(s, h).1 != EscrowOutcome::Accepted ==> spec_withdraw(s, h).0 == s,
{
}

/// The mathematical record a stored row stands for.
pub open spec fn record_of(d: DepositsReturn) -> EscrowRecord {
    EscrowRecord {
        sender: d.sender.bytes@,
        recipient: d.recipient.bytes@,
        amount: d.amount@,
        lock_time: d.lock_time@,
        is_withdrawn: d.is_withdrawn,
    }
}

/// The mapping a row list stands for; a later row would win, but the ledger
/// keeps keys unique.
pub open spec fn entries_map(s: Seq<([u8; 32], DepositsReturn)>) -> Map<Seq<u8>, EscrowRecord>
    decreases s.len(),
{
    if s.len() == 0 {
        Map::empty()
    } else {
        entries_map(s.drop_last()).insert(s.last().0@, record_of(s.last().1))
    }
}

pub open spec fn entries_unique(s: Seq<([u8; 32], DepositsReturn)>) -> bool {
    forall|i: int, j: int| 0 <= i < j < s.len() ==> (#[trigger] s[i]).0@ != (#[trigger] s[j]).0@
}

proof fn lemma_entries_map_no_key(s: Seq<([u8; 32], DepositsReturn)>, k: Seq<u8>)
    requires
        forall|j: int| 0 <= j < s.len() ==> (#[trigger] s[j]).0@ != k,
    ensures
        !entries_map(s).contains_key(k),
    decreases s.len(),
{
    if s.len() > 0 {
        lemma_entries_map_no_key(s.drop_last(), k);
    }
}

proof fn lemma_entries_map_lookup(s: Seq<([u8; 32], DepositsReturn)>, i: int)
    requires
        entries_unique(s),
        0 <= i < s.len(),
    ensures
        entries_map(s).contains_key(s[i].0@),
        entries_map(s)[s[i].0@] == record_of(s[i].1),
    decreases s.len(),
{
    if i + 1 == s.len() {
    } else {
        assert(entries_unique(s.drop_last()));
        lemma_entries_map_lookup(s.drop_last(), i);
        assert(s[s.len() - 1].0@ != s[i].0@);
    }
}

proof fn lemma_entries_map_update(s: Seq<([u8; 32], DepositsReturn)>, i: int, rec: DepositsReturn)
    requires
        entries_unique(s),
        0 <= i < s.len(),
    ensures
        entries_map(s.update(i, (s[i].0, rec))) =~= entries_map(s).insert(s[i].0@, record_of(rec)),
    decreases s.len(),
{
    let s2 = s.update(i, (s[i].0, rec));
    if i + 1 == s.len() {
        assert(s2.drop_last() =~= s.drop_last());
        assert(s2.last() == (s[i].0, rec));
    } else {
        assert(entries_unique(s.drop_last()));
        lemma_entries_map_update(s.drop_last(), i, rec);
        assert(s2.drop_last() =~= s.drop_last().update(i, (s[i].0, rec)));
        assert(s2.last() == s.last());
        assert(s[s.len() - 1].0@ != s[i].0@);
        assert(entries_map(s2) =~= entries_map(s).insert(s[i].0@, record_of(rec)));
    }
}

/// The escrow contract's storage, held as a row list with unique keys.
pub struct EscrowLedger {
    min_lock_time: U256,
    entries: Vec<([u8; 32], DepositsReturn)>,
}

impl EscrowLedger {
    pub closed spec fn wf(self) -> bool {
        entries_unique(self.entries@)
    }

    pub closed spec fn view(self) -> EscrowState {
        EscrowState { min_lock_time: self.min_lock_time@, deposits: entries_map(self.entries@) }
    }

    /// An empty ledger enforcing `min_lock_time`.
    pub fn new(min_lock_time: U256) -> (r: EscrowLedger)
        ensures
            r.wf(),
            r@ == (EscrowState { min_lock_time: min_lock_time@, deposits: Map::empty() }),
    {
        let r = EscrowLedger { min_lock_time, entries: Vec::new() };
        proof {
            assert(r@.deposits =~= Map::<Seq<u8>, EscrowRecord>::empty());
        }
        r
    }

    /// The contract's `MIN_LOCK_TIME()` view.
    pub fn min_lock_time(&self) -> (r: U256)
        ensures
            r@ == self@.min_lock_time,
    {
        self.min_lock_time
    }

    fn find(&self, h: &[u8; 32]) -> (r: Option<usize>)
        requires
            self.wf(),
        ensures
            match r {
                Some(i) => i < self.entries@.len() && self.entries@[i as int].0@ == h@
                    && self@.deposits.contains_key(h@) && self@.deposits[h@] == record_of(
                    self.entries@[i as int].1,
                ),
                None => !self@.deposits.contains_key(h@),
            },
    {
        let n = self.entries.len();
        let mut i: usize = 0;
        while i < n
            invariant
                self.wf(),
                n == self.entries@.len(),
                i <= n,
                forall|j: int| 0 <= j < i ==> (#[trigger] self.entries@[j]).0@ != h@,
            decreases n - i,
        {
            if crate::depositor::bytes32_eq(&self.entries[i].0, h) {
                proof {
                    lemma_entries_map_lookup(self.entries@, i as int);
                }
                return Some(i);
            }
            i = i + 1;
        }
        proof {
            lemma_entries_map_no_key(self.entries@, h@);
        }
        None
    }

    /// Replaces row `i`'s record, keeping its key.
    fn set_record(&mut self, i: usize, rec: DepositsReturn)
        requires
            old(self).wf(),
            i < old(self).entries@.len(),
        ensures
            final(self).wf(),
            final(self)@.min_lock_time == old(self)@.min_lock_time,
            final(self)@.deposits == old(self)@.deposits.insert(
                old(self).entries@[i as int].0@,
                record_of(rec),
            ),
    {
        let key = self.entries[i].0;
        self.entries.remove(i);
        self.entries.insert(i, (key, rec));
        proof {
            assert(self.entries@ =~= old(self).entries@.update(i as int, (key, rec)));
            lemma_entries_map_update(old(self).entries@, i as int, rec);
            assert forall|a: int, b: int|
                0 <= a < b < self.entries@.len() implies (#[trigger] self.entries@[a]).0@ != (
            #[trigger] self.entries@[b]).0@ by {
                assert(old(self).entries@[a].0@ != old(self).entries@[b].0@);
            }
        }
    }

    /// The contract's `deposit` call, from `sender` with `value` attached.
    pub fn deposit(
        &mut self,
        sender: EvmAddress,
        recipient: EvmAddress,
        value: U256,
        secret_hash: [u8; 32],
        lock_time: U256,
    ) -> (r: Result<DepositedFilter, DepositorErrors>)
        requires
            old(self).wf(),
        ensures
            final(self).wf(),
            ({
                let (s2, o) = spec_deposit(
                    old(self)@,
                    sender.bytes@,
                    recipient.bytes@,
                    value@,
                    secret_hash@,
                    lock_time@,
                );
                &&& final(self)@ == s2
                &&& (r is Ok <==> o == EscrowOutcome::Accepted)
                &&& (o == EscrowOutcome::RejectedZeroAddress <==> r == Err::<
                    DepositedFilter,
                    DepositorErrors,
                >(DepositorErrors::ZeroAddressNotAllowed(ZeroAddressNotAllowed)))
                &&& (o == EscrowOutcome::RejectedZeroAmount <==> r == Err::<
                    DepositedFilter,
                    DepositorErrors,
                >(DepositorErrors::ZeroDepositAmount(ZeroDepositAmount)))
                &&& (o == EscrowOutcome::RejectedDepositAlreadyExists <==> r == Err::<
                    DepositedFilter,
                    DepositorErrors,
                >(DepositorErrors::DepositAlreadyExists(DepositAlreadyExists { secret_hash })))
                &&& (o == EscrowOutcome::RejectedLockTimeTooShort ==> (r matches Err(e) && e
                    matches DepositorErrors::LockTimeTooShort(x) && x.provided_lock_time
                    == lock_time && x.minimum_lock_time@ == old(self)@.min_lock_time))
                &&& (r matches Ok(ev) ==> ev == (DepositedFilter {
                    sender,
                    recipient,
                    amount: value,
                    lock_time,
                    secret_hash,
                }))
            }),
    {
        if recipient.is_zero() {
            proof {
                assert(is_zero_addr(recipient.bytes@));
            }
            return Err(DepositorErrors::ZeroAddressNotAllowed(ZeroAddressNotAllowed));
        }
        proof {
            assert(!is_zero_addr(recipient.bytes@));
        }
        if value.is_zero() {
            return Err(DepositorErrors::ZeroDepositAmount(ZeroDepositAmount));
        }
        if let Some(_i) = self.find(&secret_hash) {
            return Err(DepositorErrors::DepositAlreadyExists(DepositAlreadyExists { secret_hash }));
        }
        if lock_time.lt(&self.min_lock_time) {
            return Err(
                DepositorErrors::LockTimeTooShort(
                    LockTimeTooShort {
                        provided_lock_time: lock_time,
                        minimum_lock_time: self.min_lock_time,
                    },
                ),
            );
        }
        let rec = DepositsReturn { sender, recipient, amount: value, lock_time, is_withdrawn: false };
        self.entries.push((secret_hash, rec));
        proof {
            assert(self.entries@.drop_last() =~= old(self).entries@);
            assert forall|j: int|
                0 <= j < old(self).entries@.len() implies (#[trigger] old(
                self,
            ).entries@[j]).0@ != secret_hash@ by {
                lemma_entries_map_lookup(old(self).entries@, j);
            }
        }
        Ok(DepositedFilter { sender, recipient, amount: value, lock_time, secret_hash })
    }

    /// The contract's `withdraw` call: `secret_hash` is the Poseidon hash the
    /// chain computes from `secret`.
    pub fn withdraw(&mut self, secret: U256, secret_hash: [u8; 32]) -> (r: Result<
        WithdrawnFilter,
        DepositorErrors,
    >)
        requires
            old(self).wf(),
        ensures
            final(self).wf(),
            ({
                let (s2, o) = spec_withdraw(old(self)@, secret_hash@);
                &&& final(self)@ == s2
                &&& (r is Ok <==> o == EscrowOutcome::Accepted)
                &&& (o == EscrowOutcome::RejectedDepositDoesNotExist <==> r == Err::<
                    WithdrawnFilter,
                    DepositorErrors,
                >(DepositorErrors::DepositDoesNotExist(DepositDoesNotExist { secret_hash })))
                &&& (o == EscrowOutcome::RejectedDepositAlreadyWithdrawn <==> r == Err::<
                    WithdrawnFilter,
                    DepositorErrors,
                >(DepositorErrors::DepositAlreadyWithdrawn(DepositAlreadyWithdrawn { secret_hash })))
                &&& (r matches Ok(ev) ==> ev.secret == secret && ev.secret_hash == secret_hash
                    && ev.recipient.bytes@ == old(self)@.deposits[secret_hash@].recipient
                    && ev.amount@ == old(self)@.deposits[secret_hash@].amount)
            }),
    {
        match self.find(&secret_hash) {
            None => Err(DepositorErrors::DepositDoesNotExist(DepositDoesNotExist { secret_hash })),
            Some(i) => {
                let rec = self.entries[i].1;
                if rec.is_withdrawn {
                    Err(
                        DepositorErrors::DepositAlreadyWithdrawn(
                            DepositAlreadyWithdrawn { secret_hash },
                        ),
                    )
                } else {
                    let rec2 = DepositsReturn { is_withdrawn: true, ..rec };
                    self.set_record(i, rec2);
                    Ok(
                        WithdrawnFilter {
                            recipient: rec.recipient,
                            amount: rec.amount,
                            secret,
                            secret_hash,
                        },
                    )
                }
            },
        }
    }

    /// The contract's `restore` call at wall-clock `now`.
    pub fn restore(&mut self, secret_hash: [u8; 32], now: U256) -> (r: Result<
        RestoredFilter,
        DepositorErrors,
    >)
        requires
            old(self).wf(),
        ensures
            final(self).wf(),
            ({
                let (s2, o) = spec_restore(old(self)@, secret_hash@, now@);
                &&& final(self)@ == s2
                &&& (r is Ok <==> o == EscrowOutcome::Accepted)
                &&& (o == EscrowOutcome::RejectedDepositDoesNotExist <==> r == Err::<
                    RestoredFilter,
                    DepositorErrors,
                >(DepositorErrors::DepositDoesNotExist(DepositDoesNotExist { secret_hash })))
                &&& (o == EscrowOutcome::RejectedDepositAlreadyWithdrawn <==> r == Err::<
                    RestoredFilter,
                    DepositorErrors,
                >(DepositorErrors::DepositAlreadyWithdrawn(DepositAlreadyWithdrawn { secret_hash })))
                &&& (o == EscrowOutcome::RejectedTimeLockNotExpired ==> (r matches Err(e) && e
                    matches DepositorErrors::TimeLockNotExpired(x) && x.current_time == now
                    && x.lock_time@ == old(self)@.deposits[secret_hash@].lock_time))
                &&& (r matches Ok(ev) ==> ev.secret_hash == secret_hash && ev.sender.bytes@ == old(
                    self,
                )@.deposits[secret_hash@].sender && ev.amount@
                    == old(self)@.deposits[secret_hash@].amount)
            }),
    {
        match self.find(&secret_hash) {
            None => Err(DepositorErrors::DepositDoesNotExist(DepositDoesNotExist { secret_hash })),
            Some(i) => {
                let rec = self.entries[i].1;
                if rec.is_withdrawn {
                    Err(
                        DepositorErrors::DepositAlreadyWithdrawn(
                            DepositAlreadyWithdrawn { secret_hash },
                        ),
                    )
                } else if now.lt(&rec.lock_time) {
                    Err(
                        DepositorErrors::TimeLockNotExpired(
                            TimeLockNotExpired { current_time: now, lock_time: rec.lock_time },
                        ),
                    )
                } else {
                    let rec2 = DepositsReturn { is_withdrawn: true, ..rec };
                    self.set_record(i, rec2);
                    Ok(RestoredFilter { sender: rec.sender, amount: rec.amount, secret_hash })
                }
            },
        }
    }

    /// The contract's `deposits(bytes32)` view: the stored record, or the
    /// all-zero record an EVM mapping returns for an absent key.
    pub fn deposits(&self, secret_hash: [u8; 32]) -> (r: DepositsReturn)
        requires
            self.wf(),
        ensures
            self@.deposits.contains_key(secret_hash@) ==> record_of(r)
                == self@.deposits[secret_hash@],
            !self@.deposits.contains_key(secret_hash@) ==> r.sender.spec_is_zero()
                && r.recipient.spec_is_zero() && r.amount@ == 0 && r.lock_time@ == 0
                && !r.is_withdrawn,
    {
        match self.find(&secret_hash) {
            Some(i) => self.entries[i].1,
            None => DepositsReturn {
                sender: EvmAddress { bytes: [0; 20] },
                recipient: EvmAddress { bytes: [0; 20] },
                amount: U256 { limbs: [0; 4] },
                lock_time: U256 { limbs: [0; 4] },
                is_withdrawn: false,
            },
        }
    }
}

} // verus!

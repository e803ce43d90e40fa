//! The registry of leases, one for each (topic, consumer group, queue) that
//! somebody tried to lock since it was last swept.

use crate::clock::current_millis;
use crate::processor::timed_lock::Lease;
use crate::processor::timed_lock::TimedLock;
use crate::text::append_decimal;
use crate::text::decimal;
use crate::text::free_of;
use crate::text::lemma_decimal_free_of;
use crate::text::lemma_decimal_injective;
use crate::text::lemma_last_field;
use vstd::hash_map::StringHashMap;
use vstd::prelude::*;
use vstd::string::*;

verus! {

/// How long the periodic sweep of the registry waits between two passes, in
/// milliseconds.
pub const CLEAN_INTERVAL_MILLIS: u64 = 60_000;

/// How long a lease may be idle before the periodic sweep removes it, in
/// milliseconds.
pub const USED_EXPIRE_MILLIS: u64 = 60_000;

/// The key of the lease of one queue for one consumer group: topic, group
/// and queue number, joined by `@`.
pub open spec fn lock_key(topic: Seq<char>, consumer_group: Seq<char>, queue_id: int) -> Seq<
    char,
> {
    topic + "@"@ + consumer_group + "@"@ + decimal(queue_id)
}

/// Different (topic, consumer group, queue) triples have different keys,
/// provided that no `@` occurs in the names of the consumer groups.
pub proof fn lemma_lock_key_injective(
    topic_a: Seq<char>,
    consumer_group_a: Seq<char>,
    queue_id_a: int,
    topic_b: Seq<char>,
    consumer_group_b: Seq<char>,
    queue_id_b: int,
)
    requires
        free_of(consumer_group_a, '@'),
        free_of(consumer_group_b, '@'),
        lock_key(topic_a, consumer_group_a, queue_id_a) == lock_key(
            topic_b,
            consumer_group_b,
            queue_id_b,
        ),
    ensures
        topic_a == topic_b,
        consumer_group_a == consumer_group_b,
        queue_id_a == queue_id_b,
{
    lemma_decimal_free_of(queue_id_a, '@');
    lemma_decimal_free_of(queue_id_b, '@');
    lemma_last_field(
        topic_a + "@"@ + consumer_group_a,
        decimal(queue_id_a),
        topic_b + "@"@ + consumer_group_b,
        decimal(queue_id_b),
    );
    lemma_decimal_injective(queue_id_a, queue_id_b);
    lemma_last_field(topic_a, consumer_group_a, topic_b, consumer_group_b);
}

/// Whether an attempt to lock `key` succeeds: exactly when the registry has
/// no lease for it, or one that nobody holds.
pub open spec fn can_lock(leases: Map<Seq<char>, Lease>, key: Seq<char>) -> bool {
    !leases.contains_key(key) || leases[key].can_acquire()
}

/// The registry after an attempt at `now` to lock `key`: a missing lease is
/// created first, then the lease of `key` goes through the attempt. No other
/// lease changes.
pub open spec fn after_try_lock(leases: Map<Seq<char>, Lease>, key: Seq<char>, now: nat) -> Map<
    Seq<char>,
    Lease,
> {
    if leases.contains_key(key) {
        leases.insert(key, leases[key].try_acquire(now))
    } else {
        leases.insert(key, Lease::created(now).try_acquire(now))
    }
}

/// The registry after `key` was unlocked: its lease, if there is one, is
/// released. No lease is created or removed.
pub open spec fn after_unlock(leases: Map<Seq<char>, Lease>, key: Seq<char>) -> Map<
    Seq<char>,
    Lease,
> {
    if leases.contains_key(key) {
        leases.insert(key, leases[key].release())
    } else {
        leases
    }
}

/// The registry after a sweep at `now`: every lease that has been idle for
/// more than `threshold` milliseconds is gone, held or not; the others are
/// untouched.
pub open spec fn after_sweep(leases: Map<Seq<char>, Lease>, now: nat, threshold: nat) -> Map<
    Seq<char>,
    Lease,
> {
    Map::new(
        |key: Seq<char>| leases.contains_key(key) && !leases[key].idle(now, threshold),
        |key: Seq<char>| leases[key],
    )
}

/// A key that somebody tried to lock is locked, whether or not the attempt
/// succeeded: the next attempt on it fails and changes nothing, whenever it
/// is made. Once the key is unlocked, the next attempt succeeds, and the key
/// is locked again.
pub proof fn lemma_lock_excludes_until_unlock(
    leases: Map<Seq<char>, Lease>,
    key: Seq<char>,
    first: nat,
    second: nat,
    third: nat,
)
    ensures
        !can_lock(after_try_lock(leases, key, first), key),
        after_try_lock(after_try_lock(leases, key, first), key, second) == after_try_lock(
            leases,
            key,
            first,
        ),
        can_lock(after_unlock(after_try_lock(leases, key, first), key), key),
        !can_lock(
            after_try_lock(after_unlock(after_try_lock(leases, key, first), key), key, third),
            key,
        ),
{
    let locked = after_try_lock(leases, key, first);
    assert(locked.contains_key(key) && locked[key].held);
    assert(after_try_lock(locked, key, second) =~= locked);
}

/// Locking or unlocking one key leaves the lease of every other key as it
/// was, so whether another key can be locked does not change.
pub proof fn lemma_lock_touches_one_key(
    leases: Map<Seq<char>, Lease>,
    key: Seq<char>,
    other: Seq<char>,
    now: nat,
)
    requires
        other != key,
    ensures
        after_try_lock(leases, key, now).contains_key(other) == leases.contains_key(other),
        leases.contains_key(other) ==> after_try_lock(leases, key, now)[other] == leases[other],
        can_lock(after_try_lock(leases, key, now), other) == can_lock(leases, other),
        after_unlock(leases, key).contains_key(other) == leases.contains_key(other),
        leases.contains_key(other) ==> after_unlock(leases, key)[other] == leases[other],
        can_lock(after_unlock(leases, key), other) == can_lock(leases, other),
{
}

/// A sweep removes a lease that was last acquired more than `threshold`
/// milliseconds before `now` even while somebody holds it, so that the next
/// attempt to lock its key succeeds. A lease that is not that old stays as
/// it is, held or not.
pub proof fn lemma_sweep_ignores_holders(
    leases: Map<Seq<char>, Lease>,
    key: Seq<char>,
    now: nat,
    threshold: nat,
)
    requires
        leases.contains_key(key),
    ensures
        leases[key].last_acquired < now - threshold ==> !after_sweep(
            leases,
            now,
            threshold,
        ).contains_key(key) && can_lock(after_sweep(leases, now, threshold), key),
        leases[key].last_acquired >= now - threshold ==> after_sweep(
            leases,
            now,
            threshold,
        ).contains_key(key) && after_sweep(leases, now, threshold)[key] == leases[key],
{
}

spec fn distinct(keys: Seq<String>) -> bool {
    forall|i: int, j: int|
        #![trigger keys[i], keys[j]]
        0 <= i < j < keys.len() ==> keys[i]@ != keys[j]@
}

spec fn listed_before(keys: Seq<String>, upto: int, key: Seq<char>) -> bool {
    exists|i: int| #![trigger keys[i]] 0 <= i < upto && i < keys.len() && keys[i]@ == key
}

spec fn listed(keys: Seq<String>, key: Seq<char>) -> bool {
    listed_before(keys, keys.len() as int, key)
}

/// Whether `keys` lists the keys of `locks`, each of them once.
spec fn consistent(locks: Map<Seq<char>, TimedLock>, keys: Seq<String>) -> bool {
    &&& distinct(keys)
    &&& forall|key: Seq<char>| #[trigger] locks.contains_key(key) <==> listed(keys, key)
}

spec fn leases_of(locks: Map<Seq<char>, TimedLock>) -> Map<Seq<char>, Lease> {
    locks.map_values(|lock: TimedLock| lock@)
}

proof fn lemma_listed_at(keys: Seq<String>, i: int)
    requires
        0 <= i < keys.len(),
    ensures
        listed(keys, keys[i]@),
        forall|upto: int| i < upto ==> listed_before(keys, upto, keys[i]@),
{
}

proof fn lemma_counted(locks: Map<Seq<char>, TimedLock>, keys: Seq<String>)
    requires
        consistent(locks, keys),
    ensures
        locks.dom().finite(),
        locks.dom().len() == keys.len(),
        leases_of(locks).dom() == locks.dom(),
    decreases keys.len(),
{
    assert(leases_of(locks).dom() =~= locks.dom());
    if keys.len() == 0 {
        assert forall|key: Seq<char>| !locks.dom().contains(key) by {
            assert(locks.contains_key(key) <==> listed(keys, key));
        }
        assert(locks.dom() =~= Set::<Seq<char>>::empty());
    } else {
        let front = keys.drop_last();
        let last = keys.last()@;
        let rest = locks.remove(last);
        assert(distinct(front)) by {
            assert forall|i: int, j: int| 0 <= i < j < front.len() implies front[i]@
                != front[j]@ by {
                assert(keys[i]@ != keys[j]@);
            }
        }
        assert forall|key: Seq<char>| #[trigger] rest.contains_key(key) <==> listed(
            front,
            key,
        ) by {
            assert(locks.contains_key(key) <==> listed(keys, key));
            if listed(front, key) {
                let i = choose|i: int|
                    #![trigger front[i]]
                    0 <= i < front.len() && front[i]@ == key;
                assert(keys[i]@ == key);
                assert(keys[i]@ != keys[keys.len() - 1]@);
            }
            if rest.contains_key(key) {
                let i = choose|i: int|
                    #![trigger keys[i]]
                    0 <= i < keys.len() && keys[i]@ == key;
                assert(front[i]@ == key);
            }
        }
        lemma_counted(rest, front);
        lemma_listed_at(keys, keys.len() - 1);
        assert(locks.contains_key(last));
        assert(locks.dom() =~= rest.dom().insert(last));
    }
}

/// Tries to lock `key` at `now` among `locks`, listing it where it is new.
fn try_lock_in(
    locks: &mut StringHashMap<TimedLock>,
    keys: &mut Vec<String>,
    key: String,
    now: u64,
) -> (acquired: bool)
    requires
        consistent(old(locks)@, old(keys)@),
    ensures
        consistent(final(locks)@, final(keys)@),
        acquired == can_lock(leases_of(old(locks)@), key@),
        leases_of(final(locks)@) == after_try_lock(leases_of(old(locks)@), key@, now as nat),
{
    let ghost before = locks@;
    let found = match locks.get(key.as_str()) {
        Some(lock) => Some(*lock),
        None => None,
    };
    match found {
        Some(lock) => {
            let mut lock = lock;
            let acquired = lock.try_lock_at(now);
            locks.insert(key, lock);
            proof {
                assert forall|other: Seq<char>| #[trigger]
                    locks@.contains_key(other) <==> listed(keys@, other) by {
                    assert(before.contains_key(other) <==> listed(keys@, other));
                }
                assert(leases_of(locks@) =~= after_try_lock(leases_of(before), key@, now as nat));
            }
            acquired
        },
        None => {
            let mut lock = TimedLock::new_at(now);
            let acquired = lock.try_lock_at(now);
            let ghost listed_keys = keys@;
            keys.push(key.clone());
            locks.insert(key, lock);
            proof {
                assert(before.contains_key(key@) <==> listed(listed_keys, key@));
                assert forall|i: int, j: int| 0 <= i < j < keys@.len() implies keys@[i]@
                    != keys@[j]@ by {
                    if j == listed_keys.len() {
                        assert(listed_keys[i]@ == keys@[i]@);
                    } else {
                        assert(listed_keys[i]@ != listed_keys[j]@);
                    }
                }
                assert forall|other: Seq<char>| #[trigger]
                    locks@.contains_key(other) <==> listed(keys@, other) by {
                    assert(before.contains_key(other) <==> listed(listed_keys, other));
                    if listed(listed_keys, other) {
                        let i = choose|i: int|
                            #![trigger listed_keys[i]]
                            0 <= i < listed_keys.len() && listed_keys[i]@ == other;
                        assert(keys@[i]@ == other);
                    }
                    if listed(keys@, other) && other != key@ {
                        let i = choose|i: int|
                            #![trigger keys@[i]]
                            0 <= i < keys@.len() && keys@[i]@ == other;
                        assert(listed_keys[i]@ == other);
                    }
                    if other == key@ {
                        assert(keys@[listed_keys.len() as int]@ == other);
                    }
                }
                assert(leases_of(locks@) =~= after_try_lock(leases_of(before), key@, now as nat));
            }
            acquired
        },
    }
}

/// Releases the lease of `key` among `locks`, if it has one.
fn unlock_in(locks: &mut StringHashMap<TimedLock>, Ghost(keys): Ghost<Seq<String>>, key: String)
    requires
        consistent(old(locks)@, keys),
    ensures
        consistent(final(locks)@, keys),
        leases_of(final(locks)@) == after_unlock(leases_of(old(locks)@), key@),
{
    let ghost before = locks@;
    let found = match locks.get(key.as_str()) {
        Some(lock) => Some(*lock),
        None => None,
    };
    match found {
        Some(lock) => {
            let mut lock = lock;
            lock.unlock();
            locks.insert(key, lock);
            proof {
                assert forall|other: Seq<char>| #[trigger]
                    locks@.contains_key(other) <==> listed(keys, other) by {
                    assert(before.contains_key(other) <==> listed(keys, other));
                }
                assert(leases_of(locks@) =~= after_unlock(leases_of(before), key@));
            }
        },
        None => {
            proof {
                assert(leases_of(locks@) =~= after_unlock(leases_of(before), key@));
            }
        },
    }
}

/// Removes from `locks` every lease that is idle at `now`, and returns the
/// keys of those that stay.
fn sweep_in(
    locks: &mut StringHashMap<TimedLock>,
    keys: Vec<String>,
    now: u64,
    threshold: u64,
) -> (kept: Vec<String>)
    requires
        consistent(old(locks)@, keys@),
    ensures
        consistent(final(locks)@, kept@),
        leases_of(final(locks)@) == after_sweep(
            leases_of(old(locks)@),
            now as nat,
            threshold as nat,
        ),
{
    let ghost before = locks@;
    let ghost listed_keys = keys@;
    let mut kept: Vec<String> = Vec::new();
    for key in it: keys
        invariant
            it.seq() == listed_keys,
            consistent(before, listed_keys),
            distinct(kept@),
            forall|other: Seq<char>| #[trigger]
                locks@.contains_key(other) ==> before.contains_key(other) && locks@[other]
                    == before[other],
            forall|other: Seq<char>| #[trigger]
                before.contains_key(other) ==> (locks@.contains_key(other) <==> !listed_before(
                    listed_keys,
                    it.index() as int,
                    other,
                ) || !before[other]@.idle(now as nat, threshold as nat)),
            forall|other: Seq<char>|
                listed(kept@, other) <==> #[trigger] listed_before(
                    listed_keys,
                    it.index() as int,
                    other,
                ) && !before[other]@.idle(now as nat, threshold as nat),
    {
        let ghost index = it.index() as int;
        let ghost kept_before = kept@;
        let ghost locks_before = locks@;
        proof {
            assert(key == listed_keys[index]);
            lemma_listed_at(listed_keys, index);
            assert(before.contains_key(key@));
            if listed_before(listed_keys, index, key@) {
                let i = choose|i: int|
                    #![trigger listed_keys[i]]
                    0 <= i < index && listed_keys[i]@ == key@;
                assert(listed_keys[i]@ != listed_keys[index]@);
            }
            assert(locks@.contains_key(key@));
        }
        let found = match locks.get(key.as_str()) {
            Some(lock) => Some(*lock),
            None => None,
        };
        let stays = match found {
            Some(lock) => {
                let time = lock.get_lock_time();
                now <= time || now - time <= threshold
            },
            None => false,
        };
        assert(stays == !before[key@]@.idle(now as nat, threshold as nat));
        if stays {
            kept.push(key);
        } else {
            locks.remove(key.as_str());
        }
        proof {
            assert forall|other: Seq<char>|
                listed_before(listed_keys, index + 1, other) <==> listed_before(
                    listed_keys,
                    index,
                    other,
                ) || other == key@ by {
                if listed_before(listed_keys, index + 1, other) {
                    let i = choose|i: int|
                        #![trigger listed_keys[i]]
                        0 <= i < index + 1 && i < listed_keys.len() && listed_keys[i]@ == other;
                    if i < index {
                        assert(listed_before(listed_keys, index, other));
                    }
                }
                if listed_before(listed_keys, index, other) {
                    let i = choose|i: int|
                        #![trigger listed_keys[i]]
                        0 <= i < index && i < listed_keys.len() && listed_keys[i]@ == other;
                    assert(listed_keys[i]@ == other);
                }
            }
            assert forall|other: Seq<char>| #[trigger]
                before.contains_key(other) implies (locks@.contains_key(other)
                <==> !listed_before(listed_keys, index + 1, other) || !before[other]@.idle(
                now as nat,
                threshold as nat,
            )) by {
                assert(locks_before.contains_key(other) <==> !listed_before(
                    listed_keys,
                    index,
                    other,
                ) || !before[other]@.idle(now as nat, threshold as nat));
            }
            assert forall|other: Seq<char>|
                listed(kept@, other) <==> #[trigger] listed_before(
                    listed_keys,
                    index + 1,
                    other,
                ) && !before[other]@.idle(now as nat, threshold as nat) by {
                assert(listed(kept_before, other) <==> listed_before(listed_keys, index, other)
                    && !before[other]@.idle(now as nat, threshold as nat));
                if stays {
                    if listed(kept@, other) {
                        let i = choose|i: int|
                            #![trigger kept@[i]]
                            0 <= i < kept@.len() && kept@[i]@ == other;
                        if i < kept_before.len() {
                            assert(kept_before[i]@ == other);
                        }
                    }
                    if listed(kept_before, other) {
                        let i = choose|i: int|
                            #![trigger kept_before[i]]
                            0 <= i < kept_before.len() && kept_before[i]@ == other;
                        assert(kept@[i]@ == other);
                    }
                    if other == key@ {
                        assert(kept@[kept_before.len() as int]@ == other);
                    }
                }
            }
            if stays {
                assert(!listed(kept_before, key@));
                assert forall|i: int, j: int| 0 <= i < j < kept@.len() implies kept@[i]@
                    != kept@[j]@ by {
                    if j == kept_before.len() {
                        assert(kept_before[i]@ == kept@[i]@);
                    } else {
                        assert(kept_before[i]@ != kept_before[j]@);
                    }
                }
            }
        }
    }
    proof {
        assert forall|other: Seq<char>| #[trigger]
            locks@.contains_key(other) <==> listed(kept@, other) by {
            assert(before.contains_key(other) <==> listed(listed_keys, other));
            assert(listed(listed_keys, other) <==> listed_before(
                listed_keys,
                listed_keys.len() as int,
                other,
            ));
        }
        assert forall|other: Seq<char>|
            leases_of(locks@).contains_key(other) <==> after_sweep(
                leases_of(before),
                now as nat,
                threshold as nat,
            ).contains_key(other) by {
            assert(before.contains_key(other) <==> listed(listed_keys, other));
            if before.contains_key(other) {
                assert(listed_before(listed_keys, listed_keys.len() as int, other));
            }
            if locks@.contains_key(other) {
                assert(before.contains_key(other));
            }
        }
        assert(leases_of(locks@) =~= after_sweep(
            leases_of(before),
            now as nat,
            threshold as nat,
        ));
    }
    kept
}

/// The leases of all queues. Taking and releasing a lease never waits; the
/// caller that finds a queue locked moves on to another one.
pub struct QueueLockManager {
    locks: StringHashMap<TimedLock>,
    keys: Vec<String>,
}

impl View for QueueLockManager {
    type V = Map<Seq<char>, Lease>;

    closed spec fn view(&self) -> Map<Seq<char>, Lease> {
        leases_of(self.locks@)
    }
}

impl QueueLockManager {
    #[verifier::type_invariant]
    spec fn keys_are_listed(self) -> bool {
        consistent(self.locks@, self.keys@)
    }

    /// A registry without leases.
    pub fn new() -> (manager: Self)
        ensures
            manager@ == Map::<Seq<char>, Lease>::empty(),
    {
        let manager = QueueLockManager {
            locks: StringHashMap::with_capacity(4096),
            keys: Vec::new(),
        };
        assert(manager@ =~= Map::<Seq<char>, Lease>::empty());
        manager
    }

    /// Takes the leases out of the registry, which is left empty.
    fn take(&mut self) -> (parts: (StringHashMap<TimedLock>, Vec<String>))
        ensures
            consistent(parts.0@, parts.1@),
            leases_of(parts.0@) == old(self)@,
            final(self)@ == Map::<Seq<char>, Lease>::empty(),
    {
        proof {
            use_type_invariant(&*self);
        }
        let mut taken = QueueLockManager { locks: StringHashMap::new(), keys: Vec::new() };
        assert(taken@ =~= Map::<Seq<char>, Lease>::empty());
        core::mem::swap(self, &mut taken);
        let QueueLockManager { locks, keys } = taken;
        (locks, keys)
    }

    /// Builds the key of the lease of one queue for one consumer group.
    pub fn build_lock_key(topic: &str, consumer_group: &str, queue_id: i32) -> (key: String)
        ensures
            key@ == lock_key(topic@, consumer_group@, queue_id as int),
    {
        let mut key = String::from_str(topic);
        key.append("@");
        key.append(consumer_group);
        key.append("@");
        append_decimal(&mut key, queue_id as i64);
        key
    }

    /// The number of leases in the registry.
    pub fn len(&self) -> (count: usize)
        ensures
            self@.dom().finite(),
            count == self@.len(),
    {
        proof {
            use_type_invariant(self);
            lemma_counted(self.locks@, self.keys@);
        }
        self.keys.len()
    }

    /// Whether the registry has no lease.
    pub fn is_empty(&self) -> (empty: bool)
        ensures
            empty == (self@ == Map::<Seq<char>, Lease>::empty()),
    {
        proof {
            use_type_invariant(self);
            lemma_counted(self.locks@, self.keys@);
            if self.keys.len() == 0 {
                assert(self@ =~= Map::<Seq<char>, Lease>::empty());
            }
        }
        self.keys.len() == 0
    }

    /// Tries to lock one queue for one consumer group, at the current time.
    pub fn try_lock(&mut self, topic: &str, consumer_group: &str, queue_id: i32) -> (acquired:
        bool)
        ensures
            acquired == can_lock(
                old(self)@,
                lock_key(topic@, consumer_group@, queue_id as int),
            ),
            exists|now: u64|
                final(self)@ == #[trigger] after_try_lock(
                    old(self)@,
                    lock_key(topic@, consumer_group@, queue_id as int),
                    now as nat,
                ),
    {
        let ghost before = self@;
        let key = Self::build_lock_key(topic, consumer_group, queue_id);
        let ghost text = key@;
        let acquired = self.try_lock_with_key(key);
        proof {
            let now = choose|now: u64| self@ == #[trigger] after_try_lock(before, text, now as nat);
            assert(self@ == after_try_lock(
                before,
                lock_key(topic@, consumer_group@, queue_id as int),
                now as nat,
            ));
        }
        acquired
    }

    /// Tries to lock one queue for one consumer group, at time `now`.
    pub fn try_lock_at(
        &mut self,
        topic: &str,
        consumer_group: &str,
        queue_id: i32,
        now: u64,
    ) -> (acquired: bool)
        ensures
            acquired == can_lock(
                old(self)@,
                lock_key(topic@, consumer_group@, queue_id as int),
            ),
            final(self)@ == after_try_lock(
                old(self)@,
                lock_key(topic@, consumer_group@, queue_id as int),
                now as nat,
            ),
    {
        let key = Self::build_lock_key(topic, consumer_group, queue_id);
        self.try_lock_with_key_at(key, now)
    }

    /// Tries to lock `key` at the current time. Never waits: where somebody
    /// holds the lease, the answer is `false` at once.
    pub fn try_lock_with_key(&mut self, key: String) -> (acquired: bool)
        ensures
            acquired == can_lock(old(self)@, key@),
            exists|now: u64|
                final(self)@ == #[trigger] after_try_lock(old(self)@, key@, now as nat),
    {
        let ghost before = self@;
        let ghost text = key@;
        let now = current_millis();
        let acquired = self.try_lock_with_key_at(key, now);
        assert(self@ == after_try_lock(before, text, now as nat));
        acquired
    }

    /// Tries to lock `key` at time `now`.
    pub fn try_lock_with_key_at(&mut self, key: String, now: u64) -> (acquired: bool)
        ensures
            acquired == can_lock(old(self)@, key@),
            final(self)@ == after_try_lock(old(self)@, key@, now as nat),
    {
        let (mut locks, mut keys) = self.take();
        let acquired = try_lock_in(&mut locks, &mut keys, key, now);
        *self = QueueLockManager { locks, keys };
        acquired
    }

    /// Unlocks one queue for one consumer group.
    pub fn unlock(&mut self, topic: &str, consumer_group: &str, queue_id: i32)
        ensures
            final(self)@ == after_unlock(
                old(self)@,
                lock_key(topic@, consumer_group@, queue_id as int),
            ),
    {
        let key = Self::build_lock_key(topic, consumer_group, queue_id);
        self.unlock_with_key(key)
    }

    /// Unlocks `key`. Does nothing where the registry has no lease for it;
    /// who holds the lease is not asked.
    pub fn unlock_with_key(&mut self, key: String)
        ensures
            final(self)@ == after_unlock(old(self)@, key@),
    {
        let (mut locks, keys) = self.take();
        unlock_in(&mut locks, Ghost(keys@), key);
        *self = QueueLockManager { locks, keys };
    }

    /// Removes every lease that has been idle for more than
    /// `used_expire_millis` at the current time, whether or not somebody
    /// holds it, and returns how many leases there were before.
    pub fn clean_unused_locks(&mut self, used_expire_millis: u64) -> (count: usize)
        ensures
            old(self)@.dom().finite(),
            count == old(self)@.len(),
            exists|now: u64|
                final(self)@ == #[trigger] after_sweep(
                    old(self)@,
                    now as nat,
                    used_expire_millis as nat,
                ),
    {
        let ghost before = self@;
        let now = current_millis();
        let count = self.clean_unused_locks_at(now, used_expire_millis);
        assert(self@ == after_sweep(before, now as nat, used_expire_millis as nat));
        count
    }

    /// Removes every lease that has been idle for more than
    /// `used_expire_millis` at time `now`, whether or not somebody holds it,
    /// and returns how many leases there were before.
    pub fn clean_unused_locks_at(&mut self, now: u64, used_expire_millis: u64) -> (count: usize)
        ensures
            old(self)@.dom().finite(),
            count == old(self)@.len(),
            final(self)@ == after_sweep(old(self)@, now as nat, used_expire_millis as nat),
    {
        let (mut locks, keys) = self.take();
        proof {
            lemma_counted(locks@, keys@);
        }
        let count = keys.len();
        let keys = sweep_in(&mut locks, keys, now, used_expire_millis);
        *self = QueueLockManager { locks, keys };
        count
    }
}

} // verus!

//! Pool of multiplexed connections, keyed by destination: reuse of live
//! connections, one establishment attempt per destination at a time, and
//! lazy eviction of connections whose driver has finished.
use crate::clock::Clock;
use crate::table::{SameKey, Table};
use std::sync::mpsc::{Receiver, TryRecvError};
use vstd::prelude::*;

verus! {

#[verifier::external_type_specification]
#[verifier::external_body]
#[verifier::reject_recursive_types(T)]
pub struct ExReceiver<T>(Receiver<T>);

/// Relies on `Receiver::try_recv`: `Err(Empty)` while the sending side is
/// alive and has sent nothing; a message or `Err(Disconnected)` means the
/// connection's driver has finished. Depends on another task, so nothing is
/// promised of the result.
#[verifier::external_body]
fn driver_finished<T>(rx: &Receiver<T>) -> (r: bool) {
    match rx.try_recv() {
        Err(TryRecvError::Empty) => false,
        Err(TryRecvError::Disconnected) => true,
        Ok(_) => true,
    }
}

/// A destination: scheme and authority of a request URI.
#[derive(Debug, PartialEq, Eq, Hash)]
pub struct PoolKey {
    pub scheme: String,
    pub authority: String,
}

impl View for PoolKey {
    type V = (Seq<char>, Seq<char>);

    open spec fn view(&self) -> (Seq<char>, Seq<char>) {
        (self.scheme@, self.authority@)
    }
}

impl SameKey for PoolKey {
    fn same_key(&self, other: &PoolKey) -> (r: bool) {
        self.scheme == other.scheme && self.authority == other.authority
    }
}

impl PoolKey {
    /// A copy of the key.
    pub fn duplicate(&self) -> (r: PoolKey)
        ensures
            r@ == self@,
    {
        PoolKey { scheme: self.scheme.clone(), authority: self.authority.clone() }
    }
}

/// Why the pool gave no connection.
#[derive(Debug, PartialEq, Eq)]
pub enum PoolError {
    /// Another attempt to connect to this destination is in flight.
    AlreadyConnecting(PoolKey),
    /// The request URI has no scheme or no authority.
    MissingDomain,
}

/// A pooled connection: its sender, the receiver on which its driver reports
/// the end of the connection, and when it was last handed out.
#[verifier::reject_recursive_types(E)]
pub struct PoolEntry<S, E> {
    sender: S,
    liveness: Receiver<E>,
    last_used: u64,
}

/// The model of a pooled connection.
pub struct EntryView<S> {
    pub sender: S,
    pub last_used: u64,
}

/// The model of a pool: live entries by destination, and the destinations
/// with an establishment attempt in flight.
pub struct PoolView<S> {
    pub idle: Map<(Seq<char>, Seq<char>), EntryView<S>>,
    pub connecting: Set<(Seq<char>, Seq<char>)>,
}

/// Whether an attempt to connect to `k` may start.
pub open spec fn admits_connect<S>(p: PoolView<S>, k: (Seq<char>, Seq<char>)) -> bool {
    !p.connecting.contains(k)
}

/// `p` with an attempt to connect to `k` in flight.
pub open spec fn mark_connecting<S>(p: PoolView<S>, k: (Seq<char>, Seq<char>)) -> PoolView<S> {
    PoolView { idle: p.idle, connecting: p.connecting.insert(k) }
}

/// `p` after the attempt to connect to `k` failed.
pub open spec fn release<S>(p: PoolView<S>, k: (Seq<char>, Seq<char>)) -> PoolView<S> {
    PoolView { idle: p.idle, connecting: p.connecting.remove(k) }
}

/// `p` after the attempt to connect to `k` gave `sender` at `now`.
pub open spec fn install<S>(
    p: PoolView<S>,
    k: (Seq<char>, Seq<char>),
    sender: S,
    now: u64,
) -> PoolView<S> {
    PoolView {
        idle: p.idle.insert(k, EntryView { sender, last_used: now }),
        connecting: p.connecting.remove(k),
    }
}

/// `p` without the entry of `k`.
pub open spec fn evict<S>(p: PoolView<S>, k: (Seq<char>, Seq<char>)) -> PoolView<S> {
    PoolView { idle: p.idle.remove(k), connecting: p.connecting }
}

/// `p` with the entry of `k` marked as used at `now`.
pub open spec fn touch<S>(p: PoolView<S>, k: (Seq<char>, Seq<char>), now: u64) -> PoolView<S> {
    PoolView {
        idle: p.idle.insert(k, EntryView { sender: p.idle[k].sender, last_used: now }),
        connecting: p.connecting,
    }
}

spec fn entry_view<S, E>(e: PoolEntry<S, E>) -> EntryView<S> {
    EntryView { sender: e.sender, last_used: e.last_used }
}

/// Live multiplexed connections by destination, and the destinations being
/// connected to.
#[verifier::reject_recursive_types(E)]
pub struct Pool<S, E> {
    idle: Table<PoolKey, PoolEntry<S, E>>,
    connecting: Table<PoolKey, ()>,
    clock: Clock,
}

impl<S: Clone, E> Pool<S, E> {
    pub closed spec fn view(&self) -> PoolView<S> {
        PoolView {
            idle: self.idle@.map_values(|e: PoolEntry<S, E>| entry_view(e)),
            connecting: self.connecting@.dom(),
        }
    }

    pub closed spec fn wf(&self) -> bool {
        self.idle.wf() && self.connecting.wf()
    }

    pub fn new() -> (r: Self)
        ensures
            r.wf(),
            r@.idle == Map::<(Seq<char>, Seq<char>), EntryView<S>>::empty(),
            r@.connecting == Set::<(Seq<char>, Seq<char>)>::empty(),
    {
        let r = Pool { idle: Table::new(), connecting: Table::new(), clock: Clock::new() };
        assert(r@.idle =~= Map::<(Seq<char>, Seq<char>), EntryView<S>>::empty());
        assert(r@.connecting =~= Set::<(Seq<char>, Seq<char>)>::empty());
        r
    }

    /// Starts an attempt to connect to `key`; refused while another attempt
    /// to the same destination is in flight.
    pub fn connecting(&mut self, key: PoolKey) -> (r: Result<(), PoolError>)
        requires
            old(self).wf(),
        ensures
            final(self).wf(),
            r is Ok <==> admits_connect(old(self)@, key@),
            r is Ok ==> final(self)@ == mark_connecting(old(self)@, key@),
            r is Err ==> final(self)@ == old(self)@,
            r matches Err(e) ==> e matches PoolError::AlreadyConnecting(k) && k@ == key@,
    {
        match self.connecting.position(&key) {
            Some(_) => Err(PoolError::AlreadyConnecting(key)),
            None => {
                let ghost before = self@;
                self.connecting.put(key, ());
                assert(self@.connecting =~= before.connecting.insert(key@));
                Ok(())
            },
        }
    }

    /// Ends a failed attempt to connect to `key`.
    pub fn abandon(&mut self, key: &PoolKey)
        requires
            old(self).wf(),
        ensures
            final(self).wf(),
            final(self)@ == release(old(self)@, key@),
    {
        let ghost before = self@;
        let _ = self.connecting.remove(key);
        assert(self@.connecting =~= before.connecting.remove(key@));
    }

    /// Hands out the entry of `key` at `now` if its driver has not
    /// `finished`, and evicts it if it has.
    pub fn reuse(&mut self, key: &PoolKey, finished: bool, now: u64) -> (r: Option<S>)
        requires
            old(self).wf(),
        ensures
            final(self).wf(),
            !old(self)@.idle.contains_key(key@) ==> r is None && final(self)@ == old(self)@,
            old(self)@.idle.contains_key(key@) && finished ==> r is None && final(self)@ == evict(
                old(self)@,
                key@,
            ),
            old(self)@.idle.contains_key(key@) && !finished ==> r is Some && cloned(
                old(self)@.idle[key@].sender,
                r->0,
            ) && final(self)@ == touch(old(self)@, key@, now),
    {
        let ghost before = self@;
        match self.idle.position(key) {
            None => None,
            Some(i) => {
                let (k, entry) = self.idle.take_at(i);
                if finished {
                    assert(self@.idle =~= before.idle.remove(key@));
                    None
                } else {
                    let s = entry.sender.clone();
                    let e = PoolEntry { sender: entry.sender, liveness: entry.liveness, last_used: now };
                    self.idle.put(k, e);
                    assert(self@.idle =~= touch(before, key@, now).idle);
                    Some(s)
                }
            },
        }
    }

    /// Hands out the entry of `key` if its connection is still alive, and
    /// evicts it if its driver has finished.
    pub fn try_pool(&mut self, key: &PoolKey) -> (r: Option<S>)
        requires
            old(self).wf(),
        ensures
            final(self).wf(),
            !old(self)@.idle.contains_key(key@) ==> r is None && final(self)@ == old(self)@,
            old(self)@.idle.contains_key(key@) ==> {
                ||| r is None && final(self)@ == evict(old(self)@, key@)
                ||| r is Some && cloned(old(self)@.idle[key@].sender, r->0) && final(self)@ == touch(
                    old(self)@,
                    key@,
                    final(self)@.idle[key@].last_used,
                )
            },
    {
        let finished = match self.idle.position(key) {
            Some(i) => driver_finished(&self.idle.value_at(i).liveness),
            None => false,
        };
        let now = self.clock.now_secs();
        let r = self.reuse(key, finished, now);
        proof {
            if old(self)@.idle.contains_key(key@) && !finished {
                assert(self@.idle[key@].last_used == now);
            }
        }
        r
    }

    /// Records the connection made for `key` at `now`, whose driver reports
    /// its end on `liveness`, and ends the attempt; hands back a clone of the
    /// sender.
    pub fn new_connection_at(&mut self, key: PoolKey, sender: S, liveness: Receiver<E>, now: u64) -> (r: S)
        requires
            old(self).wf(),
            old(self)@.connecting.contains(key@),
        ensures
            final(self).wf(),
            final(self)@ == install(old(self)@, key@, sender, now),
            cloned(sender, r),
    {
        let ghost before = self@;
        let ghost kv = key@;
        let ghost sv = sender;
        let r = sender.clone();
        let _ = self.connecting.remove(&key);
        self.idle.put(key, PoolEntry { sender, liveness, last_used: now });
        assert(self@.idle =~= install(before, kv, sv, now).idle);
        assert(self@.connecting =~= install(before, kv, sv, now).connecting);
        r
    }

    /// Records the connection made for `key` now; see `new_connection_at`.
    pub fn new_connection(&mut self, key: PoolKey, sender: S, liveness: Receiver<E>) -> (r: S)
        requires
            old(self).wf(),
            old(self)@.connecting.contains(key@),
        ensures
            final(self).wf(),
            final(self)@ == install(
                old(self)@,
                key@,
                sender,
                final(self)@.idle[key@].last_used,
            ),
            cloned(sender, r),
    {
        let now = self.clock.now_secs();
        self.new_connection_at(key, sender, liveness, now)
    }

    /// First half of a request for a connection to `key`: a live pooled
    /// sender (`Ok(Some)`), or permission to connect (`Ok(None)`, with `key`
    /// now marked as connecting), or a refusal because another attempt is in
    /// flight.
    pub fn begin_get_or_connect(&mut self, key: &PoolKey) -> (r: Result<Option<S>, PoolError>)
        requires
            old(self).wf(),
        ensures
            final(self).wf(),
            r matches Ok(Some(s)) ==> old(self)@.idle.contains_key(key@) && cloned(
                old(self)@.idle[key@].sender,
                s,
            ) && final(self)@ == touch(old(self)@, key@, final(self)@.idle[key@].last_used),
            r matches Ok(None) ==> admits_connect(old(self)@, key@) && final(self)@
                == mark_connecting(evict(old(self)@, key@), key@),
            r is Err ==> !admits_connect(old(self)@, key@) && final(self)@ == evict(
                old(self)@,
                key@,
            ),
            r matches Err(e) ==> e matches PoolError::AlreadyConnecting(k) && k@ == key@,
            !old(self)@.idle.contains_key(key@) ==> r matches Ok(None) || r is Err,
    {
        let ghost before = self@;
        match self.try_pool(key) {
            Some(s) => Ok(Some(s)),
            None => {
                proof {
                    assert(before.idle.contains_key(key@) ==> self@ == evict(before, key@));
                    if !before.idle.contains_key(key@) {
                        assert(before.idle.remove(key@) =~= before.idle);
                    }
                }
                match self.connecting(key.duplicate()) {
                    Ok(()) => Ok(None),
                    Err(e) => Err(e),
                }
            },
        }
    }

    /// Second half of a request for a connection to `key`, with what the
    /// connector gave: the new connection is recorded, or the attempt is
    /// ended and the connector's error handed back.
    pub fn finish_get_or_connect<C>(
        &mut self,
        key: PoolKey,
        outcome: Result<(S, Receiver<E>), C>,
    ) -> (r: Result<S, C>)
        requires
            old(self).wf(),
            old(self)@.connecting.contains(key@),
        ensures
            final(self).wf(),
            outcome matches Ok(c) ==> r matches Ok(s) && cloned(c.0, s) && final(self)@ == install(
                old(self)@,
                key@,
                c.0,
                final(self)@.idle[key@].last_used,
            ),
            outcome matches Err(c) ==> r == Err::<S, C>(c) && final(self)@ == release(old(self)@, key@),
    {
        match outcome {
            Ok((sender, liveness)) => Ok(self.new_connection(key, sender, liveness)),
            Err(e) => {
                self.abandon(&key);
                Err(e)
            },
        }
    }
}

/// The pool key of a request: its scheme and authority, both required.
pub fn domain_key(scheme: Option<String>, authority: Option<String>) -> (r: Result<PoolKey, PoolError>)
    ensures
        r matches Ok(k) ==> scheme matches Some(s) && authority matches Some(a) && k.scheme@ == s@
            && k.authority@ == a@,
        r is Err ==> r == Err::<PoolKey, PoolError>(PoolError::MissingDomain),
        r is Ok <==> scheme is Some && authority is Some,
{
    match (scheme, authority) {
        (Some(scheme), Some(authority)) => Ok(PoolKey { scheme, authority }),
        _ => Err(PoolError::MissingDomain),
    }
}

/// An attempt to connect to a destination that has neither a live entry nor
/// an attempt in flight may start; a second attempt before the first ends is
/// refused; once the first ends, by success or failure, no attempt is in
/// flight any more.
pub proof fn second_attempt_refused<S>(p: PoolView<S>, k: (Seq<char>, Seq<char>), sender: S, now: u64)
    requires
        !p.idle.contains_key(k),
        admits_connect(p, k),
    ensures
        evict(p, k) == p,
        !admits_connect(mark_connecting(p, k), k),
        evict(mark_connecting(p, k), k) == mark_connecting(p, k),
        admits_connect(release(mark_connecting(p, k), k), k),
        admits_connect(install(mark_connecting(p, k), k, sender, now), k),
        install(mark_connecting(p, k), k, sender, now).idle.contains_key(k),
{
    assert(p.idle.remove(k) =~= p.idle);
    assert(mark_connecting(p, k).idle.remove(k) =~= p.idle);
}

/// Once the driver of a pooled connection has finished, the next lookup of
/// its destination gives nothing and the entry is gone.
pub proof fn finished_connection_evicted<S>(p: PoolView<S>, k: (Seq<char>, Seq<char>))
    requires
        p.idle.contains_key(k),
    ensures
        !evict(p, k).idle.contains_key(k),
        evict(p, k).connecting == p.connecting,
        forall|o: (Seq<char>, Seq<char>)| o != k ==> #[trigger] evict(p, k).idle.contains_key(o)
            == p.idle.contains_key(o),
{
}

} // verus!

//! COV (change of value) subscriptions: their lifetime rule and the table
//! that holds them.
use vstd::prelude::*;
use std::time::Instant;
use dashmap::DashMap;
use crate::object::clock::{duration_as_secs, duration_secs, instant_duration_since, instant_elapsed, instant_now};
use crate::types::{DeviceId, NetworkAddress, ObjectId, PropertyIdentifier, PropertyValue};

verus! {

/// Whether a subscription made `elapsed_secs` whole seconds ago has run out:
/// one with a lifetime lasts that many seconds, one without never ends.
pub fn subscription_expired(elapsed_secs: u64, lifetime_secs: Option<u32>) -> (r: bool)
    ensures
        r == match lifetime_secs {
            Some(l) => elapsed_secs >= l,
            None => false,
        },
{
    match lifetime_secs {
        Some(l) => elapsed_secs >= l as u64,
        None => false,
    }
}

/// What identifies a subscription: who subscribed, with which process,
/// to which object of which device.
#[derive(Debug, Clone, PartialEq, Eq, Hash)]
pub struct CovSubKey {
    pub subscriber: NetworkAddress,
    pub process_id: u32,
    pub object_id: ObjectId,
    pub device_id: DeviceId,
}

/// One COV subscription.  `cov_increment` is the IEEE-754 bit pattern of
/// the single-precision increment, as `PropertyValue::Real` carries it.
pub struct CovSubscription {
    pub confirmed: bool,
    pub lifetime_secs: Option<u32>,
    pub subscribed_at: Instant,
    pub cov_increment: Option<u32>,
    pub monitored_prop: Option<PropertyIdentifier>,
    pub last_notified_at: Instant,
    pub last_value: PropertyValue,
}

#[verifier::external_type_specification]
#[verifier::external_body]
#[verifier::reject_recursive_types(K)]
#[verifier::reject_recursive_types(V)]
#[verifier::reject_recursive_types(S)]
pub struct ExDashMap<K, V, S>(DashMap<K, V, S>);

/// The subscriptions a `DashMap` holds, by key.
pub uninterp spec fn cov_entries(m: DashMap<CovSubKey, CovSubscription, std::hash::RandomState>) -> Map<CovSubKey, CovSubscription>;

/// `DashMap::new`: a map holding nothing.
#[verifier::external_body]
fn table_new() -> (r: DashMap<CovSubKey, CovSubscription>)
    ensures
        cov_entries(r).dom() == Set::<CovSubKey>::empty(),
{
    DashMap::new()
}

/// `DashMap::insert`: the key now maps to the value, replacing any earlier
/// value under an equal key; the other entries stay.
#[verifier::external_body]
fn table_insert(m: &mut DashMap<CovSubKey, CovSubscription>, key: CovSubKey, sub: CovSubscription)
    ensures
        cov_entries(*final(m)) == cov_entries(*old(m)).insert(key, sub),
{
    m.insert(key, sub);
}

/// `DashMap::remove`: the entry under the key, if any, is gone; the others
/// stay.
#[verifier::external_body]
fn table_remove(m: &mut DashMap<CovSubKey, CovSubscription>, key: &CovSubKey)
    ensures
        cov_entries(*final(m)) == cov_entries(*old(m)).remove(*key),
{
    m.remove(key);
}

/// `DashMap::len`: the number of entries.
#[verifier::external_body]
fn table_len(m: &DashMap<CovSubKey, CovSubscription>) -> (r: usize)
    ensures
        r == cov_entries(*m).len(),
{
    m.len()
}

/// `DashMap::retain` with the test `sub_live` at `now`: the entries whose
/// subscription has not run out stay, unchanged; the others are gone.  The
/// map held finitely many entries (as any map in memory does).
#[verifier::external_body]
fn table_retain_live(m: &mut DashMap<CovSubKey, CovSubscription>, now: Instant)
    ensures
        cov_entries(*old(m)).dom().finite(),
        cov_entries(*final(m)) == live_at(cov_entries(*old(m)), now),
{
    m.retain(|_, sub| sub_live(&now, sub));
}

/// Whether `sub` is still running at `now`.
fn sub_live(now: &Instant, sub: &CovSubscription) -> (r: bool)
    ensures
        r == !expired_at(*sub, *now),
{
    let elapsed = instant_duration_since(now, &sub.subscribed_at);
    let secs = duration_as_secs(&elapsed);
    !subscription_expired(secs, sub.lifetime_secs)
}

/// Whether `sub` has run out at `now`: its lifetime has passed, in whole
/// seconds, since it was made.
pub open spec fn expired_at(sub: CovSubscription, now: Instant) -> bool {
    match sub.lifetime_secs {
        Some(l) => duration_secs(instant_elapsed(now, sub.subscribed_at)) >= l,
        None => false,
    }
}

/// The subscriptions of `m` that have not run out at `now`.
pub open spec fn live_at(m: Map<CovSubKey, CovSubscription>, now: Instant) -> Map<CovSubKey, CovSubscription> {
    m.restrict(m.dom().filter(|k: CovSubKey| !expired_at(m[k], now)))
}

/// The subscription table.
pub struct CovEngine {
    subscriptions: DashMap<CovSubKey, CovSubscription>,
}

impl CovEngine {
    /// The subscriptions held, by key.
    pub closed spec fn view(&self) -> Map<CovSubKey, CovSubscription> {
        cov_entries(self.subscriptions)
    }

    /// An empty table.
    pub fn new() -> (r: CovEngine)
        ensures
            r.view() == Map::<CovSubKey, CovSubscription>::empty(),
    {
        let r = CovEngine { subscriptions: table_new() };
        assert(r.view() =~= Map::<CovSubKey, CovSubscription>::empty());
        r
    }

    /// Subscribes: the subscription is held under `key`, replacing any
    /// earlier one there.
    pub fn subscribe(&mut self, key: CovSubKey, sub: CovSubscription)
        ensures
            final(self).view() == old(self).view().insert(key, sub),
    {
        table_insert(&mut self.subscriptions, key, sub);
    }

    /// Unsubscribes: the subscription under `key`, if any, is removed.
    pub fn unsubscribe(&mut self, key: &CovSubKey)
        ensures
            final(self).view() == old(self).view().remove(*key),
    {
        table_remove(&mut self.subscriptions, key);
    }

    /// The number of subscriptions held.
    pub fn active_count(&self) -> (r: usize)
        ensures
            r == self.view().len(),
    {
        table_len(&self.subscriptions)
    }

    /// Removes the subscriptions that have run out at `now`, keeping the
    /// others; returns how many were removed.
    pub fn expire_at(&mut self, now: Instant) -> (r: usize)
        ensures
            final(self).view() == live_at(old(self).view(), now),
            r == old(self).view().len() - final(self).view().len(),
    {
        let before = table_len(&self.subscriptions);
        let ghost held = self.view();
        table_retain_live(&mut self.subscriptions, now);
        proof {
            vstd::set_lib::lemma_len_subset(live_at(held, now).dom(), held.dom());
        }
        let after = table_len(&self.subscriptions);
        before - after
    }

    /// Removes the subscriptions that have run out now; returns how many
    /// were removed.  Which instant "now" is comes from the clock.
    pub fn expire_old(&mut self) -> (r: usize)
        ensures
            exists|now: Instant| final(self).view() == live_at(old(self).view(), now),
            r == old(self).view().len() - final(self).view().len(),
    {
        let now = instant_now();
        self.expire_at(now)
    }
}

/// Expiry keeps exactly the subscriptions that have not run out, unchanged:
/// a subscription without a lifetime always stays.
pub proof fn lemma_expiry_keeps_live(m: Map<CovSubKey, CovSubscription>, now: Instant)
    ensures
        forall|k: CovSubKey| #[trigger] live_at(m, now).contains_key(k) <==> m.contains_key(k) && !expired_at(m[k], now),
        forall|k: CovSubKey| #[trigger] live_at(m, now).contains_key(k) ==> live_at(m, now)[k] == m[k],
        forall|k: CovSubKey| m.contains_key(k) && (#[trigger] m[k]).lifetime_secs is None ==> live_at(m, now).contains_key(k),
{
}

/// Subscribing under a new key and then unsubscribing it leaves the table
/// as it was.
pub proof fn lemma_subscribe_then_unsubscribe(m: Map<CovSubKey, CovSubscription>, key: CovSubKey, sub: CovSubscription)
    requires
        !m.contains_key(key),
    ensures
        m.insert(key, sub).remove(key) == m,
{
    assert(m.insert(key, sub).remove(key) =~= m);
}

impl Default for CovEngine {
    fn default() -> (r: CovEngine)
        ensures
            r.view() == Map::<CovSubKey, CovSubscription>::empty(),
    {
        CovEngine::new()
    }
}

} // verus!

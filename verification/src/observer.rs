//! Change notification: observers and the subjects they watch.
//!
//! A subject keeps an ordered registry of observers keyed by a string;
//! keys are unique, attaching under an existing key replaces the prior
//! observer, and every state mutation pushes the new state to each
//! attached observer synchronously, in registration order.

use vstd::prelude::*;

verus! {

/// A unit invoked with the subject's new state on every mutation.
///
/// `update_rel` is the observer's state transition: it relates the
/// observer before a notification, the value delivered, and the
/// observer after.  One notification is exactly one `update_rel` step.
pub trait Observer<T>: Sized {
    /// How one delivered update transforms the observer.
    spec fn update_rel(pre: Self, update: T, post: Self) -> bool;

    /// Delivers one update to the observer.
    fn on_subject_updated(&mut self, update_source: &T)
        ensures
            Self::update_rel(*old(self), *update_source, *final(self)),
    ;
}

/// True when no two entries share a key.
pub open spec fn entry_keys_unique<O>(entries: Seq<(Seq<char>, O)>) -> bool {
    forall|i: int, j: int|
        0 <= i < j < entries.len() ==> entries[i].0 != entries[j].0
}

/// True when some entry carries the key `key`.
pub open spec fn has_entry<O>(entries: Seq<(Seq<char>, O)>, key: Seq<char>) -> bool {
    exists|i: int| 0 <= i < entries.len() && entries[i].0 == key
}

/// The index of the entry carrying `key`; meaningful only when
/// `has_entry` holds and keys are unique.
pub open spec fn entry_index<O>(entries: Seq<(Seq<char>, O)>, key: Seq<char>) -> int {
    choose|i: int| 0 <= i < entries.len() && entries[i].0 == key
}

/// The registry after attaching `observer` under `key`: the entry under
/// an existing key is replaced in place, a fresh key is appended.
pub open spec fn attach_post<O>(
    entries: Seq<(Seq<char>, O)>,
    key: Seq<char>,
    observer: O,
) -> Seq<(Seq<char>, O)> {
    if has_entry(entries, key) {
        entries.update(entry_index(entries, key), (key, observer))
    } else {
        entries.push((key, observer))
    }
}

/// The registry after detaching `key`: the entry under it is removed,
/// the order of the remaining entries is kept.
pub open spec fn detach_post<O>(
    entries: Seq<(Seq<char>, O)>,
    key: Seq<char>,
) -> Seq<(Seq<char>, O)> {
    entries.remove(entry_index(entries, key))
}

/// A stateful entity watched by observers.
///
/// The contracts speak over `observer_entries`, the ordered registry of
/// (key, observer) pairs, `subject_id`, the entity's identity, and
/// `subject_state`, its current state.
pub trait Subject<T>: Sized {
    /// The concrete observer type this subject notifies.
    type Obs: Observer<T>;

    /// The entity's identity.
    spec fn subject_id(&self) -> Seq<char>;

    /// The entity's current state.
    spec fn subject_state(&self) -> T;

    /// The ordered observer registry, keys as character sequences.
    spec fn observer_entries(&self) -> Seq<(Seq<char>, Self::Obs)>;

    /// Well-formedness: observer keys are unique.
    spec fn subject_wf(&self) -> bool;

    /// Registers or replaces the observer under `observer_key`; always
    /// succeeds.  Identity and state are untouched.
    fn attach_observer(&mut self, observer_key: &String, observer: Self::Obs)
        requires
            old(self).subject_wf(),
        ensures
            final(self).subject_wf(),
            final(self).subject_id() == old(self).subject_id(),
            final(self).subject_state() == old(self).subject_state(),
            final(self).observer_entries() == attach_post(
                old(self).observer_entries(),
                observer_key@,
                observer,
            ),
    ;

    /// Removes the observer under `observer_key`; returns whether an
    /// entry existed and was removed.  A miss changes nothing.
    fn detach_observer(&mut self, observer_key: &String) -> (removed: bool)
        requires
            old(self).subject_wf(),
        ensures
            final(self).subject_wf(),
            final(self).subject_id() == old(self).subject_id(),
            final(self).subject_state() == old(self).subject_state(),
            removed == has_entry(old(self).observer_entries(), observer_key@),
            removed ==> final(self).observer_entries() == detach_post(
                old(self).observer_entries(),
                observer_key@,
            ),
            !removed ==> final(self).observer_entries() == old(self).observer_entries(),
            !has_entry(final(self).observer_entries(), observer_key@),
    ;

    /// Delivers the current state to every attached observer, in
    /// registration order: each observer takes exactly one
    /// `update_rel` step with the current state.
    fn notify_observers(&mut self)
        requires
            old(self).subject_wf(),
        ensures
            final(self).subject_wf(),
            final(self).subject_id() == old(self).subject_id(),
            final(self).subject_state() == old(self).subject_state(),
            final(self).observer_entries().len() == old(self).observer_entries().len(),
            forall|j: int| 0 <= j < final(self).observer_entries().len() ==> {
                &&& (#[trigger] final(self).observer_entries()[j]).0
                    == old(self).observer_entries()[j].0
                &&& Self::Obs::update_rel(
                    old(self).observer_entries()[j].1,
                    old(self).subject_state(),
                    final(self).observer_entries()[j].1,
                )
            },
    ;
}

/// An observer that records every state value it is notified with.
pub struct LightStateObserver {
    received: Vec<bool>,
}

impl LightStateObserver {
    /// The sequence of state values delivered so far, oldest first.
    pub closed spec fn updates(&self) -> Seq<bool> {
        self.received@
    }

    /// A fresh observer that has seen no updates.
    pub fn new() -> (o: Self)
        ensures
            o.updates() == Seq::<bool>::empty(),
    {
        LightStateObserver { received: Vec::new() }
    }

    /// How many notifications have been delivered.
    pub fn update_count(&self) -> (n: usize)
        ensures
            n == self.updates().len(),
    {
        self.received.len()
    }

    /// The most recently delivered state, if any.
    pub fn last_update(&self) -> (u: Option<bool>)
        ensures
            match u {
                Some(v) => self.updates().len() > 0 && v == self.updates().last(),
                None => self.updates().len() == 0,
            },
    {
        if self.received.len() > 0 {
            Some(self.received[self.received.len() - 1])
        } else {
            None
        }
    }
}

impl Observer<bool> for LightStateObserver {
    open spec fn update_rel(pre: Self, update: bool, post: Self) -> bool {
        post.updates() == pre.updates().push(update)
    }

    fn on_subject_updated(&mut self, update_source: &bool) {
        self.received.push(*update_source);
        proof {
            assert(<Self as Observer<bool>>::update_rel(*old(self), *update_source, *self));
        }
    }
}

} // verus!

//! The observable toggle-state entity.
//!
//! A [`Light`] has an identity, a boolean state, and an ordered observer
//! registry with unique keys.  Turning it on or off updates the state
//! and synchronously delivers the new state to every attached observer.

use vstd::prelude::*;
use crate::observer::{
    Observer, Subject, LightStateObserver, entry_keys_unique, has_entry, entry_index,
    attach_post, detach_post,
};

verus! {

/// An entity with a name, a boolean state, and attached observers.
pub struct Light {
    name: String,
    state: bool,
    observers: Vec<(String, LightStateObserver)>,
}

impl Light {
    /// The abstract observer registry carried by a concrete vector.
    pub closed spec fn entries_of(
        observers: Seq<(String, LightStateObserver)>,
    ) -> Seq<(Seq<char>, LightStateObserver)> {
        observers.map_values(|p: (String, LightStateObserver)| (p.0@, p.1))
    }

    /// How one verb transforms a light: the state becomes `s`, the
    /// identity and the observer keys are kept, and every attached
    /// observer is delivered exactly one notification carrying `s`.
    pub open spec fn switched_to(pre: Light, post: Light, s: bool) -> bool {
        &&& post.subject_wf()
        &&& post.subject_id() == pre.subject_id()
        &&& post.subject_state() == s
        &&& post.observer_entries().len() == pre.observer_entries().len()
        &&& forall|j: int| 0 <= j < pre.observer_entries().len() ==> {
            &&& (#[trigger] post.observer_entries()[j]).0 == pre.observer_entries()[j].0
            &&& post.observer_entries()[j].1.updates()
                == pre.observer_entries()[j].1.updates().push(s)
        }
    }

    /// A fresh light with the given identity and state, and no observers.
    pub fn new(name: String, initial_state: bool) -> (l: Light)
        ensures
            l.subject_wf(),
            l.subject_id() == name@,
            l.subject_state() == initial_state,
            l.observer_entries() == Seq::<(Seq<char>, LightStateObserver)>::empty(),
    {
        let l = Light { name, state: initial_state, observers: Vec::new() };
        proof {
            assert(l.observer_entries() =~= Seq::<(Seq<char>, LightStateObserver)>::empty());
        }
        l
    }

    /// Turns the light on and notifies every attached observer.
    pub fn on(&mut self)
        requires
            old(self).subject_wf(),
        ensures
            Light::switched_to(*old(self), *final(self), true),
    {
        self.state = true;
        self.notify_observers();
    }

    /// Turns the light off and notifies every attached observer.
    pub fn off(&mut self)
        requires
            old(self).subject_wf(),
        ensures
            Light::switched_to(*old(self), *final(self), false),
    {
        self.state = false;
        self.notify_observers();
    }

    /// The light's identity.
    pub fn name(&self) -> (n: &String)
        ensures
            n@ == self.subject_id(),
    {
        &self.name
    }

    /// The light's current state.
    pub fn state(&self) -> (s: bool)
        ensures
            s == self.subject_state(),
    {
        self.state
    }

    /// How many observers are attached.
    pub fn observer_count(&self) -> (n: usize)
        ensures
            n == self.observer_entries().len(),
    {
        self.observers.len()
    }

    /// The observer attached under `observer_key`, if any.
    pub fn get_observer(&self, observer_key: &String) -> (r: Option<&LightStateObserver>)
        requires
            self.subject_wf(),
        ensures
            match r {
                Some(o) => {
                    &&& has_entry(self.observer_entries(), observer_key@)
                    &&& *o == self.observer_entries()[
                        entry_index(self.observer_entries(), observer_key@)
                    ].1
                },
                None => !has_entry(self.observer_entries(), observer_key@),
            },
    {
        let idx_opt = self.find_observer(observer_key);
        match idx_opt {
            Some(i) => {
                proof {
                    lemma_entry_index_is(self.observer_entries(), observer_key@, i as int);
                }
                Some(&self.observers[i].1)
            },
            None => None,
        }
    }

    /// The index of the observer entry keyed by `key`, if one exists.
    fn find_observer(&self, key: &String) -> (r: Option<usize>)
        ensures
            match r {
                Some(i) => i < self.observers@.len() && self.observers@[i as int].0@ == key@,
                None => forall|j: int|
                    0 <= j < self.observers@.len() ==> self.observers@[j].0@ != key@,
            },
    {
        let n = self.observers.len();
        let mut i: usize = 0;
        while i < n
            invariant
                i <= n,
                n == self.observers@.len(),
                forall|j: int| 0 <= j < i ==> self.observers@[j].0@ != key@,
            decreases n - i,
        {
            if self.observers[i].0 == *key {
                return Some(i);
            }
            i = i + 1;
        }
        None
    }
}

/// Any index whose entry carries `key` is the unique one `entry_index`
/// picks, provided the keys are unique.
proof fn lemma_entry_index_is<O>(entries: Seq<(Seq<char>, O)>, key: Seq<char>, i: int)
    requires
        entry_keys_unique(entries),
        0 <= i < entries.len(),
        entries[i].0 == key,
    ensures
        has_entry(entries, key),
        entry_index(entries, key) == i,
{
    assert(has_entry(entries, key));
    let j = entry_index(entries, key);
    if i < j {
        assert(entries[i].0 != entries[j].0);
    } else if j < i {
        assert(entries[j].0 != entries[i].0);
    }
}

impl Subject<bool> for Light {
    type Obs = LightStateObserver;

    closed spec fn subject_id(&self) -> Seq<char> {
        self.name@
    }

    closed spec fn subject_state(&self) -> bool {
        self.state
    }

    closed spec fn observer_entries(&self) -> Seq<(Seq<char>, LightStateObserver)> {
        Light::entries_of(self.observers@)
    }

    closed spec fn subject_wf(&self) -> bool {
        entry_keys_unique(self.observer_entries())
    }

    fn attach_observer(&mut self, observer_key: &String, observer: LightStateObserver) {
        let idx_opt = self.find_observer(observer_key);
        match idx_opt {
            Some(i) => {
                proof {
                    lemma_entry_index_is(self.observer_entries(), observer_key@, i as int);
                }
                self.observers[i] = (observer_key.clone(), observer);
                proof {
                    assert(self.observer_entries() =~= attach_post(
                        old(self).observer_entries(),
                        observer_key@,
                        observer,
                    ));
                }
            },
            None => {
                self.observers.push((observer_key.clone(), observer));
                proof {
                    assert(!has_entry(old(self).observer_entries(), observer_key@));
                    assert(self.observer_entries() =~= attach_post(
                        old(self).observer_entries(),
                        observer_key@,
                        observer,
                    ));
                }
            },
        }
    }

    fn detach_observer(&mut self, observer_key: &String) -> (removed: bool) {
        let idx_opt = self.find_observer(observer_key);
        match idx_opt {
            Some(i) => {
                proof {
                    lemma_entry_index_is(self.observer_entries(), observer_key@, i as int);
                }
                self.observers.remove(i);
                proof {
                    assert(self.observer_entries() =~= detach_post(
                        old(self).observer_entries(),
                        observer_key@,
                    ));
                }
                true
            },
            None => {
                proof {
                    assert(!has_entry(self.observer_entries(), observer_key@));
                }
                false
            },
        }
    }

    fn notify_observers(&mut self) {
        let state = self.state;
        let n = self.observers.len();
        let mut i: usize = 0;
        while i < n
            invariant
                i <= n,
                n == self.observers@.len(),
                n == old(self).observers@.len(),
                self.name == old(self).name,
                self.state == old(self).state,
                state == old(self).state,
                forall|j: int|
                    0 <= j < n ==> (#[trigger] self.observers@[j]).0 == old(self).observers@[j].0,
                forall|j: int|
                    i <= j < n ==> (#[trigger] self.observers@[j]).1 == old(self).observers@[j].1,
                forall|j: int| 0 <= j < i ==> (#[trigger] self.observers@[j]).1.updates()
                    == old(self).observers@[j].1.updates().push(old(self).state),
            decreases n - i,
        {
            self.observers[i].1.on_subject_updated(&state);
            i = i + 1;
        }
        proof {
            let pre = old(self).observer_entries();
            let post = self.observer_entries();
            assert forall|j: int| 0 <= j < post.len() implies (#[trigger] post[j]).0 == pre[j].0
                && <LightStateObserver as Observer<bool>>::update_rel(
                    pre[j].1,
                    old(self).subject_state(),
                    post[j].1,
                ) by {
                assert(post[j] == (self.observers@[j].0@, self.observers@[j].1));
                assert(pre[j] == (old(self).observers@[j].0@, old(self).observers@[j].1));
            }
            assert forall|a: int, b: int| 0 <= a < b < post.len() implies post[a].0 != post[b].0 by {
                assert(pre[a].0 != pre[b].0);
            }
        }
    }
}

/// Law: a detached observer receives no further notifications.  After
/// a successful detach the key is attached to nothing, and a later
/// verb keeps the key set while notifying, so no notification round
/// can reach the removed observer.
pub proof fn lemma_detach_stops_notifications(
    pre: Light,
    mid: Light,
    post: Light,
    key: Seq<char>,
    s: bool,
)
    requires
        pre.subject_wf(),
        has_entry(pre.observer_entries(), key),
        mid.observer_entries() == detach_post(pre.observer_entries(), key),
        Light::switched_to(mid, post, s),
    ensures
        !has_entry(mid.observer_entries(), key),
        !has_entry(post.observer_entries(), key),
{
    let entries = pre.observer_entries();
    let ei = entry_index(entries, key);
    assert(0 <= ei < entries.len() && entries[ei].0 == key);
    assert forall|j: int| 0 <= j < mid.observer_entries().len() implies (#[trigger] mid
        .observer_entries()[j]).0 != key by {
        if j < ei {
            assert(mid.observer_entries()[j] == entries[j]);
        } else {
            assert(mid.observer_entries()[j] == entries[j + 1]);
        }
    }
    assert forall|j: int| 0 <= j < post.observer_entries().len() implies (#[trigger] post
        .observer_entries()[j]).0 != key by {
        assert(post.observer_entries()[j].0 == mid.observer_entries()[j].0);
    }
}

/// Law: driving a light on and then off leaves it off, and each verb
/// delivers exactly one notification round: every attached observer
/// receives `true` from the first verb and then `false` from the second.
pub proof fn lemma_on_then_off(pre: Light, mid: Light, post: Light)
    requires
        Light::switched_to(pre, mid, true),
        Light::switched_to(mid, post, false),
    ensures
        post.subject_state() == false,
        post.subject_id() == pre.subject_id(),
        post.observer_entries().len() == pre.observer_entries().len(),
        forall|j: int| 0 <= j < pre.observer_entries().len() ==> {
            &&& (#[trigger] post.observer_entries()[j]).0 == pre.observer_entries()[j].0
            &&& post.observer_entries()[j].1.updates()
                == pre.observer_entries()[j].1.updates().push(true).push(false)
        },
{
}

} // verus!

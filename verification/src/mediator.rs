//! The event bus: type-indexed handler registration and dispatch.
//!
//! The mediator owns a registry of buckets, one per event-type
//! identity, each holding the handlers registered under that identity
//! in registration order.  Broadcasting an event dispatches it to every
//! handler in the bucket for the event's identity, each to completion
//! before the next begins; an identity with no registered handlers
//! yields a distinguishable non-fatal outcome.

use vstd::prelude::*;
use crate::event::{Event, EventTypeId};

verus! {

/// The outcome of a broadcast: either every registered handler ran, or
/// no handler was registered under the event's identity.
#[derive(Clone, Copy, Debug, PartialEq, Eq, Structural)]
pub enum BroadcastOutcome {
    /// Every handler registered under the event's identity ran.
    Handled,
    /// No handler was registered under the event's identity; non-fatal.
    UnhandledEventKind,
}

/// A polymorphic unit that declares which single event-type identity it
/// handles and reacts to type-erased events of that identity.
///
/// `handle_rel` is the handler's state transition: it relates the
/// handler before a dispatch, the event delivered, and the handler
/// after.  One dispatch is exactly one `handle_rel` step, and a
/// handler's declared identity never changes.
pub trait Handler: Sized {
    /// The identity this handler accepts; stable for its lifetime.
    spec fn declared_type(&self) -> EventTypeId;

    /// Well-formedness of the handler's own state.
    spec fn handler_wf(&self) -> bool;

    /// How one dispatched event transforms the handler.
    spec fn handle_rel(pre: Self, event: Event, post: Self) -> bool;

    /// Reports the identity this handler accepts.
    fn handles_type(&self) -> (t: EventTypeId)
        ensures
            t == self.declared_type(),
    ;

    /// Reacts to one type-erased event.
    fn handle_event(&mut self, event: &Event)
        requires
            old(self).handler_wf(),
        ensures
            final(self).handler_wf(),
            final(self).declared_type() == old(self).declared_type(),
            Self::handle_rel(*old(self), *event, *final(self)),
    ;
}

/// True when no two buckets share an identity.
pub open spec fn bucket_keys_unique<H>(buckets: Seq<(EventTypeId, Seq<H>)>) -> bool {
    forall|i: int, j: int|
        0 <= i < j < buckets.len() ==> buckets[i].0 != buckets[j].0
}

/// True when some bucket carries the identity `t`.
pub open spec fn has_bucket<H>(buckets: Seq<(EventTypeId, Seq<H>)>, t: EventTypeId) -> bool {
    exists|i: int| 0 <= i < buckets.len() && buckets[i].0 == t
}

/// The index of the bucket carrying `t`; meaningful only when
/// `has_bucket` holds and identities are unique.
pub open spec fn bucket_index<H>(buckets: Seq<(EventTypeId, Seq<H>)>, t: EventTypeId) -> int {
    choose|i: int| 0 <= i < buckets.len() && buckets[i].0 == t
}

/// Registry well-formedness: identities are unique, no bucket is empty,
/// and every handler in a bucket is well-formed and declares exactly
/// the bucket's identity.
pub open spec fn buckets_wf<H: Handler>(buckets: Seq<(EventTypeId, Seq<H>)>) -> bool {
    &&& bucket_keys_unique(buckets)
    &&& forall|i: int| 0 <= i < buckets.len() ==> (#[trigger] buckets[i]).1.len() > 0
    &&& forall|i: int, k: int|
        0 <= i < buckets.len() && 0 <= k < buckets[i].1.len() ==> {
            &&& (#[trigger] buckets[i].1[k]).handler_wf()
            &&& buckets[i].1[k].declared_type() == buckets[i].0
        }
}

/// The registry after registering `handler` under `t`: appended to the
/// bucket carrying `t`, or a fresh bucket appended when none exists.
pub open spec fn mediate_post<H>(
    buckets: Seq<(EventTypeId, Seq<H>)>,
    t: EventTypeId,
    handler: H,
) -> Seq<(EventTypeId, Seq<H>)> {
    if has_bucket(buckets, t) {
        let i = bucket_index(buckets, t);
        buckets.update(i, (t, buckets[i].1.push(handler)))
    } else {
        buckets.push((t, seq![handler]))
    }
}

/// The orchestrator: registers handlers per event-type identity and
/// dispatches broadcast events to them.
pub trait Mediator<H: Handler>: Sized {
    /// The registry: identity-keyed buckets of handlers, each bucket in
    /// registration order.
    spec fn buckets(&self) -> Seq<(EventTypeId, Seq<H>)>;

    /// Registers `handler` under the identity it declares, appending it
    /// to that identity's bucket and creating the bucket when absent.
    fn mediate(&mut self, handler: H)
        requires
            buckets_wf(old(self).buckets()),
            handler.handler_wf(),
        ensures
            buckets_wf(final(self).buckets()),
            final(self).buckets() == mediate_post(
                old(self).buckets(),
                handler.declared_type(),
                handler,
            ),
    ;

    /// Dispatches `event` to every handler registered under its
    /// identity, in registration order, each to completion before the
    /// next begins; every such handler takes exactly one `handle_rel`
    /// step and no other handler is touched.  With no bucket for the
    /// identity, reports `UnhandledEventKind` and touches nothing.
    fn broadcast(&mut self, event: &Event) -> (outcome: BroadcastOutcome)
        requires
            buckets_wf(old(self).buckets()),
        ensures
            buckets_wf(final(self).buckets()),
            !has_bucket(old(self).buckets(), event.spec_type_id()) ==> {
                &&& outcome == BroadcastOutcome::UnhandledEventKind
                &&& final(self).buckets() == old(self).buckets()
            },
            has_bucket(old(self).buckets(), event.spec_type_id()) ==> ({
                let pre = old(self).buckets();
                let post = final(self).buckets();
                let bi = bucket_index(pre, event.spec_type_id());
                &&& outcome == BroadcastOutcome::Handled
                &&& post.len() == pre.len()
                &&& forall|i: int| 0 <= i < pre.len() && i != bi ==> post[i] == pre[i]
                &&& post[bi].0 == pre[bi].0
                &&& post[bi].1.len() == pre[bi].1.len()
                &&& forall|k: int|
                    0 <= k < pre[bi].1.len() ==> H::handle_rel(
                        pre[bi].1[k],
                        *event,
                        #[trigger] post[bi].1[k],
                    )
            }),
    ;
}

/// Any index whose bucket carries `t` is the unique one `bucket_index`
/// picks, provided the identities are unique.
proof fn lemma_bucket_index_is<H>(buckets: Seq<(EventTypeId, Seq<H>)>, t: EventTypeId, i: int)
    requires
        bucket_keys_unique(buckets),
        0 <= i < buckets.len(),
        buckets[i].0 == t,
    ensures
        has_bucket(buckets, t),
        bucket_index(buckets, t) == i,
{
    assert(has_bucket(buckets, t));
    let j = bucket_index(buckets, t);
    if i < j {
        assert(buckets[i].0 != buckets[j].0);
    } else if j < i {
        assert(buckets[j].0 != buckets[i].0);
    }
}

/// The in-process event bus: a vector of identity-keyed buckets.
pub struct ConcreteMediator<H: Handler> {
    handlers: Vec<(EventTypeId, Vec<H>)>,
}

impl<H: Handler> ConcreteMediator<H> {
    /// A fresh mediator with no registrations.
    pub fn new() -> (m: Self)
        ensures
            m.buckets() == Seq::<(EventTypeId, Seq<H>)>::empty(),
            buckets_wf(m.buckets()),
    {
        let m = ConcreteMediator { handlers: Vec::new() };
        proof {
            assert(m.buckets() =~= Seq::<(EventTypeId, Seq<H>)>::empty());
        }
        m
    }

    /// The index of the bucket carrying `t`, if one exists.
    fn find_bucket(&self, t: EventTypeId) -> (r: Option<usize>)
        ensures
            match r {
                Some(i) => i < self.buckets().len() && self.buckets()[i as int].0 == t,
                None => forall|j: int|
                    0 <= j < self.buckets().len() ==> (#[trigger] self.buckets()[j]).0 != t,
            },
    {
        let n = self.handlers.len();
        let mut i: usize = 0;
        while i < n
            invariant
                i <= n,
                n == self.handlers@.len(),
                forall|j: int| 0 <= j < i ==> (#[trigger] self.handlers@[j]).0 != t,
            decreases n - i,
        {
            if self.handlers[i].0 == t {
                return Some(i);
            }
            i = i + 1;
        }
        None
    }

    /// How many handlers are registered under `t`.
    pub fn handler_count(&self, event_type: EventTypeId) -> (n: usize)
        requires
            buckets_wf(self.buckets()),
        ensures
            has_bucket(self.buckets(), event_type) ==> n == self.buckets()[
                bucket_index(self.buckets(), event_type)
            ].1.len(),
            !has_bucket(self.buckets(), event_type) ==> n == 0,
    {
        let idx_opt = self.find_bucket(event_type);
        match idx_opt {
            Some(i) => {
                proof {
                    lemma_bucket_index_is(self.buckets(), event_type, i as int);
                }
                self.handlers[i].1.len()
            },
            None => 0,
        }
    }

    /// The `k`-th handler registered under `event_type`, if any.
    pub fn get_handler(&self, event_type: EventTypeId, k: usize) -> (r: Option<&H>)
        requires
            buckets_wf(self.buckets()),
        ensures
            match r {
                Some(h) => {
                    &&& has_bucket(self.buckets(), event_type)
                    &&& k < self.buckets()[bucket_index(self.buckets(), event_type)].1.len()
                    &&& *h == self.buckets()[bucket_index(self.buckets(), event_type)].1[k as int]
                },
                None => !has_bucket(self.buckets(), event_type) || k >= self.buckets()[
                    bucket_index(self.buckets(), event_type)
                ].1.len(),
            },
    {
        let idx_opt = self.find_bucket(event_type);
        match idx_opt {
            Some(i) => {
                proof {
                    lemma_bucket_index_is(self.buckets(), event_type, i as int);
                }
                if k < self.handlers[i].1.len() {
                    Some(&self.handlers[i].1[k])
                } else {
                    None
                }
            },
            None => None,
        }
    }
}

impl<H: Handler> Mediator<H> for ConcreteMediator<H> {
    closed spec fn buckets(&self) -> Seq<(EventTypeId, Seq<H>)> {
        self.handlers@.map_values(|p: (EventTypeId, Vec<H>)| (p.0, p.1@))
    }

    fn mediate(&mut self, handler: H) {
        let t = handler.handles_type();
        let idx_opt = self.find_bucket(t);
        match idx_opt {
            Some(i) => {
                proof {
                    lemma_bucket_index_is(self.buckets(), t, i as int);
                }
                self.handlers[i].1.push(handler);
                proof {
                    assert(self.buckets() =~= mediate_post(
                        old(self).buckets(),
                        t,
                        handler,
                    ));
                }
            },
            None => {
                let mut fresh: Vec<H> = Vec::new();
                fresh.push(handler);
                self.handlers.push((t, fresh));
                proof {
                    assert(!has_bucket(old(self).buckets(), t));
                    assert(self.buckets() =~= mediate_post(
                        old(self).buckets(),
                        t,
                        handler,
                    ));
                }
            },
        }
    }

    fn broadcast(&mut self, event: &Event) -> (outcome: BroadcastOutcome) {
        let t = event.type_id();
        let idx_opt = self.find_bucket(t);
        match idx_opt {
            None => {
                proof {
                    assert(!has_bucket(self.buckets(), t));
                }
                BroadcastOutcome::UnhandledEventKind
            },
            Some(bi) => {
                proof {
                    lemma_bucket_index_is(self.buckets(), t, bi as int);
                }
                let n = self.handlers[bi].1.len();
                let mut k: usize = 0;
                while k < n
                    invariant
                        k <= n,
                        bi < self.handlers@.len(),
                        self.handlers@.len() == old(self).handlers@.len(),
                        n == self.handlers@[bi as int].1@.len(),
                        n == old(self).handlers@[bi as int].1@.len(),
                        self.handlers@[bi as int].0 == old(self).handlers@[bi as int].0,
                        buckets_wf(old(self).buckets()),
                        forall|i: int|
                            0 <= i < self.handlers@.len() && i != bi ==> self.handlers@[i]
                                == old(self).handlers@[i],
                        forall|j: int|
                            k <= j < n ==> (#[trigger] self.handlers@[bi as int].1@[j])
                                == old(self).handlers@[bi as int].1@[j],
                        forall|j: int| 0 <= j < k ==> {
                            &&& H::handle_rel(
                                old(self).handlers@[bi as int].1@[j],
                                *event,
                                #[trigger] self.handlers@[bi as int].1@[j],
                            )
                            &&& self.handlers@[bi as int].1@[j].handler_wf()
                            &&& self.handlers@[bi as int].1@[j].declared_type()
                                == old(self).handlers@[bi as int].1@[j].declared_type()
                        },
                    decreases n - k,
                {
                    proof {
                        assert(old(self).buckets()[bi as int].1[k as int]
                            == old(self).handlers@[bi as int].1@[k as int]);
                    }
                    self.handlers[bi].1[k].handle_event(event);
                    k = k + 1;
                }
                proof {
                    let pre = old(self).buckets();
                    let post = self.buckets();
                    assert forall|i: int| 0 <= i < pre.len() && i != bi as int implies post[i]
                        == pre[i] by {
                        assert(self.handlers@[i] == old(self).handlers@[i]);
                    }
                    assert(post[bi as int].1 =~= self.handlers@[bi as int].1@);
                    assert(pre[bi as int].1 =~= old(self).handlers@[bi as int].1@);
                    assert(buckets_wf(post));
                }
                BroadcastOutcome::Handled
            },
        }
    }
}

/// The registry after registering each handler of `hs` in turn under
/// the identity `t`, oldest first.
pub open spec fn register_all<H>(
    buckets: Seq<(EventTypeId, Seq<H>)>,
    hs: Seq<H>,
    t: EventTypeId,
) -> Seq<(EventTypeId, Seq<H>)>
    decreases hs.len(),
{
    if hs.len() == 0 {
        buckets
    } else {
        register_all(mediate_post(buckets, t, hs[0]), hs.drop_first(), t)
    }
}

/// Law: a sequence of registrations under one identity accumulates
/// exactly those handlers, in registration order, at the end of that
/// identity's bucket — so a subsequent matching broadcast, whose
/// contract steps the bucket in order, invokes all of them exactly
/// once, in registration order.
pub proof fn lemma_registration_order<H>(
    buckets: Seq<(EventTypeId, Seq<H>)>,
    hs: Seq<H>,
    t: EventTypeId,
)
    requires
        bucket_keys_unique(buckets),
    ensures
        has_bucket(buckets, t) ==> register_all(buckets, hs, t) == buckets.update(
            bucket_index(buckets, t),
            (t, buckets[bucket_index(buckets, t)].1 + hs),
        ),
        !has_bucket(buckets, t) && hs.len() == 0 ==> register_all(buckets, hs, t) == buckets,
        !has_bucket(buckets, t) && hs.len() > 0 ==> register_all(buckets, hs, t)
            == buckets.push((t, hs)),
    decreases hs.len(),
{
    if hs.len() == 0 {
        if has_bucket(buckets, t) {
            let bi = bucket_index(buckets, t);
            assert(buckets[bi].1 + hs =~= buckets[bi].1);
            assert(buckets.update(bi, (t, buckets[bi].1 + hs)) =~= buckets);
        }
    } else {
        let stepped = mediate_post(buckets, t, hs[0]);
        if has_bucket(buckets, t) {
            let bi = bucket_index(buckets, t);
            assert(stepped == buckets.update(bi, (t, buckets[bi].1.push(hs[0]))));
            assert(bucket_keys_unique(stepped));
            lemma_bucket_index_is(stepped, t, bi);
            lemma_registration_order(stepped, hs.drop_first(), t);
            assert(stepped[bi].1 + hs.drop_first() =~= buckets[bi].1 + hs);
            assert(stepped.update(bi, (t, stepped[bi].1 + hs.drop_first())) =~= buckets.update(
                bi,
                (t, buckets[bi].1 + hs),
            ));
        } else {
            assert(stepped == buckets.push((t, seq![hs[0]])));
            assert(bucket_keys_unique(stepped)) by {
                assert forall|i: int, j: int| 0 <= i < j < stepped.len() implies stepped[i].0
                    != stepped[j].0 by {
                    if j == buckets.len() {
                        assert(stepped[i] == buckets[i]);
                        assert(!(buckets[i].0 == t));
                    }
                }
            }
            lemma_bucket_index_is(stepped, t, buckets.len() as int);
            lemma_registration_order(stepped, hs.drop_first(), t);
            let bi = buckets.len() as int;
            assert(stepped[bi].1 + hs.drop_first() =~= hs);
            assert(stepped.update(bi, (t, stepped[bi].1 + hs.drop_first())) =~= buckets.push(
                (t, hs),
            ));
        }
    }
}

/// Law: under a well-formed registry, an identity has no bucket exactly
/// when no registered handler declares it — so a broadcast for such an
/// identity reports `UnhandledEventKind` and leaves every handler
/// untouched.
pub proof fn lemma_no_bucket_means_no_handlers<H: Handler>(
    buckets: Seq<(EventTypeId, Seq<H>)>,
    t: EventTypeId,
)
    requires
        buckets_wf(buckets),
    ensures
        !has_bucket(buckets, t) <==> forall|i: int, k: int|
            0 <= i < buckets.len() && 0 <= k < buckets[i].1.len()
                ==> (#[trigger] buckets[i].1[k]).declared_type() != t,
{
    if has_bucket(buckets, t) {
        let bi = bucket_index(buckets, t);
        assert(buckets[bi].1[0].declared_type() == t);
    }
}

} // verus!

use vstd::prelude::*;

use crate::message::{ConnId, Message};

verus! {

/// A registered recipient: a connection and the channel that feeds its
/// outbound actor.
pub struct Recipient<C> {
    pub id: ConnId,
    pub channel: C,
}

/// The identities of `s`, in order.
pub open spec fn ids_of<C>(s: Seq<Recipient<C>>) -> Seq<ConnId> {
    s.map_values(|e: Recipient<C>| e.id)
}

/// The elements `s[i]` for which `sent[i]` is true, in order. Positions
/// that `sent` does not cover are dropped.
pub open spec fn kept<A>(s: Seq<A>, sent: Seq<bool>) -> Seq<A>
    decreases s.len(),
{
    if s.len() == 0 {
        s
    } else {
        let rest = kept(s.drop_last(), sent);
        if s.len() - 1 < sent.len() && sent[s.len() - 1] {
            rest.push(s.last())
        } else {
            rest
        }
    }
}

/// An element at a kept position stays.
pub proof fn lemma_kept_contains<A>(s: Seq<A>, sent: Seq<bool>, i: int)
    requires
        0 <= i < s.len(),
        i < sent.len(),
        sent[i],
    ensures
        kept(s, sent).contains(s[i]),
    decreases s.len(),
{
    let rest = kept(s.drop_last(), sent);
    if i == s.len() - 1 {
        assert(kept(s, sent) == rest.push(s.last()));
        assert(rest.push(s.last())[rest.len() as int] == s[i]);
    } else {
        lemma_kept_contains(s.drop_last(), sent, i);
        let j = choose|j: int| 0 <= j < rest.len() && rest[j] == s[i];
        if s.len() - 1 < sent.len() && sent[s.len() - 1] {
            assert(rest.push(s.last())[j] == s[i]);
        }
    }
}

/// One thing the hub does: take a recipient in, drop the recipients
/// registered under one identity, or route a message. A route hands the
/// message to every registered recipient in order; `sent[i]` tells whether
/// the `i`-th took it, and the ones that did not are dropped.
pub enum HubEvent {
    Register(ConnId),
    Unregister(ConnId),
    Route(Message, Vec<bool>),
}

/// The registry after the hub has gone through `evs` from empty, as
/// `Hub::register`, `Hub::unregister` and `Hub::finish_route` change it.
pub open spec fn registry_after(evs: Seq<HubEvent>) -> Seq<ConnId>
    decreases evs.len(),
{
    if evs.len() == 0 {
        Seq::empty()
    } else {
        let r = registry_after(evs.drop_last());
        match evs.last() {
            HubEvent::Register(id) => r.push(id),
            HubEvent::Unregister(id) => r.filter(|x: ConnId| x != id),
            HubEvent::Route(_, sent) => kept(r, sent@),
        }
    }
}

/// Every message routed in `evs`, in the one order the hub routed them.
pub open spec fn routed(evs: Seq<HubEvent>) -> Seq<Message>
    decreases evs.len(),
{
    if evs.len() == 0 {
        Seq::empty()
    } else {
        match evs.last() {
            HubEvent::Route(m, _) => routed(evs.drop_last()).push(m),
            _ => routed(evs.drop_last()),
        }
    }
}

/// What connection `id` received from the hub over `evs`: each routed
/// message that a recipient registered as `id` took.
pub open spec fn inbox(evs: Seq<HubEvent>, id: ConnId) -> Seq<Message>
    decreases evs.len(),
{
    if evs.len() == 0 {
        Seq::empty()
    } else {
        let prev = evs.drop_last();
        match evs.last() {
            HubEvent::Route(m, sent) => if kept(registry_after(prev), sent@).contains(id) {
                inbox(prev, id).push(m)
            } else {
                inbox(prev, id)
            },
            _ => inbox(prev, id),
        }
    }
}

/// For each message of `inbox(evs, id)`, its position in `routed(evs)`.
pub open spec fn inbox_positions(evs: Seq<HubEvent>, id: ConnId) -> Seq<int>
    decreases evs.len(),
{
    if evs.len() == 0 {
        Seq::empty()
    } else {
        let prev = evs.drop_last();
        match evs.last() {
            HubEvent::Route(_, sent) => if kept(registry_after(prev), sent@).contains(id) {
                inbox_positions(prev, id).push(routed(prev).len() as int)
            } else {
                inbox_positions(prev, id)
            },
            _ => inbox_positions(prev, id),
        }
    }
}

/// The registry of live outbound actors. Every message the hub routes goes
/// to every registered channel, in registration order; scope filtering is
/// left to each outbound actor.
pub struct Hub<C> {
    entries: Vec<Recipient<C>>,
    history: Ghost<Seq<HubEvent>>,
}

impl<C> View for Hub<C> {
    type V = Seq<ConnId>;

    /// The registered identities, in registration order.
    closed spec fn view(&self) -> Seq<ConnId> {
        ids_of(self.entries@)
    }
}

/// Dropping the recipients registered as `id` drops exactly the entries
/// `id` has in the list of identities.
proof fn lemma_ids_of_filter<C>(s: Seq<Recipient<C>>, id: ConnId)
    ensures
        ids_of(s.filter(|e: Recipient<C>| e.id != id)) == ids_of(s).filter(|x: ConnId| x != id),
    decreases s.len(),
{
    reveal(Seq::filter);
    if s.len() == 0 {
        assert(ids_of(s.filter(|e: Recipient<C>| e.id != id)) =~= Seq::<ConnId>::empty());
        assert(ids_of(s) =~= Seq::<ConnId>::empty());
    } else {
        lemma_ids_of_filter(s.drop_last(), id);
        assert(ids_of(s).drop_last() =~= ids_of(s.drop_last()));
        let sub = s.drop_last().filter(|e: Recipient<C>| e.id != id);
        assert(ids_of(sub.push(s.last())) =~= ids_of(sub).push(s.last().id));
    }
}

/// Keeping recipients by position keeps their identities at the same
/// positions.
proof fn lemma_ids_of_kept<C>(s: Seq<Recipient<C>>, sent: Seq<bool>)
    ensures
        ids_of(kept(s, sent)) == kept(ids_of(s), sent),
    decreases s.len(),
{
    if s.len() == 0 {
        assert(ids_of(kept(s, sent)) =~= Seq::<ConnId>::empty());
    } else {
        lemma_ids_of_kept(s.drop_last(), sent);
        assert(ids_of(s).drop_last() =~= ids_of(s.drop_last()));
        let rest = kept(s.drop_last(), sent);
        assert(ids_of(rest.push(s.last())) =~= ids_of(rest).push(s.last().id));
    }
}

impl<C> Hub<C> {
    /// What this hub has done since it was made.
    pub closed spec fn history(&self) -> Seq<HubEvent> {
        self.history@
    }

    /// The registry is the one its history leads to.
    pub open spec fn wf(&self) -> bool {
        self@ == registry_after(self.history())
    }

    /// The registered recipients, in registration order.
    pub closed spec fn recipients(&self) -> Seq<Recipient<C>> {
        self.entries@
    }

    /// The registered identities are those of the recipients, in order.
    pub proof fn lemma_view(&self)
        ensures
            self@ == ids_of(self.recipients()),
    {
    }

    /// A hub with no recipients.
    pub fn new() -> (r: Hub<C>)
        ensures
            r.wf(),
            r.history() == Seq::<HubEvent>::empty(),
            r.recipients() == Seq::<Recipient<C>>::empty(),
            r@ == Seq::<ConnId>::empty(),
    {
        let r = Hub { entries: Vec::new(), history: Ghost(Seq::empty()) };
        proof {
            assert(r@ =~= Seq::<ConnId>::empty());
        }
        r
    }

    /// Number of registered recipients.
    pub fn len(&self) -> (r: usize)
        ensures
            r == self@.len(),
            r == self.recipients().len(),
    {
        self.entries.len()
    }

    /// Identity of the `i`-th registered recipient.
    pub fn recipient_id(&self, i: usize) -> (r: ConnId)
        requires
            i < self@.len(),
        ensures
            r == self@[i as int],
            r == self.recipients()[i as int].id,
    {
        self.entries[i].id
    }

    /// Channel of the `i`-th registered recipient.
    pub fn channel(&self, i: usize) -> (r: &C)
        requires
            i < self@.len(),
        ensures
            *r == self.recipients()[i as int].channel,
    {
        &self.entries[i].channel
    }

    /// Adds a recipient after all others. Always succeeds.
    pub fn register(&mut self, id: ConnId, channel: C)
        requires
            old(self).wf(),
        ensures
            final(self).wf(),
            final(self).history() == old(self).history().push(HubEvent::Register(id)),
            final(self).recipients() == old(self).recipients().push(
                (Recipient { id, channel }),
            ),
            final(self)@ == old(self)@.push(id),
    {
        self.entries.push(Recipient { id, channel });
        self.history = Ghost(self.history@.push(HubEvent::Register(id)));
        proof {
            assert(self@ =~= old(self)@.push(id));
            assert(self.history@.drop_last() =~= old(self).history@);
        }
    }

    /// Removes every recipient registered as `id`; the others keep their
    /// channels and their order.
    pub fn unregister(&mut self, id: ConnId)
        requires
            old(self).wf(),
        ensures
            final(self).wf(),
            final(self).history() == old(self).history().push(HubEvent::Unregister(id)),
            final(self).recipients() == old(self).recipients().filter(
                |e: Recipient<C>| e.id != id,
            ),
            final(self)@ == old(self)@.filter(|x: ConnId| x != id),
    {
        let ghost orig = old(self).entries@;
        let ghost p = |e: Recipient<C>| e.id != id;
        let mut i: usize = 0;
        let ghost mut j: int = 0;
        proof {
            reveal(Seq::filter);
            assert(orig.subrange(0, 0).filter(p) =~= Seq::<Recipient<C>>::empty());
            assert(self.entries@.subrange(0, 0) =~= Seq::<Recipient<C>>::empty());
            assert(self.entries@.subrange(0, self.entries@.len() as int) =~= orig.subrange(
                0,
                orig.len() as int,
            ));
        }
        while i < self.entries.len()
            invariant
                i <= self.entries@.len(),
                0 <= j <= orig.len(),
                self.entries@.len() - i == orig.len() - j,
                self.entries@.subrange(0, i as int) == orig.subrange(0, j).filter(p),
                self.entries@.subrange(i as int, self.entries@.len() as int) == orig.subrange(
                    j,
                    orig.len() as int,
                ),
                p == (|e: Recipient<C>| e.id != id),
                self.history == old(self).history,
            decreases self.entries@.len() - i,
        {
            let ghost before = self.entries@;
            assert forall|k: int| i <= k < before.len() implies #[trigger] before[k] == orig[k
                - i + j] by {
                assert(before.subrange(i as int, before.len() as int)[k - i] == before[k]);
                assert(orig.subrange(j, orig.len() as int)[k - i] == orig[k - i + j]);
            }
            assert(orig.subrange(0, j + 1).drop_last() =~= orig.subrange(0, j));
            assert(orig.subrange(0, j + 1).last() == orig[j]);
            reveal(Seq::filter);
            assert(orig.subrange(0, j + 1).filter(p) == if p(orig[j]) {
                orig.subrange(0, j).filter(p).push(orig[j])
            } else {
                orig.subrange(0, j).filter(p)
            });
            if self.entries[i].id == id {
                let _gone = self.entries.remove(i);
                proof {
                    assert(self.entries@.subrange(0, i as int) =~= before.subrange(0, i as int));
                    assert(self.entries@.subrange(i as int, self.entries@.len() as int)
                        =~= orig.subrange(j + 1, orig.len() as int));
                    j = j + 1;
                }
            } else {
                proof {
                    assert(self.entries@.subrange(0, i + 1) =~= before.subrange(0, i as int).push(
                        before[i as int],
                    ));
                    assert(self.entries@.subrange(i + 1, self.entries@.len() as int)
                        =~= orig.subrange(j + 1, orig.len() as int));
                    j = j + 1;
                }
                i = i + 1;
            }
        }
        proof {
            assert(self.entries@.subrange(0, i as int) =~= self.entries@);
            assert(orig.subrange(0, j) =~= orig);
            lemma_ids_of_filter(orig, id);
        }
        self.history = Ghost(self.history@.push(HubEvent::Unregister(id)));
        proof {
            assert(self.history@.drop_last() =~= old(self).history@);
        }
    }

    /// Ends one routing step: the caller has handed `m` to the channel of
    /// every recipient in registration order, and `sent[i]` tells whether
    /// the `i`-th took it. The recipients that did not are dropped; the
    /// others keep their channels and their order, whatever became of the
    /// rest.
    pub fn finish_route(&mut self, m: &Message, sent: &Vec<bool>)
        requires
            old(self).wf(),
            sent@.len() == old(self)@.len(),
        ensures
            final(self).wf(),
            final(self).history() == old(self).history().push(HubEvent::Route(*m, *sent)),
            final(self).recipients() == kept(old(self).recipients(), sent@),
            final(self)@ == kept(old(self)@, sent@),
    {
        let ghost orig = old(self).entries@;
        let mut i: usize = 0;
        let mut w: usize = 0;
        proof {
            assert(orig.subrange(0, 0) =~= Seq::<Recipient<C>>::empty());
            assert(self.entries@.subrange(0, 0) =~= Seq::<Recipient<C>>::empty());
            assert(self.entries@.subrange(0, self.entries@.len() as int) =~= orig.subrange(
                0,
                orig.len() as int,
            ));
        }
        while i < sent.len()
            invariant
                i <= sent@.len() == orig.len(),
                w <= self.entries@.len(),
                self.entries@.len() - w == orig.len() - i,
                self.entries@.subrange(0, w as int) == kept(orig.subrange(0, i as int), sent@),
                self.entries@.subrange(w as int, self.entries@.len() as int) == orig.subrange(
                    i as int,
                    orig.len() as int,
                ),
                self.history == old(self).history,
            decreases sent@.len() - i,
        {
            let ghost before = self.entries@;
            assert(before.subrange(w as int, before.len() as int)[0] == before[w as int]);
            assert(orig.subrange(i as int, orig.len() as int)[0] == orig[i as int]);
            assert forall|k: int| w <= k < before.len() implies #[trigger] before[k] == orig[k
                - w + i] by {
                assert(before.subrange(w as int, before.len() as int)[k - w] == before[k]);
                assert(orig.subrange(i as int, orig.len() as int)[k - w] == orig[k - w + i]);
            }
            assert(orig.subrange(0, i + 1).drop_last() =~= orig.subrange(0, i as int));
            assert(orig.subrange(0, i + 1).last() == orig[i as int]);
            assert(w < self.entries.len());
            if sent[i] {
                proof {
                    assert(self.entries@.subrange(0, w + 1) =~= before.subrange(0, w as int).push(
                        before[w as int],
                    ));
                    assert(self.entries@.subrange(w + 1, self.entries@.len() as int)
                        =~= orig.subrange(i + 1, orig.len() as int));
                }
                w = w + 1;
            } else {
                let _gone = self.entries.remove(w);
                proof {
                    assert(self.entries@.subrange(0, w as int) =~= before.subrange(0, w as int));
                    assert(self.entries@.subrange(w as int, self.entries@.len() as int)
                        =~= orig.subrange(i + 1, orig.len() as int));
                }
            }
            i = i + 1;
        }
        proof {
            assert(self.entries@.subrange(0, w as int) =~= self.entries@);
            assert(orig.subrange(0, i as int) =~= orig);
            lemma_ids_of_kept(orig, sent@);
        }
        self.history = Ghost(self.history@.push(HubEvent::Route(*m, *sent)));
        proof {
            assert(self.history@.drop_last() =~= old(self).history@);
        }
    }
}

} // verus!

use vstd::prelude::*;

use crate::actors::{observes, outbound_stops, posted};
use crate::hub::{inbox, inbox_positions, kept, lemma_kept_contains, registry_after, routed, Hub, HubEvent};
use crate::message::{is_own_sentinel, sentinel, ConnId, Message, ScopeKind};

verus! {

/// A message routed with scope `All` reaches every connection registered
/// at that moment whose channel took it, the sender's own included; that
/// connection stays registered, and its outbound actor writes the message
/// (unless it is that connection's own sentinel, which stops the actor
/// instead).
pub proof fn all_scope_reaches_every_live_connection(
    evs: Seq<HubEvent>,
    m: Message,
    sent: Vec<bool>,
    i: int,
)
    requires
        m.scope == ScopeKind::All,
        0 <= i < registry_after(evs).len(),
        sent@.len() == registry_after(evs).len(),
        sent@[i],
    ensures
        registry_after(evs.push(HubEvent::Route(m, sent))).contains(registry_after(evs)[i]),
        inbox(evs.push(HubEvent::Route(m, sent)), registry_after(evs)[i]) == inbox(
            evs,
            registry_after(evs)[i],
        ).push(m),
        observes(registry_after(evs)[i], m) <==> !is_own_sentinel(m, registry_after(evs)[i]),
{
    let next = evs.push(HubEvent::Route(m, sent));
    assert(next.drop_last() =~= evs);
    lemma_kept_contains(registry_after(evs), sent@, i);
}

/// With scope `Except` and set `s`, a connection writes the message exactly
/// when it is not in `s`.
pub proof fn except_scope_selects_those_outside(m: Message, s: Vec<ConnId>, id: ConnId)
    requires
        m.scope == ScopeKind::Except,
        m.except_ids == Some(s),
        !is_own_sentinel(m, id),
    ensures
        observes(id, m) <==> !s@.contains(id),
{
}

/// With scope `Only` and set `s`, a connection writes the message exactly
/// when it is in `s`.
pub proof fn only_scope_selects_those_inside(m: Message, s: Vec<ConnId>, id: ConnId)
    requires
        m.scope == ScopeKind::Only,
        m.include_ids == Some(s),
        !is_own_sentinel(m, id),
    ensures
        observes(id, m) <==> s@.contains(id),
{
}

/// A message whose scope `Except` or `Only` lacks its set is written by
/// nobody.
pub proof fn missing_set_selects_nobody(m: Message, id: ConnId)
    requires
        (m.scope == ScopeKind::Except && m.except_ids is None) || (m.scope == ScopeKind::Only
            && m.include_ids is None),
    ensures
        !observes(id, m),
{
}

/// Each connection receives a subsequence of the hub's one global order:
/// the messages of `inbox(evs, id)` stand at strictly increasing positions
/// of `routed(evs)`. So any two connections see the messages they both
/// receive in the same relative order.
pub proof fn inbox_follows_global_order(evs: Seq<HubEvent>, id: ConnId)
    ensures
        inbox_positions(evs, id).len() == inbox(evs, id).len(),
        forall|k: int|
            0 <= k < inbox(evs, id).len() ==> 0 <= #[trigger] inbox_positions(evs, id)[k] < routed(
                evs,
            ).len() && routed(evs)[inbox_positions(evs, id)[k]] == inbox(evs, id)[k],
        forall|k: int, l: int|
            0 <= k < l < inbox(evs, id).len() ==> #[trigger] inbox_positions(evs, id)[k]
                < #[trigger] inbox_positions(evs, id)[l],
    decreases evs.len(),
{
    if evs.len() > 0 {
        let prev = evs.drop_last();
        inbox_follows_global_order(prev, id);
    }
}

/// The same, of a running hub: what it routed and what each connection
/// received from it are in one order.
pub proof fn hub_delivers_in_one_order<C>(hub: &Hub<C>, id: ConnId)
    requires
        hub.wf(),
    ensures
        forall|k: int, l: int|
            0 <= k < l < inbox(hub.history(), id).len() ==> #[trigger] inbox_positions(
                hub.history(),
                id,
            )[k] < #[trigger] inbox_positions(hub.history(), id)[l],
        forall|k: int|
            0 <= k < inbox(hub.history(), id).len() ==> routed(hub.history())[#[trigger] inbox_positions(
                hub.history(),
                id,
            )[k]] == inbox(hub.history(), id)[k],
{
    inbox_follows_global_order(hub.history(), id);
}

/// The sentinel posted by `me` stops the outbound actor of `me` and of no
/// other connection; every other connection writes it as ordinary text.
pub proof fn sentinel_stops_only_its_sender(me: ConnId, m: Message, other: ConnId)
    requires
        posted(me, sentinel(), m),
        other != me,
    ensures
        outbound_stops(me, m),
        !outbound_stops(other, m),
        observes(other, m),
{
}

/// A routing step in which some recipients failed to take the message
/// keeps every recipient that took it, with the same number of recipients
/// as sends that succeeded, and the next message reaches that connection
/// again when its channel takes it.
pub proof fn routing_continues_after_failed_sends(
    evs: Seq<HubEvent>,
    m: Message,
    sent: Vec<bool>,
    m2: Message,
    sent2: Vec<bool>,
    i: int,
    j: int,
)
    requires
        0 <= i < registry_after(evs).len(),
        sent@.len() == registry_after(evs).len(),
        sent@[i],
        0 <= j < sent2@.len(),
        sent2@.len() == registry_after(evs.push(HubEvent::Route(m, sent))).len(),
        sent2@[j],
        registry_after(evs.push(HubEvent::Route(m, sent)))[j] == registry_after(evs)[i],
    ensures
        inbox(
            evs.push(HubEvent::Route(m, sent)).push(HubEvent::Route(m2, sent2)),
            registry_after(evs)[i],
        ) == inbox(evs, registry_after(evs)[i]).push(m).push(m2),
{
    let e1 = evs.push(HubEvent::Route(m, sent));
    let e2 = e1.push(HubEvent::Route(m2, sent2));
    assert(e1.drop_last() =~= evs);
    assert(e2.drop_last() =~= e1);
    let id = registry_after(evs)[i];
    lemma_kept_contains(registry_after(evs), sent@, i);
    assert(registry_after(e1) == kept(registry_after(evs), sent@));
    assert(inbox(e1, id) == inbox(evs, id).push(m));
    lemma_kept_contains(registry_after(e1), sent2@, j);
    assert(inbox(e2, id) == inbox(e1, id).push(m2));
}

/// After the recipients registered as `gone` are dropped, every other
/// registered connection stays registered, and each recipient left
/// receives the next routed message when its channel takes it.
pub proof fn routing_continues_after_unregister(
    evs: Seq<HubEvent>,
    gone: ConnId,
    id: ConnId,
    m: Message,
    sent: Vec<bool>,
    j: int,
)
    requires
        0 <= j < sent@.len(),
        sent@.len() == registry_after(evs.push(HubEvent::Unregister(gone))).len(),
        sent@[j],
    ensures
        registry_after(evs).contains(id) && id != gone ==> registry_after(
            evs.push(HubEvent::Unregister(gone)),
        ).contains(id),
        registry_after(evs.push(HubEvent::Unregister(gone)))[j] != gone,
        inbox(
            evs.push(HubEvent::Unregister(gone)).push(HubEvent::Route(m, sent)),
            registry_after(evs.push(HubEvent::Unregister(gone)))[j],
        ) == inbox(evs, registry_after(evs.push(HubEvent::Unregister(gone)))[j]).push(m),
{
    let e1 = evs.push(HubEvent::Unregister(gone));
    let e2 = e1.push(HubEvent::Route(m, sent));
    assert(e1.drop_last() =~= evs);
    assert(e2.drop_last() =~= e1);
    let p = |x: ConnId| x != gone;
    let r = registry_after(evs);
    assert(registry_after(e1) == r.filter(p));
    if r.contains(id) && id != gone {
        r.lemma_filter_contains_rev(p, id);
    }
    r.lemma_filter_pred(p, j);
    lemma_kept_contains(registry_after(e1), sent@, j);
    assert(inbox(e1, registry_after(e1)[j]) == inbox(evs, registry_after(e1)[j]));
}

} // verus!

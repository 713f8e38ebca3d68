//! The agenda: the events that are active at a moment, in the order in which
//! they are shown.
//!
//! Events that last whole days come first, in the order in which they were
//! given. The others follow by the time of day at which they begin, and those
//! that begin at the same time keep the order in which they were given.

use crate::clock::Moment;
use crate::event::{Event, EventView};
use vstd::multiset::Multiset;
use vstd::prelude::*;

verus! {

impl EventView {
    /// Whether the event may be shown before `other`: it lasts whole days, or
    /// neither does and it begins no later than `other`.
    pub open spec fn precedes(self, other: EventView) -> bool {
        match self {
            EventView::AllDay { .. } => true,
            EventView::Once { begin, .. } | EventView::Recurring { begin, .. } => match other {
                EventView::AllDay { .. } => false,
                EventView::Once { begin: other_begin, .. }
                | EventView::Recurring { begin: other_begin, .. } => begin.le(other_begin),
            },
        }
    }
}

impl Event {
    /// Tells whether the event may be shown before `other`.
    pub fn precedes(&self, other: &Event) -> (r: bool)
        ensures
            r == self@.precedes(other@),
    {
        match self {
            Event::AllDay { .. } => true,
            Event::Once { begin, .. } | Event::Recurring { begin, .. } => match other {
                Event::AllDay { .. } => false,
                Event::Once { begin: other_begin, .. }
                | Event::Recurring { begin: other_begin, .. } => begin.not_after(*other_begin),
            },
        }
    }
}

/// The events of `events` by the values they hold.
pub open spec fn event_views(events: Seq<Event>) -> Seq<EventView> {
    Seq::new(events.len(), |i: int| events[i]@)
}

/// The events of `events` that are active at `now`, in their order.
pub open spec fn active_of(events: Seq<EventView>, now: Moment) -> Seq<EventView> {
    events.filter(|event: EventView| event.active_at(now))
}

/// An event at the front of `events` is kept where it is active, and left
/// out where it is not.
pub proof fn lemma_active_front(event: EventView, events: Seq<EventView>, now: Moment)
    ensures
        active_of(seq![event] + events, now) == if event.active_at(now) {
            seq![event] + active_of(events, now)
        } else {
            active_of(events, now)
        },
{
    let active = |e: EventView| e.active_at(now);
    let one = seq![event];
    Seq::filter_distributes_over_add(one, events, active);
    reveal_with_fuel(Seq::filter, 2);
    assert(one.drop_last() == Seq::<EventView>::empty());
    assert(one.last() == event);
    if event.active_at(now) {
        assert(one.filter(active) == one);
    } else {
        assert(one.filter(active) == Seq::<EventView>::empty());
        assert(Seq::<EventView>::empty() + active_of(events, now) == active_of(events, now));
    }
}

/// The number of events at the front of `events` that `event` may not be
/// shown before.
pub open spec fn slot(event: EventView, events: Seq<EventView>) -> nat
    decreases events.len(),
{
    if events.len() == 0 || event.precedes(events[0]) {
        0
    } else {
        1 + slot(event, events.drop_first())
    }
}

/// `events` with `event` put before the first of them that it may be shown
/// before.
pub open spec fn place(event: EventView, events: Seq<EventView>) -> Seq<EventView> {
    events.insert(slot(event, events) as int, event)
}

/// `events` in the order in which they are shown: each event is put, from the
/// last to the first, among those that follow it.
pub open spec fn arranged(events: Seq<EventView>) -> Seq<EventView>
    decreases events.len(),
{
    if events.len() == 0 {
        events
    } else {
        place(events[0], arranged(events.drop_first()))
    }
}

/// The agenda at `now`: the active events, in the order in which they are
/// shown.
pub open spec fn agenda_of(events: Seq<EventView>, now: Moment) -> Seq<EventView> {
    arranged(active_of(events, now))
}

/// Whether each event of `events` may be shown before all that follow it.
pub open spec fn in_order(events: Seq<EventView>) -> bool {
    forall|i: int, j: int| 0 <= i < j < events.len() ==> events[i].precedes(events[j])
}

/// The slot is the index of the first event that `event` may be shown before.
pub proof fn lemma_slot_unique(event: EventView, events: Seq<EventView>, n: int)
    requires
        0 <= n <= events.len(),
        forall|k: int| 0 <= k < n ==> !event.precedes(#[trigger] events[k]),
        n < events.len() ==> event.precedes(events[n]),
    ensures
        slot(event, events) == n,
    decreases n,
{
    if n > 0 {
        let rest = events.drop_first();
        assert forall|k: int| 0 <= k < n - 1 implies !event.precedes(#[trigger] rest[k]) by {
            assert(rest[k] == events[k + 1]);
        }
        lemma_slot_unique(event, rest, n - 1);
    }
}

/// The slot lies within the events; `event` may be shown before none of the
/// events ahead of it, and before the one at it.
pub proof fn lemma_slot_bounds(event: EventView, events: Seq<EventView>)
    ensures
        slot(event, events) <= events.len(),
        forall|k: int| 0 <= k < slot(event, events) ==> !event.precedes(#[trigger] events[k]),
        slot(event, events) < events.len() ==> event.precedes(events[slot(event, events) as int]),
    decreases events.len(),
{
    if !(events.len() == 0 || event.precedes(events[0])) {
        let rest = events.drop_first();
        lemma_slot_bounds(event, rest);
        assert forall|k: int| 0 <= k < slot(event, events) implies !event.precedes(
            #[trigger] events[k],
        ) by {
            if k > 0 {
                assert(events[k] == rest[k - 1]);
            }
        }
        if slot(event, events) < events.len() {
            assert(events[slot(event, events) as int] == rest[slot(event, rest) as int]);
        }
    }
}

/// Finds the place of `event` among `events`.
fn slot_for(events: &Vec<Event>, event: &Event) -> (r: usize)
    ensures
        r == slot(event@, event_views(events@)),
        r <= events.len(),
{
    let mut i: usize = 0;
    while i < events.len() && !event.precedes(&events[i])
        invariant
            i <= events.len(),
            forall|k: int| 0 <= k < i ==> !event@.precedes(#[trigger] events@[k]@),
        decreases events.len() - i,
    {
        i += 1;
    }
    proof {
        lemma_slot_unique(event@, event_views(events@), i as int);
    }
    i
}

/// Keeps the events that are active at `now`, and puts them in the order in
/// which they are shown.
pub fn get_valid_events(events: Vec<Event>, now: &Moment) -> (r: Vec<Event>)
    ensures
        event_views(r@) == agenda_of(event_views(events@), *now),
{
    let ghost all = event_views(events@);
    let mut rest = events;
    let mut shown: Vec<Event> = Vec::new();
    proof {
        reveal_with_fuel(Seq::filter, 1);
        assert(all.skip(all.len() as int) == Seq::<EventView>::empty());
        assert(event_views(shown@) == Seq::<EventView>::empty());
    }
    while rest.len() > 0
        invariant
            rest.len() <= all.len(),
            event_views(rest@) == all.take(rest.len() as int),
            event_views(shown@) == agenda_of(all.skip(rest.len() as int), *now),
        decreases rest.len(),
    {
        let ghost before = rest@;
        let ghost n = rest.len() as int;
        let event = rest.pop().unwrap();
        proof {
            assert(event@ == event_views(before)[n - 1]);
            assert(event@ == all[n - 1]);
            assert(event_views(rest@) == all.take(n - 1));
            assert(all.skip(n - 1) == seq![all[n - 1]] + all.skip(n));
            lemma_active_front(all[n - 1], all.skip(n), *now);
        }
        if event.is_active(now) {
            let at: usize = slot_for(&shown, &event);
            let ghost old_shown = shown@;
            shown.insert(at, event);
            proof {
                let tail = active_of(all.skip(n), *now);
                assert((seq![all[n - 1]] + tail).drop_first() == tail);
                assert((seq![all[n - 1]] + tail)[0] == all[n - 1]);
                assert(event_views(shown@) == event_views(old_shown).insert(at as int, all[n - 1]));
            }
        }
    }
    proof {
        assert(all.skip(0) == all);
    }
    shown
}

/// The order of showing is a total preorder: each event may be shown before
/// itself, of two events one may be shown before the other, and what may be
/// shown before an event may be shown before all that this one may be shown
/// before.
pub proof fn lemma_precedes_preorder(a: EventView, b: EventView, c: EventView)
    ensures
        a.precedes(a),
        a.precedes(b) || b.precedes(a),
        a.precedes(b) && b.precedes(c) ==> a.precedes(c),
{
}

/// To put an event among events that are in order leaves them in order.
pub proof fn lemma_place_in_order(event: EventView, events: Seq<EventView>)
    requires
        in_order(events),
    ensures
        in_order(place(event, events)),
{
    lemma_slot_bounds(event, events);
    let at = slot(event, events) as int;
    let out = place(event, events);
    assert forall|i: int, j: int| 0 <= i < j < out.len() implies out[i].precedes(out[j]) by {
        if j == at {
            lemma_precedes_preorder(event, events[i], event);
        } else if i == at {
            lemma_precedes_preorder(event, events[at], events[j - 1]);
        } else if i < at < j {
            assert(events[i].precedes(events[j - 1]));
        } else if j < at {
            assert(events[i].precedes(events[j]));
        } else {
            assert(events[i - 1].precedes(events[j - 1]));
        }
    }
}

/// The events on show are in order: each may be shown before all that
/// follow it.
pub proof fn lemma_arranged_in_order(events: Seq<EventView>)
    ensures
        in_order(arranged(events)),
    decreases events.len(),
{
    if events.len() > 0 {
        lemma_arranged_in_order(events.drop_first());
        lemma_place_in_order(events[0], arranged(events.drop_first()));
    }
}

/// The events on show are the events that were given, each as often as it
/// was given.
pub proof fn lemma_arranged_permutes(events: Seq<EventView>)
    ensures
        arranged(events).to_multiset() == events.to_multiset(),
        arranged(events).len() == events.len(),
    decreases events.len(),
{
    broadcast use vstd::seq_lib::group_to_multiset_ensures;

    if events.len() > 0 {
        let rest = events.drop_first();
        lemma_arranged_permutes(rest);
        lemma_slot_bounds(events[0], arranged(rest));
        vstd::seq_lib::to_multiset_insert(
            arranged(rest),
            slot(events[0], arranged(rest)) as int,
            events[0],
        );
        assert(events == seq![events[0]] + rest);
        vstd::seq_lib::lemma_multiset_commutative(seq![events[0]], rest);
        assert(seq![events[0]] == Seq::<EventView>::empty().push(events[0]));
        assert(seq![events[0]].to_multiset() == Multiset::<EventView>::empty().insert(events[0]));
        assert(arranged(events).to_multiset() =~= events.to_multiset());
    }
}

/// Events that are in order are shown as they were given.
pub proof fn lemma_arranged_fixed(events: Seq<EventView>)
    requires
        in_order(events),
    ensures
        arranged(events) == events,
    decreases events.len(),
{
    if events.len() > 0 {
        let rest = events.drop_first();
        assert forall|i: int, j: int| 0 <= i < j < rest.len() implies rest[i].precedes(
            rest[j],
        ) by {
            assert(events[i + 1].precedes(events[j + 1]));
        }
        lemma_arranged_fixed(rest);
        if rest.len() > 0 {
            assert(events[0].precedes(events[1]));
            assert(rest[0] == events[1]);
        }
        assert(rest.insert(0, events[0]) == events);
    }
}

/// To put into order what is on show changes nothing.
pub proof fn lemma_arranged_idempotent(events: Seq<EventView>)
    ensures
        arranged(arranged(events)) == arranged(events),
{
    lemma_arranged_in_order(events);
    lemma_arranged_fixed(arranged(events));
}

/// On show, no event that lasts whole days follows one that does not.
pub proof fn lemma_all_day_first(events: Seq<EventView>)
    ensures
        forall|i: int, j: int|
            0 <= i < j < arranged(events).len() && arranged(events)[j] is AllDay ==> arranged(
                events,
            )[i] is AllDay,
{
    lemma_arranged_in_order(events);
    let shown = arranged(events);
    assert forall|i: int, j: int|
        0 <= i < j < shown.len() && shown[j] is AllDay implies shown[i] is AllDay by {
        assert(shown[i].precedes(shown[j]));
    }
}

/// Whether the events that `class` holds tie: each may be shown before each.
pub open spec fn ties(class: spec_fn(EventView) -> bool) -> bool {
    forall|a: EventView, b: EventView| class(a) && class(b) ==> #[trigger] a.precedes(b)
}

/// A sequence that holds no event of `class` has none left after the
/// selection of that class.
proof fn lemma_filter_none(events: Seq<EventView>, class: spec_fn(EventView) -> bool)
    requires
        forall|k: int| 0 <= k < events.len() ==> !class(#[trigger] events[k]),
    ensures
        events.filter(class) == Seq::<EventView>::empty(),
    decreases events.len(),
{
    reveal(Seq::filter);
    if events.len() > 0 {
        lemma_filter_none(events.drop_last(), class);
    }
}

/// Events that tie are shown in the order in which they were given: among
/// the events of a class whose members tie, the order on show is the order
/// of the input.
pub proof fn lemma_arranged_stable(events: Seq<EventView>, class: spec_fn(EventView) -> bool)
    requires
        ties(class),
    ensures
        arranged(events).filter(class) == events.filter(class),
    decreases events.len(),
{
    if events.len() > 0 {
        let first = events[0];
        let rest = events.drop_first();
        let shown = arranged(rest);
        lemma_arranged_stable(rest, class);
        lemma_slot_bounds(first, shown);
        let at = slot(first, shown) as int;
        let ahead = shown.take(at);
        let behind = shown.skip(at);
        let one = seq![first];
        assert(shown == ahead + behind);
        assert(place(first, shown) == ahead + one + behind);
        assert(events == one + rest);
        Seq::filter_distributes_over_add(ahead, behind, class);
        Seq::filter_distributes_over_add(ahead + one, behind, class);
        Seq::filter_distributes_over_add(ahead, one, class);
        Seq::filter_distributes_over_add(one, rest, class);
        if class(first) {
            assert forall|k: int| 0 <= k < ahead.len() implies !class(#[trigger] ahead[k]) by {
                assert(ahead[k] == shown[k]);
                if class(ahead[k]) {
                    assert(first.precedes(ahead[k]));
                }
            }
            lemma_filter_none(ahead, class);
            assert(Seq::<EventView>::empty() + one.filter(class) == one.filter(class));
            assert(Seq::<EventView>::empty() + behind.filter(class) == behind.filter(class));
        } else {
            lemma_filter_none(one, class);
            assert(ahead.filter(class) + Seq::<EventView>::empty() == ahead.filter(class));
            assert(Seq::<EventView>::empty() + rest.filter(class) == rest.filter(class));
        }
    }
}

} // verus!

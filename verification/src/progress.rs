//! Debounced delivery of progress: updates that come in quick succession
//! are gathered and delivered as one event.

use crate::report::{updated_all, JobReport, JobReportUpdate, Shown, UpdateView};
use vstd::prelude::*;
use vstd::string::*;

verus! {

/// A delivered progress event: for each thing a job shows, the latest value
/// since the event before, if there was one.
#[derive(Debug, Clone)]
pub struct ProgressEvent {
    pub task_count: Option<usize>,
    pub completed_task_count: Option<usize>,
    pub message: Option<String>,
}

/// An event as plain values.
pub struct EventView {
    pub task_count: Option<int>,
    pub completed_task_count: Option<int>,
    pub message: Option<Seq<char>>,
}

impl View for ProgressEvent {
    type V = EventView;

    open spec fn view(&self) -> EventView {
        EventView {
            task_count: match self.task_count {
                Some(n) => Some(n as int),
                None => None,
            },
            completed_task_count: match self.completed_task_count {
                Some(n) => Some(n as int),
                None => None,
            },
            message: match self.message {
                Some(m) => Some(m@),
                None => None,
            },
        }
    }
}

impl ProgressEvent {
    /// A copy of this event, for a second receiver.
    pub fn copy(&self) -> (r: ProgressEvent)
        ensures
            r@ == self@,
    {
        ProgressEvent {
            task_count: self.task_count,
            completed_task_count: self.completed_task_count,
            message: match &self.message {
                Some(m) => Some(m.clone()),
                None => None,
            },
        }
    }
}

/// The event that changes nothing.
pub open spec fn no_event() -> EventView {
    EventView { task_count: None, completed_task_count: None, message: None }
}

/// The event `event` with one more update gathered into it.
pub open spec fn gathered(event: EventView, update: UpdateView) -> EventView {
    match update {
        UpdateView::TaskCount(n) => EventView { task_count: Some(n), ..event },
        UpdateView::CompletedTaskCount(n) => EventView { completed_task_count: Some(n), ..event },
        UpdateView::Message(m) => EventView { message: Some(m), ..event },
    }
}

/// The event `event` with a run of updates gathered into it, in order.
pub open spec fn gathered_all(event: EventView, updates: Seq<UpdateView>) -> EventView
    decreases updates.len(),
{
    if updates.len() == 0 {
        event
    } else {
        gathered(gathered_all(event, updates.drop_last()), updates.last())
    }
}

/// What is shown once an event has arrived.
pub open spec fn delivered(shown: Shown, event: EventView) -> Shown {
    Shown {
        task_count: match event.task_count {
            Some(n) => n,
            None => shown.task_count,
        },
        completed_task_count: match event.completed_task_count {
            Some(n) => n,
            None => shown.completed_task_count,
        },
        message: match event.message {
            Some(m) => m,
            None => shown.message,
        },
    }
}

/// What is shown once a run of events has arrived, in order.
pub open spec fn delivered_all(shown: Shown, events: Seq<EventView>) -> Shown
    decreases events.len(),
{
    if events.len() == 0 {
        shown
    } else {
        delivered(delivered_all(shown, events.drop_last()), events.last())
    }
}

/// An event shows what its updates would have shown one by one.
pub proof fn lemma_gathered_shows_updates(
    shown: Shown,
    event: EventView,
    updates: Seq<UpdateView>,
)
    ensures
        delivered(shown, gathered_all(event, updates)) == updated_all(
            delivered(shown, event),
            updates,
        ),
    decreases updates.len(),
{
    if updates.len() > 0 {
        lemma_gathered_shows_updates(shown, event, updates.drop_last());
    }
}

/// The debouncer as plain values.
pub struct DebouncerView {
    /// Least time between two deliveries.
    pub window: int,
    /// Time of the last delivery.
    pub last_delivery: Option<int>,
    /// What was gathered since the last delivery.
    pub pending: EventView,
}

/// Whether an offer at `now` is delivered at once: nothing was delivered
/// yet, or the window since the last delivery has passed.
pub open spec fn window_open(d: DebouncerView, now: int) -> bool {
    match d.last_delivery {
        None => true,
        Some(last) => now - last >= d.window,
    }
}

/// The debouncer after updates were offered at `now`.
pub open spec fn offered(d: DebouncerView, now: int, updates: Seq<UpdateView>) -> DebouncerView {
    if window_open(d, now) {
        DebouncerView { window: d.window, last_delivery: Some(now), pending: no_event() }
    } else {
        DebouncerView { pending: gathered_all(d.pending, updates), ..d }
    }
}

/// The event that an offer at `now` delivers, if it delivers one.
pub open spec fn offer_event(d: DebouncerView, now: int, updates: Seq<UpdateView>) -> Option<
    EventView,
> {
    if window_open(d, now) {
        Some(gathered_all(d.pending, updates))
    } else {
        None
    }
}

/// One offer: the time at which it is made and its updates.
pub struct Offer {
    pub now: int,
    pub updates: Seq<UpdateView>,
}

/// The debouncer after a run of offers.
pub open spec fn offered_all(d: DebouncerView, offers: Seq<Offer>) -> DebouncerView
    decreases offers.len(),
{
    if offers.len() == 0 {
        d
    } else {
        offered(offered_all(d, offers.drop_last()), offers.last().now, offers.last().updates)
    }
}

/// The events that a run of offers delivers, in order.
pub open spec fn events_of(d: DebouncerView, offers: Seq<Offer>) -> Seq<EventView>
    decreases offers.len(),
{
    if offers.len() == 0 {
        Seq::empty()
    } else {
        let before = events_of(d, offers.drop_last());
        match offer_event(
            offered_all(d, offers.drop_last()),
            offers.last().now,
            offers.last().updates,
        ) {
            Some(event) => before.push(event),
            None => before,
        }
    }
}

/// Every update of a run of offers, in order.
pub open spec fn updates_of(offers: Seq<Offer>) -> Seq<UpdateView>
    decreases offers.len(),
{
    if offers.len() == 0 {
        Seq::empty()
    } else {
        updates_of(offers.drop_last()) + offers.last().updates
    }
}

/// Debouncing loses nothing: once the events of a run of offers and then
/// what is still pending have arrived, the receiver shows exactly what it
/// would show had every update arrived on its own.
pub proof fn lemma_final_event_shows_totals(shown: Shown, d: DebouncerView, offers: Seq<Offer>)
    ensures
        delivered(delivered_all(shown, events_of(d, offers)), offered_all(d, offers).pending)
            == updated_all(delivered(shown, d.pending), updates_of(offers)),
    decreases offers.len(),
{
    if offers.len() > 0 {
        let front = offers.drop_last();
        let last = offers.last();
        let mid = offered_all(d, front);
        let seen = delivered_all(shown, events_of(d, front));
        lemma_final_event_shows_totals(shown, d, front);
        lemma_gathered_shows_updates(seen, mid.pending, last.updates);
        crate::report::lemma_updated_all_concat(
            delivered(shown, d.pending),
            updates_of(front),
            last.updates,
        );
        if window_open(mid, last.now) {
            let event = gathered_all(mid.pending, last.updates);
            assert(events_of(d, offers) == events_of(d, front).push(event));
            assert(events_of(d, offers).drop_last() =~= events_of(d, front));
        }
    }
}

/// Offers that all fall into one window after a delivery deliver nothing
/// themselves.
pub proof fn lemma_one_window_delivers_nothing(d: DebouncerView, offers: Seq<Offer>)
    requires
        d.last_delivery is Some,
        forall|i: int| 0 <= i < offers.len() ==> (#[trigger] offers[i]).now - d.last_delivery->0
            < d.window,
    ensures
        events_of(d, offers).len() == 0,
        offered_all(d, offers).last_delivery == d.last_delivery,
        offered_all(d, offers).window == d.window,
    decreases offers.len(),
{
    if offers.len() > 0 {
        let front = offers.drop_last();
        assert forall|i: int| 0 <= i < front.len() implies (#[trigger] front[i]).now
            - d.last_delivery->0 < d.window by {
            assert(front[i] == offers[i]);
        }
        lemma_one_window_delivers_nothing(d, front);
        assert(offers.last() == offers[offers.len() - 1]);
    }
}

/// Of any number of offers made within one window of the first, only the
/// first is delivered at once.
pub proof fn lemma_one_window_one_event(d: DebouncerView, offers: Seq<Offer>)
    requires
        d.last_delivery is None,
        offers.len() > 0,
        forall|i: int| 0 <= i < offers.len() ==> (#[trigger] offers[i]).now - offers[0].now
            < d.window,
    ensures
        events_of(d, offers).len() == 1,
    decreases offers.len(),
{
    if offers.len() == 1 {
        assert(offers.drop_last() =~= Seq::<Offer>::empty());
        assert(offers.last() == offers[0]);
        assert(events_of(d, offers.drop_last()).len() == 0);
    } else {
        let front = offers.drop_last();
        assert forall|i: int| 0 <= i < front.len() implies (#[trigger] front[i]).now
            - front[0].now < d.window by {
            assert(front[i] == offers[i]);
            assert(front[0] == offers[0]);
        }
        lemma_one_window_one_event(d, front);
        lemma_last_delivery(d, front);
        assert(offers.last() == offers[offers.len() - 1]);
        assert(front[0] == offers[0]);
    }
}

/// After offers within one window of the first, the last delivery is the
/// first offer's.
proof fn lemma_last_delivery(d: DebouncerView, offers: Seq<Offer>)
    requires
        d.last_delivery is None,
        offers.len() > 0,
        forall|i: int| 0 <= i < offers.len() ==> (#[trigger] offers[i]).now - offers[0].now
            < d.window,
    ensures
        offered_all(d, offers).last_delivery == Some(offers[0].now),
        offered_all(d, offers).window == d.window,
    decreases offers.len(),
{
    if offers.len() == 1 {
        assert(offers.drop_last() =~= Seq::<Offer>::empty());
        assert(offers.last() == offers[0]);
    } else {
        let front = offers.drop_last();
        assert forall|i: int| 0 <= i < front.len() implies (#[trigger] front[i]).now
            - front[0].now < d.window by {
            assert(front[i] == offers[i]);
            assert(front[0] == offers[0]);
        }
        lemma_last_delivery(d, front);
        assert(offers.last() == offers[offers.len() - 1]);
        assert(front[0] == offers[0]);
    }
}

/// Holds progress back so that events are delivered at most once per
/// window. Time is what the caller says it is, in milliseconds.
#[derive(Debug)]
pub struct ProgressDebouncer {
    window: u64,
    last_delivery: Option<u64>,
    pending: ProgressEvent,
}

impl View for ProgressDebouncer {
    type V = DebouncerView;

    closed spec fn view(&self) -> DebouncerView {
        DebouncerView {
            window: self.window as int,
            last_delivery: match self.last_delivery {
                Some(t) => Some(t as int),
                None => None,
            },
            pending: self.pending@,
        }
    }
}

fn gather(event: &mut ProgressEvent, update: JobReportUpdate)
    ensures
        final(event)@ == gathered(old(event)@, update@),
{
    match update {
        JobReportUpdate::TaskCount(n) => {
            event.task_count = Some(n);
        },
        JobReportUpdate::CompletedTaskCount(n) => {
            event.completed_task_count = Some(n);
        },
        JobReportUpdate::Message(m) => {
            event.message = Some(m);
        },
    }
}

impl ProgressDebouncer {
    /// A debouncer that has delivered nothing yet.
    pub fn new(window: u64) -> (r: ProgressDebouncer)
        ensures
            r@ == (DebouncerView { window: window as int, last_delivery: None, pending: no_event() }),
    {
        ProgressDebouncer {
            window,
            last_delivery: None,
            pending: ProgressEvent { task_count: None, completed_task_count: None, message: None },
        }
    }

    /// Offers updates at the time `now`. They are gathered into what is
    /// pending; where the window is open, all of it is delivered as one
    /// event. The caller is never made to wait.
    pub fn offer(&mut self, now: u64, updates: Vec<JobReportUpdate>) -> (r: Option<ProgressEvent>)
        ensures
            final(self)@ == offered(old(self)@, now as int, updates.deep_view()),
            match offer_event(old(self)@, now as int, updates.deep_view()) {
                Some(event) => r matches Some(e) && e@ == event,
                None => r is None,
            },
    {
        let ghost given = updates@;
        let ghost views = updates.deep_view();
        let ghost start = self.pending@;
        assert(views.take(0) =~= Seq::<UpdateView>::empty());
        for update in it: updates
            invariant
                it.seq() == given,
                views == given.map_values(|u: JobReportUpdate| u@),
                self.pending@ == gathered_all(start, views.take(it.index() as int)),
                self.window == old(self).window,
                self.last_delivery == old(self).last_delivery,
        {
            let ghost idx = it.index() as int;
            assert(update == given[idx]);
            assert(views.take(idx + 1).drop_last() =~= views.take(idx));
            assert(views.take(idx + 1).last() == update@);
            gather(&mut self.pending, update);
        }
        assert(views.take(views.len() as int) =~= views);
        let open = match self.last_delivery {
            None => true,
            Some(last) => now >= last && now - last >= self.window,
        };
        if open {
            let mut event = ProgressEvent {
                task_count: None,
                completed_task_count: None,
                message: None,
            };
            std::mem::swap(&mut event, &mut self.pending);
            self.last_delivery = Some(now);
            Some(event)
        } else {
            None
        }
    }

    /// Delivers what is still pending, as the last event of a job: whatever
    /// was held back arrives now.
    pub fn flush(&mut self) -> (r: ProgressEvent)
        ensures
            r@ == old(self)@.pending,
            final(self)@ == (DebouncerView { pending: no_event(), ..old(self)@ }),
    {
        let mut event = ProgressEvent {
            task_count: None,
            completed_task_count: None,
            message: None,
        };
        std::mem::swap(&mut event, &mut self.pending);
        event
    }
}

impl JobReport {
    /// Takes a delivered event into the report.
    pub fn deliver(&mut self, event: ProgressEvent)
        ensures
            final(self).shown() == delivered(old(self).shown(), event@),
            final(self).id == old(self).id,
            final(self).name == old(self).name,
            final(self).status == old(self).status,
            final(self).data == old(self).data,
    {
        match event.task_count {
            Some(n) => {
                self.task_count = n;
            },
            None => {},
        }
        match event.completed_task_count {
            Some(n) => {
                self.completed_task_count = n;
            },
            None => {},
        }
        match event.message {
            Some(m) => {
                self.message = m;
            },
            None => {},
        }
    }
}

} // verus!

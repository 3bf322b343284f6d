use vstd::prelude::*;

use crate::game::events::{event_text, GameEvent};

verus! {

/// Something that takes in each batch of events a game produces.
pub trait EventHandler {
    /// The batches handed to this handler so far, oldest first.
    spec fn received(&self) -> Seq<Seq<GameEvent>>;

    fn handle_events(&mut self, events: &[GameEvent])
        ensures
            final(self).received() == old(self).received().push(events@),
    ;
}

/// Hands every batch of events to each registered handler, in the order the
/// handlers were registered.
pub struct EventBus<H> {
    pub handlers: Vec<H>,
}

impl<H: EventHandler> EventBus<H> {
    pub fn new() -> (r: Self)
        ensures
            r.handlers@.len() == 0,
    {
        EventBus { handlers: Vec::new() }
    }

    pub fn register_handler(&mut self, h: H)
        ensures
            final(self).handlers@ == old(self).handlers@.push(h),
    {
        self.handlers.push(h);
    }

    /// Hands `events` to every handler once, in registration order; the
    /// handlers stay in their places.
    pub fn publish_events(&mut self, events: &[GameEvent])
        ensures
            final(self).handlers@.len() == old(self).handlers@.len(),
            forall|j: int|
                0 <= j < old(self).handlers@.len() ==> (#[trigger] final(self).handlers@[j]).received()
                    == old(self).handlers@[j].received().push(events@),
    {
        let ghost before = self.handlers@;
        let mut i: usize = 0;
        while i < self.handlers.len()
            invariant
                i <= self.handlers@.len(),
                self.handlers@.len() == before.len(),
                before == old(self).handlers@,
                forall|j: int|
                    0 <= j < i ==> (#[trigger] self.handlers@[j]).received() == before[j].received().push(
                        events@,
                    ),
                forall|j: int| i <= j < self.handlers@.len() ==> #[trigger] self.handlers@[j] == before[j],
            decreases self.handlers@.len() - i,
        {
            let mut h = self.handlers.remove(i);
            h.handle_events(events);
            self.handlers.insert(i, h);
            i = i + 1;
        }
    }

    /// Publishes an owned batch, as `publish_events` does.
    pub fn publish(&mut self, events: Vec<GameEvent>)
        ensures
            final(self).handlers@.len() == old(self).handlers@.len(),
            forall|j: int|
                0 <= j < old(self).handlers@.len() ==> (#[trigger] final(self).handlers@[j]).received()
                    == old(self).handlers@[j].received().push(events@),
    {
        self.publish_events(events.as_slice());
    }
}

/// A handler that keeps one log line per event; whoever runs the process
/// writes the lines out.
pub struct ConsolerLogger {
    pub lines: Vec<String>,
    /// The batches logged so far.
    pub batches: Ghost<Seq<Seq<GameEvent>>>,
}

/// The log line of one event.
pub open spec fn log_text(e: GameEvent) -> Seq<char> {
    "[ConsoleLogger] Event: "@ + event_text(e)
}

impl ConsolerLogger {
    pub fn new() -> (r: ConsolerLogger)
        ensures
            r.lines@.len() == 0,
            r.batches@.len() == 0,
    {
        ConsolerLogger { lines: Vec::new(), batches: Ghost(Seq::empty()) }
    }

    /// One log line per event, in order.
    pub fn log_lines(events: &[GameEvent]) -> (r: Vec<String>)
        ensures
            r@.len() == events@.len(),
            forall|i: int| 0 <= i < r@.len() ==> (#[trigger] r@[i])@ == log_text(events@[i]),
    {
        let mut r: Vec<String> = Vec::new();
        let mut i: usize = 0;
        while i < events.len()
            invariant
                i <= events@.len(),
                r@.len() == i,
                forall|k: int| 0 <= k < i ==> (#[trigger] r@[k])@ == log_text(events@[k]),
            decreases events@.len() - i,
        {
            let mut line = String::from_str("[ConsoleLogger] Event: ");
            line.append(events[i].to_text().as_str());
            r.push(line);
            i = i + 1;
        }
        r
    }
}

impl EventHandler for ConsolerLogger {
    open spec fn received(&self) -> Seq<Seq<GameEvent>> {
        self.batches@
    }

    /// Adds one log line per event.
    fn handle_events(&mut self, events: &[GameEvent]) {
        let mut lines = ConsolerLogger::log_lines(events);
        self.lines.append(&mut lines);
        self.batches = Ghost(self.batches@.push(events@));
    }
}

} // verus!

//! The read path of a trip's details as a sequence of steps. Details whose
//! content was never generated are enriched one at a time, in order, before
//! the details are handed to the reader. The caller performs each action (a
//! request to the generation service, a write to the database) and reports
//! what happened. A failure ends the pass: details stored before it keep
//! their new content, the failing detail and every later one stay as they
//! were, and nothing is retried.
use vstd::prelude::*;

use crate::enrich::{cleaned, is_clean, is_pending, next_pending, reply_to_html};
use crate::error::{TripError, UpstreamKind};
use crate::ids::ObjectId;
use crate::model::Detail;
use crate::prompts::{html_part_a, html_part_b, html_part_c, html_prompt};

verus! {

/// Where a read pass stands.
#[derive(Debug)]
pub enum PassState {
    /// Nothing has been looked at yet.
    Start,
    /// Content for the detail at this index was requested.
    Asking(usize),
    /// This HTML was handed over to be stored for the detail at this index.
    Saving(usize, String),
    /// Every detail has content.
    Finished,
    /// The pass ended with an error.
    Failed(TripError),
}

/// What the caller observed after performing the last action.
#[derive(Debug)]
pub enum PassEvent {
    Begin,
    /// The generation service answered with this text.
    Replied(String),
    /// The generation service failed.
    ServiceFailed(UpstreamKind),
    /// The HTML was stored.
    Saved,
    /// Storing the HTML failed.
    SaveFailed,
}

/// What the caller must do next.
#[derive(Debug)]
pub enum PassAction {
    /// Send this prompt to the generation service.
    Ask(String),
    /// Store this HTML as the content of the detail with this identity.
    Save(ObjectId, String),
    /// The pass is over; on success the details are ready to be shown.
    Finish(Result<(), TripError>),
    /// The event does not fit the pass's state; nothing to do.
    Ignore,
}

/// `b` is `a` with generated content: non-empty, clean HTML, and a new
/// update time.
pub open spec fn enriched_from(a: Detail, b: Detail) -> bool {
    &&& b == (Detail { html: b.html, updated_at: b.updated_at, ..a })
    &&& b.html@.len() > 0
    &&& is_clean(b.html@)
}

/// A detail the pass has gone past: enriched if it was pending, else untouched.
pub open spec fn settled(a: Detail, b: Detail) -> bool {
    if is_pending(a) {
        enriched_from(a, b)
    } else {
        b == a
    }
}

/// The prompt that asks for a pending detail's content.
pub open spec fn content_prompt(d: Detail) -> Seq<char> {
    html_part_a() + d.html@ + html_part_b() + d.language@ + html_part_c()
}

/// One pass over the details of a trip. `initial` is what was read.
pub struct ReadPass {
    pub details: Vec<Detail>,
    pub cursor: usize,
    pub state: PassState,
    pub initial: Ghost<Seq<Detail>>,
}

impl ReadPass {
    /// The pass's invariant: the details before the cursor are settled,
    /// the others are as they were read.
    pub open spec fn wf(&self) -> bool {
        let n = self.initial@.len();
        let c = self.cursor as int;
        &&& self.details@.len() == n
        &&& c <= n
        &&& forall|i: int| 0 <= i < c ==> settled(self.initial@[i], #[trigger] self.details@[i])
        &&& forall|i: int| c <= i < n ==> #[trigger] self.details@[i] == self.initial@[i]
        &&& match self.state {
            PassState::Start => c == 0,
            PassState::Asking(k) => k == c && c < n && is_pending(self.details@[c]),
            PassState::Saving(k, h) => k == c && c < n && is_pending(self.details@[c])
                && h@.len() > 0 && is_clean(h@),
            PassState::Finished => c == n,
            PassState::Failed(_) => c <= n,
        }
    }

    /// A pass over `details` that has not started.
    pub fn new(details: Vec<Detail>) -> (r: ReadPass)
        ensures
            r.wf(),
            r.details == details,
            r.initial@ == details@,
            r.state == PassState::Start,
    {
        ReadPass { details, cursor: 0, state: PassState::Start, initial: Ghost(details@) }
    }

    /// Moves the cursor to the next pending detail at or after `from`, or
    /// finishes when there is none.
    fn advance(&mut self, from: usize) -> (r: PassAction)
        requires
            from <= old(self).details@.len(),
            old(self).details@.len() == old(self).initial@.len(),
            forall|i: int|
                0 <= i < from ==> settled(old(self).initial@[i], #[trigger] old(self).details@[i]),
            forall|i: int|
                from <= i < old(self).initial@.len() ==> #[trigger] old(self).details@[i]
                    == old(self).initial@[i],
        ensures
            final(self).wf(),
            final(self).details == old(self).details,
            final(self).initial == old(self).initial,
            r matches PassAction::Ask(p) ==> final(self).state matches PassState::Asking(k) && p@
                == content_prompt(final(self).details@[k as int]),
            r matches PassAction::Finish(res) ==> res is Ok && final(self).state
                == PassState::Finished,
            r is Ask || r is Finish,
    {
        match next_pending(&self.details, from) {
            Some(k) => {
                proof {
                    assert forall|i: int| from <= i < k implies settled(
                        self.initial@[i],
                        #[trigger] self.details@[i],
                    ) by {
                        lemma_skipped_is_settled(self.details@, from as int, i);
                    }
                }
                self.cursor = k;
                self.state = PassState::Asking(k);
                let p = html_prompt(self.details[k].html.as_str(), self.details[k].language.as_str());
                PassAction::Ask(p)
            },
            None => {
                proof {
                    assert forall|i: int| from <= i < self.details@.len() implies settled(
                        self.initial@[i],
                        #[trigger] self.details@[i],
                    ) by {
                        lemma_skipped_is_settled(self.details@, from as int, i);
                    }
                }
                self.cursor = self.details.len();
                self.state = PassState::Finished;
                PassAction::Finish(Ok(()))
            },
        }
    }

    /// Takes the pass one step forward on `event`; `now` stamps content
    /// stored in this step.
    pub fn step(&mut self, event: PassEvent, now: i64) -> (r: PassAction)
        requires
            old(self).wf(),
        ensures
            final(self).wf(),
            final(self).initial == old(self).initial,
            r is Ignore ==> *final(self) == *old(self),
            (old(self).state is Start && event is Begin) || (old(self).state is Asking && (
            event is Replied || event is ServiceFailed)) || (old(self).state is Saving && (
            event is Saved || event is SaveFailed)) ==> !(r is Ignore),
            r matches PassAction::Ask(p) ==> final(self).state matches PassState::Asking(k) && p@
                == content_prompt(final(self).details@[k as int]),
            r matches PassAction::Save(id, h) ==> final(self).state matches PassState::Saving(k, h2)
                && h == h2 && id == final(self).details@[k as int].id && final(self).details
                == old(self).details,
            r matches PassAction::Finish(res) ==> match res {
                Ok(_) => final(self).state == PassState::Finished && forall|i: int|
                    0 <= i < final(self).details@.len() ==> !is_pending(
                        #[trigger] final(self).details@[i],
                    ),
                Err(e) => final(self).state == PassState::Failed(e) && final(self).details
                    == old(self).details && final(self).cursor == old(self).cursor,
            },
            event matches PassEvent::ServiceFailed(k) ==> (old(self).state is Asking ==> r
                == PassAction::Finish(Err(TripError::Upstream(k)))),
            event matches PassEvent::Replied(t) ==> (old(self).state is Asking ==> ((r is Save
                <==> cleaned(t@).len() > 0) && (r is Save || r == PassAction::Finish(
                Err(TripError::Upstream(UpstreamKind::Unknown)),
            )))),
            old(self).state is Saving && event is SaveFailed ==> r == PassAction::Finish(
                Err(TripError::Persistence),
            ),
            old(self).state matches PassState::Saving(k, h) ==> (event is Saved ==> final(self).details@[k as int]
                == (Detail { html: h, updated_at: now, ..old(self).details@[k as int] })),
    {
        match (&self.state, event) {
            (PassState::Start, PassEvent::Begin) => self.advance(0),
            (PassState::Asking(k), PassEvent::Replied(text)) => {
                let k = *k;
                match reply_to_html(text.as_str()) {
                    Ok(h) => {
                        proof {
                            crate::enrich::lemma_cleaned_is_clean(text@);
                        }
                        let id = self.details[k].id;
                        let saved = h.clone();
                        self.state = PassState::Saving(k, h);
                        PassAction::Save(id, saved)
                    },
                    Err(e) => {
                        self.state = PassState::Failed(e);
                        PassAction::Finish(Err(e))
                    },
                }
            },
            (PassState::Asking(_), PassEvent::ServiceFailed(kind)) => {
                self.state = PassState::Failed(TripError::Upstream(kind));
                PassAction::Finish(Err(TripError::Upstream(kind)))
            },
            (PassState::Saving(k, h), PassEvent::Saved) => {
                let k = *k;
                let n = self.details.len();
                assert(k < n);
                let html = h.clone();
                let old_d = self.details[k].clone();
                let d = Detail { html, updated_at: now, ..old_d };
                self.details.set(k, d);
                self.advance(k + 1)
            },
            (PassState::Saving(_, _), PassEvent::SaveFailed) => {
                self.state = PassState::Failed(TripError::Persistence);
                PassAction::Finish(Err(TripError::Persistence))
            },
            _ => PassAction::Ignore,
        }
    }
}

proof fn lemma_skipped_is_settled(ds: Seq<Detail>, from: int, i: int)
    requires
        0 <= from <= i < ds.len(),
        crate::enrich::first_pending(ds, from) is None || i < crate::enrich::first_pending(
            ds,
            from,
        )->0,
    ensures
        !is_pending(ds[i]),
    decreases i - from,
{
    if from < i {
        if is_pending(ds[from]) {
        } else {
            lemma_skipped_is_settled(ds, from + 1, i);
        }
    }
}

} // verus!

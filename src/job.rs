//! The enrichment of one detail as a sequence of steps. The caller performs
//! each action (a request to the generation service, a write to the
//! database) and reports what happened; the job decides what comes next.
use vstd::prelude::*;

use crate::enrich::{cleaned, reply_to_html};
use crate::error::{TripError, UpstreamKind};
use crate::prompts::{
    draft_part_a, draft_part_b, draft_part_c, draft_part_d, draft_prompt, html_part_a, html_part_b,
    html_part_c, html_prompt,
};

verus! {

/// Where an enrichment job stands.
#[derive(Debug)]
pub enum JobState {
    /// Nothing has been asked yet.
    Start,
    /// The draft was requested.
    Drafting,
    /// The HTML rewrite of the draft was requested.
    Polishing,
    /// The HTML was handed over to be stored.
    Saving(String),
    /// The HTML is stored.
    Done(String),
    /// The job ended with an error; nothing more happens.
    Failed(TripError),
}

/// What the caller observed after performing the last action.
#[derive(Debug)]
pub enum JobEvent {
    Begin,
    /// The generation service answered with this text.
    Replied(String),
    /// The generation service failed.
    ServiceFailed(UpstreamKind),
    /// The HTML was stored.
    Saved,
    /// Storing the HTML failed.
    SaveFailed,
}

/// What the caller must do next.
#[derive(Debug)]
pub enum JobAction {
    /// Send this prompt to the generation service.
    Ask(String),
    /// Store this HTML as the detail's content.
    Save(String),
    /// The job is over, with this result.
    Finish(Result<String, TripError>),
    /// The event does not fit the job's state; nothing to do.
    Ignore,
}

/// Enrichment of the detail titled `detail_title` of the trip `trip_title`,
/// written in `language`.
#[derive(Debug)]
pub struct EnrichJob {
    pub detail_title: String,
    pub trip_title: String,
    pub language: String,
    pub state: JobState,
}

/// What a step does: from the job before, the event, to the job's state and
/// the action after.
pub open spec fn step_post(before: EnrichJob, event: JobEvent, after: JobState, act: JobAction) -> bool {
    match (before.state, event) {
        (JobState::Start, JobEvent::Begin) => {
            &&& after is Drafting
            &&& act matches JobAction::Ask(p) && p@ == draft_part_a() + before.detail_title@
                + draft_part_b() + before.trip_title@ + draft_part_c() + before.language@
                + draft_part_d()
        },
        (JobState::Drafting, JobEvent::Replied(text)) => {
            &&& after is Polishing
            &&& act matches JobAction::Ask(p) && p@ == html_part_a() + text@ + html_part_b()
                + before.language@ + html_part_c()
        },
        (JobState::Polishing, JobEvent::Replied(text)) => if cleaned(text@).len() > 0 {
            &&& after matches JobState::Saving(h) && h@ == cleaned(text@)
            &&& act matches JobAction::Save(h) && h@ == cleaned(text@)
        } else {
            &&& after == JobState::Failed(TripError::Upstream(UpstreamKind::Unknown))
            &&& act == JobAction::Finish(Err(TripError::Upstream(UpstreamKind::Unknown)))
        },
        (JobState::Drafting, JobEvent::ServiceFailed(k)) | (
            JobState::Polishing,
            JobEvent::ServiceFailed(k),
        ) => {
            &&& after == JobState::Failed(TripError::Upstream(k))
            &&& act == JobAction::Finish(Err(TripError::Upstream(k)))
        },
        (JobState::Saving(h), JobEvent::Saved) => {
            &&& after == JobState::Done(h)
            &&& act == JobAction::Finish(Ok(h))
        },
        (JobState::Saving(_), JobEvent::SaveFailed) => {
            &&& after == JobState::Failed(TripError::Persistence)
            &&& act == JobAction::Finish(Err(TripError::Persistence))
        },
        (s, _) => after == s && act == JobAction::Ignore,
    }
}

impl EnrichJob {
    /// A job that has not started.
    pub fn new(detail_title: String, trip_title: String, language: String) -> (r: EnrichJob)
        ensures
            r == (EnrichJob { detail_title, trip_title, language, state: JobState::Start }),
    {
        EnrichJob { detail_title, trip_title, language, state: JobState::Start }
    }

    /// Takes the job one step forward on `event`.
    pub fn step(&mut self, event: JobEvent) -> (r: JobAction)
        ensures
            final(self).detail_title == old(self).detail_title,
            final(self).trip_title == old(self).trip_title,
            final(self).language == old(self).language,
            step_post(*old(self), event, final(self).state, r),
    {
        match (&self.state, event) {
            (JobState::Start, JobEvent::Begin) => {
                let p = draft_prompt(
                    self.detail_title.as_str(),
                    self.trip_title.as_str(),
                    self.language.as_str(),
                );
                self.state = JobState::Drafting;
                JobAction::Ask(p)
            },
            (JobState::Drafting, JobEvent::Replied(text)) => {
                let p = html_prompt(text.as_str(), self.language.as_str());
                self.state = JobState::Polishing;
                JobAction::Ask(p)
            },
            (JobState::Polishing, JobEvent::Replied(text)) => match reply_to_html(text.as_str()) {
                Ok(h) => {
                    let saved = h.clone();
                    self.state = JobState::Saving(h);
                    JobAction::Save(saved)
                },
                Err(e) => {
                    self.state = JobState::Failed(e);
                    JobAction::Finish(Err(e))
                },
            },
            (JobState::Drafting, JobEvent::ServiceFailed(k)) => {
                self.state = JobState::Failed(TripError::Upstream(k));
                JobAction::Finish(Err(TripError::Upstream(k)))
            },
            (JobState::Polishing, JobEvent::ServiceFailed(k)) => {
                self.state = JobState::Failed(TripError::Upstream(k));
                JobAction::Finish(Err(TripError::Upstream(k)))
            },
            (JobState::Saving(h), JobEvent::Saved) => {
                let out = h.clone();
                self.state = JobState::Done(h.clone());
                JobAction::Finish(Ok(out))
            },
            (JobState::Saving(_), JobEvent::SaveFailed) => {
                self.state = JobState::Failed(TripError::Persistence);
                JobAction::Finish(Err(TripError::Persistence))
            },
            _ => JobAction::Ignore,
        }
    }
}

/// `ev` is an outcome of performing `act`.
pub open spec fn answers(act: JobAction, ev: JobEvent) -> bool {
    match act {
        JobAction::Ask(_) => ev is Replied || ev is ServiceFailed,
        JobAction::Save(_) => ev is Saved || ev is SaveFailed,
        _ => false,
    }
}

/// A job that starts on `Begin` and is then always answered with an outcome
/// of its last action never ignores an event: the first step is not
/// ignored, and a step that answers the previous action is not either.
pub proof fn lemma_answered_steps_are_not_ignored(
    before: EnrichJob,
    first: JobEvent,
    mid: JobState,
    act: JobAction,
    next: JobEvent,
    after: JobState,
    act2: JobAction,
)
    requires
        step_post(before, first, mid, act),
        before.state is Start && first is Begin || answers(act, next) && step_post(
            EnrichJob { state: mid, ..before },
            next,
            after,
            act2,
        ),
    ensures
        before.state is Start && first is Begin ==> !(act is Ignore),
        answers(act, next) && step_post(EnrichJob { state: mid, ..before }, next, after, act2)
            ==> !(act2 is Ignore),
{
}

} // verus!

//! One fired timer's execution: failures are classified into recovery
//! actions, and a bounded retry loop decides what happens next.
//!
//! The loop itself (discovery, download, commit, the per-attempt timeout and
//! the pause between attempts) is driven by the caller; this module decides.
use vstd::prelude::*;

verus! {

/// How many retries one fired timer may spend.
pub const RETRY_BUDGET: u32 = 3;

/// The kind of failure of one attempt.
#[derive(Clone, Copy, Debug, PartialEq, Eq, Structural)]
pub enum FailureKind {
    /// The persistent store is unavailable or corrupt.
    Store,
    /// The media source is unreachable or gone.
    Discovery,
    /// The tenant may not set a banner at all.
    MissingFeature,
    /// The candidate is animated and the tenant may not set animated banners.
    MissingAnimatedFeature,
    /// No file extension could be derived from the candidate's URL.
    UndeterminedExtension,
    /// The candidate's body is empty.
    EmptyImage,
    /// The candidate is larger than the size cap.
    OversizeImage,
    /// The candidate's size was unknown and its download overran the cap.
    UnknownSizeOverflow,
    /// No candidate was left to pick.
    NoCandidateAvailable,
    /// The platform failed transiently (a gateway timeout).
    RemoteTransient,
    /// The platform refused the change.
    RemotePermission,
    /// The tenant or its channel no longer exists.
    RemoteNotFound,
    /// The attempt ran out of wall-clock time.
    AttemptTimeout,
    /// The image could not be encoded for upload.
    Encoding,
    /// Fetching the image failed on the way.
    Transport,
}

/// What to do after a failed attempt.
#[derive(Clone, Copy, Debug, PartialEq, Eq, Structural)]
pub enum ScheduleAction {
    /// Everything's fine, or not worth escalating.
    Continue,
    /// Try the same candidate again.
    RetrySameImage,
    /// Avoid this candidate and pick another.
    RetryNewImage,
    /// Stop the tenant's schedule.
    Abort,
}

/// The recovery action for each kind of failure.
pub open spec fn action_of(kind: FailureKind) -> ScheduleAction {
    match kind {
        FailureKind::Store => ScheduleAction::Continue,
        FailureKind::Discovery => ScheduleAction::Continue,
        FailureKind::Transport => ScheduleAction::Continue,
        FailureKind::MissingFeature => ScheduleAction::Abort,
        FailureKind::RemotePermission => ScheduleAction::Abort,
        FailureKind::RemoteNotFound => ScheduleAction::Abort,
        FailureKind::MissingAnimatedFeature => ScheduleAction::RetryNewImage,
        FailureKind::UndeterminedExtension => ScheduleAction::RetryNewImage,
        FailureKind::EmptyImage => ScheduleAction::RetryNewImage,
        FailureKind::OversizeImage => ScheduleAction::RetryNewImage,
        FailureKind::UnknownSizeOverflow => ScheduleAction::RetryNewImage,
        FailureKind::NoCandidateAvailable => ScheduleAction::RetryNewImage,
        FailureKind::Encoding => ScheduleAction::RetryNewImage,
        FailureKind::RemoteTransient => ScheduleAction::RetrySameImage,
        FailureKind::AttemptTimeout => ScheduleAction::RetrySameImage,
    }
}

/// Classifies a failure into the action that recovers from it.
pub fn evaluate_schedule_error(kind: FailureKind) -> (r: ScheduleAction)
    ensures
        r == action_of(kind),
{
    match kind {
        FailureKind::Store => ScheduleAction::Continue,
        FailureKind::Discovery => ScheduleAction::Continue,
        FailureKind::Transport => ScheduleAction::Continue,
        FailureKind::MissingFeature => ScheduleAction::Abort,
        FailureKind::RemotePermission => ScheduleAction::Abort,
        FailureKind::RemoteNotFound => ScheduleAction::Abort,
        FailureKind::MissingAnimatedFeature => ScheduleAction::RetryNewImage,
        FailureKind::UndeterminedExtension => ScheduleAction::RetryNewImage,
        FailureKind::EmptyImage => ScheduleAction::RetryNewImage,
        FailureKind::OversizeImage => ScheduleAction::RetryNewImage,
        FailureKind::UnknownSizeOverflow => ScheduleAction::RetryNewImage,
        FailureKind::NoCandidateAvailable => ScheduleAction::RetryNewImage,
        FailureKind::Encoding => ScheduleAction::RetryNewImage,
        FailureKind::RemoteTransient => ScheduleAction::RetrySameImage,
        FailureKind::AttemptTimeout => ScheduleAction::RetrySameImage,
    }
}

/// The kind of failure that a refused platform request stands for, by its
/// HTTP status: forbidden, not found and gateway timeout have kinds of their
/// own; any other status is `otherwise`.
pub open spec fn status_failure_spec(status: u16, otherwise: FailureKind) -> FailureKind {
    if status == 403 {
        FailureKind::RemotePermission
    } else if status == 404 {
        FailureKind::RemoteNotFound
    } else if status == 504 {
        FailureKind::RemoteTransient
    } else {
        otherwise
    }
}

/// Classifies a refused platform request by its HTTP status.
pub fn failure_of_status(status: u16, otherwise: FailureKind) -> (r: FailureKind)
    ensures
        r == status_failure_spec(status, otherwise),
{
    if status == 403 {
        FailureKind::RemotePermission
    } else if status == 404 {
        FailureKind::RemoteNotFound
    } else if status == 504 {
        FailureKind::RemoteTransient
    } else {
        otherwise
    }
}

/// What a [`MediaWithMessage`] holds.
pub struct CandidateView {
    pub media: Seq<char>,
    pub message_id: u64,
}

/// A candidate image: its URL and the message it was posted in.
#[derive(Clone, Debug)]
pub struct MediaWithMessage {
    pub media: String,
    pub message_id: u64,
}

impl View for MediaWithMessage {
    type V = CandidateView;

    open spec fn view(&self) -> CandidateView {
        CandidateView { media: self.media@, message_id: self.message_id }
    }
}

impl MediaWithMessage {
    /// The candidate `media` posted in message `message_id`.
    pub fn new(media: String, message_id: u64) -> (r: Self)
        ensures
            r@ == (CandidateView { media: media@, message_id }),
    {
        MediaWithMessage { media, message_id }
    }

    /// A copy of this candidate.
    pub fn duplicate(&self) -> (r: Self)
        ensures
            r@ == self@,
    {
        MediaWithMessage { media: self.media.clone(), message_id: self.message_id }
    }
}

/// The views of a sequence of candidates.
pub open spec fn candidates_view(s: Seq<MediaWithMessage>) -> Seq<CandidateView> {
    s.map_values(|c: MediaWithMessage| c@)
}

/// The candidates of `found`, in order, whose URL is not in `avoid`.
pub open spec fn selectable(avoid: Seq<Seq<char>>, found: Seq<CandidateView>) -> Seq<CandidateView>
    decreases found.len(),
{
    if found.len() == 0 {
        Seq::empty()
    } else {
        let rest = selectable(avoid, found.drop_last());
        if avoid.contains(found.last().media) {
            rest
        } else {
            rest.push(found.last())
        }
    }
}

/// What an [`AttemptState`] holds.
pub struct AttemptView {
    pub retries_remaining: nat,
    pub avoid_list: Seq<Seq<char>>,
    pub pinned: Option<CandidateView>,
}

/// The state of one fired timer's execution; never persisted.
pub struct AttemptState {
    retries_remaining: u32,
    avoid_list: Vec<String>,
    pinned: Option<MediaWithMessage>,
}

impl View for AttemptState {
    type V = AttemptView;

    closed spec fn view(&self) -> AttemptView {
        AttemptView {
            retries_remaining: self.retries_remaining as nat,
            avoid_list: self.avoid_list@.map_values(|s: String| s@),
            pinned: match self.pinned {
                Some(c) => Some(c@),
                None => None,
            },
        }
    }
}

/// What the execution does after an attempt.
#[derive(Clone, Copy, Debug, PartialEq, Eq, Structural)]
pub enum Decision {
    /// Record `last_run = now` and re-arm the timer for the next interval.
    Rearm,
    /// Pause briefly, then attempt again.
    Retry,
    /// Remove the tenant from the timers and the store, and tell its owner.
    Abort,
}

/// The state and decision that follow an attempt that used `picked` and
/// ended with `outcome`.
pub open spec fn record_spec(
    s: AttemptView,
    picked: Option<CandidateView>,
    outcome: Result<(), FailureKind>,
) -> (AttemptView, Decision) {
    match outcome {
        Ok(_) => (s, Decision::Rearm),
        Err(kind) => match action_of(kind) {
            ScheduleAction::Continue => (s, Decision::Rearm),
            ScheduleAction::Abort => (s, Decision::Abort),
            ScheduleAction::RetrySameImage => if s.retries_remaining == 0 {
                (s, Decision::Rearm)
            } else {
                (
                    AttemptView {
                        retries_remaining: (s.retries_remaining - 1) as nat,
                        pinned: picked,
                        ..s
                    },
                    Decision::Retry,
                )
            },
            ScheduleAction::RetryNewImage => if s.retries_remaining == 0 {
                (s, Decision::Rearm)
            } else {
                (
                    AttemptView {
                        retries_remaining: (s.retries_remaining - 1) as nat,
                        avoid_list: match picked {
                            Some(c) => s.avoid_list.push(c.media),
                            None => s.avoid_list,
                        },
                        pinned: None,
                    },
                    Decision::Retry,
                )
            },
        },
    }
}

/// Relies on `rand::random_range`, the draw that `rand`'s slice `choose`
/// makes: an index below `len`, from the thread-local generator.
#[verifier::external_body]
fn random_index(len: usize) -> (r: usize)
    requires
        len > 0,
    ensures
        r < len,
{
    rand::random_range(..len)
}

fn avoids(avoid_list: &Vec<String>, media: &String) -> (r: bool)
    ensures
        r == avoid_list@.map_values(|s: String| s@).contains(media@),
{
    let ghost avoid = avoid_list@.map_values(|s: String| s@);
    let mut i: usize = 0;
    while i < avoid_list.len()
        invariant
            i <= avoid_list.len(),
            avoid == avoid_list@.map_values(|s: String| s@),
            forall|j: int| 0 <= j < i ==> avoid[j] != media@,
        decreases avoid_list.len() - i,
    {
        if avoid_list[i] == *media {
            assert(avoid[i as int] == media@);
            return true;
        }
        i = i + 1;
    }
    proof {
        if avoid.contains(media@) {
            let j = choose|j: int| 0 <= j < avoid.len() && avoid[j] == media@;
            assert(false);
        }
    }
    false
}

impl AttemptState {
    /// A fresh execution: the full budget, nothing avoided, nothing pinned.
    pub fn new() -> (r: Self)
        ensures
            r@.retries_remaining == RETRY_BUDGET,
            r@.avoid_list.len() == 0,
            r@.pinned.is_none(),
    {
        let r = AttemptState { retries_remaining: RETRY_BUDGET, avoid_list: Vec::new(), pinned: None };
        assert(r@.avoid_list =~= Seq::<Seq<char>>::empty());
        r
    }

    /// How many retries are left.
    pub fn retries_remaining(&self) -> (r: u32)
        ensures
            r == self@.retries_remaining,
    {
        self.retries_remaining
    }

    /// How many candidates are avoided.
    pub fn avoided_count(&self) -> (r: usize)
        ensures
            r == self@.avoid_list.len(),
    {
        self.avoid_list.len()
    }

    /// Whether `media` is avoided.
    pub fn is_avoided(&self, media: &String) -> (r: bool)
        ensures
            r == self@.avoid_list.contains(media@),
    {
        avoids(&self.avoid_list, media)
    }

    /// The candidate that the next attempt must reuse, if any.
    pub fn pinned(&self) -> (r: Option<MediaWithMessage>)
        ensures
            match r {
                Some(c) => self@.pinned == Some(c@),
                None => self@.pinned.is_none(),
            },
    {
        match &self.pinned {
            Some(c) => Some(c.duplicate()),
            None => None,
        }
    }

    /// The candidates of `found`, in order, that are not avoided.
    pub fn selectable(&self, found: &Vec<MediaWithMessage>) -> (r: Vec<MediaWithMessage>)
        ensures
            candidates_view(r@) == selectable(self@.avoid_list, candidates_view(found@)),
    {
        let ghost avoid = self@.avoid_list;
        let mut out: Vec<MediaWithMessage> = Vec::new();
        let mut i: usize = 0;
        while i < found.len()
            invariant
                i <= found.len(),
                avoid == self@.avoid_list,
                candidates_view(out@) == selectable(avoid, candidates_view(found@).subrange(0, i as int)),
            decreases found.len() - i,
        {
            let ghost prefix = candidates_view(found@).subrange(0, i as int);
            let ghost next = candidates_view(found@).subrange(0, i + 1);
            assert(next.drop_last() =~= prefix);
            assert(next.last() == found@[i as int]@);
            if !avoids(&self.avoid_list, &found[i].media) {
                let ghost before = out@;
                out.push(found[i].duplicate());
                assert(candidates_view(out@) =~= candidates_view(before).push(found@[i as int]@));
            }
            i = i + 1;
        }
        assert(candidates_view(found@).subrange(0, found.len() as int) =~= candidates_view(found@));
        out
    }
}

/// Every candidate that [`selectable`] keeps comes from `found` and is not
/// avoided; and it keeps one whenever `found` holds one that is not avoided.
pub proof fn lemma_selectable(avoid: Seq<Seq<char>>, found: Seq<CandidateView>)
    ensures
        forall|k: int|
            0 <= k < selectable(avoid, found).len() ==> found.contains(
                #[trigger] selectable(avoid, found)[k],
            ) && !avoid.contains(selectable(avoid, found)[k].media),
        (exists|j: int| 0 <= j < found.len() && !avoid.contains(#[trigger] found[j].media))
            ==> selectable(avoid, found).len() > 0,
    decreases found.len(),
{
    if found.len() > 0 {
        let rest = found.drop_last();
        lemma_selectable(avoid, rest);
        let sel = selectable(avoid, found);
        assert forall|k: int| 0 <= k < sel.len() implies found.contains(#[trigger] sel[k])
            && !avoid.contains(sel[k].media) by {
            if k < selectable(avoid, rest).len() {
                let x = selectable(avoid, rest)[k];
                let j = choose|j: int| 0 <= j < rest.len() && rest[j] == x;
                assert(found[j] == x);
            } else {
                assert(sel[k] == found.last());
                assert(found[found.len() - 1] == found.last());
            }
        }
        if exists|j: int| 0 <= j < found.len() && !avoid.contains(#[trigger] found[j].media) {
            let j = choose|j: int| 0 <= j < found.len() && !avoid.contains(#[trigger] found[j].media);
            if j < found.len() - 1 {
                assert(rest[j] == found[j]);
            }
        }
    }
}

/// The state after the attempts of `runs` (each: the candidate used and the
/// outcome), recorded in order.
pub open spec fn state_after(
    s: AttemptView,
    runs: Seq<(Option<CandidateView>, Result<(), FailureKind>)>,
) -> AttemptView
    decreases runs.len(),
{
    if runs.len() == 0 {
        s
    } else {
        state_after(record_spec(s, runs[0].0, runs[0].1).0, runs.drop_first())
    }
}

/// How many attempts of `runs` an execution makes: it stops at the first
/// attempt whose decision is not a retry.
pub open spec fn attempts_used(
    s: AttemptView,
    runs: Seq<(Option<CandidateView>, Result<(), FailureKind>)>,
) -> nat
    decreases runs.len(),
{
    if runs.len() == 0 {
        0
    } else {
        let (next, decision) = record_spec(s, runs[0].0, runs[0].1);
        if decision == Decision::Retry {
            1 + attempts_used(next, runs.drop_first())
        } else {
            1
        }
    }
}

/// Recording an attempt never raises the retry budget and never shrinks the
/// avoid-list; a retry spends exactly one unit of the budget.
pub proof fn lemma_retry_budget_monotone(
    s: AttemptView,
    picked: Option<CandidateView>,
    outcome: Result<(), FailureKind>,
)
    ensures
        record_spec(s, picked, outcome).0.retries_remaining <= s.retries_remaining,
        record_spec(s, picked, outcome).1 == Decision::Retry ==> record_spec(
            s,
            picked,
            outcome,
        ).0.retries_remaining + 1 == s.retries_remaining,
        s.avoid_list.is_prefix_of(record_spec(s, picked, outcome).0.avoid_list),
{
    let next = record_spec(s, picked, outcome).0;
    assert(s.avoid_list =~= next.avoid_list.subrange(0, s.avoid_list.len() as int));
}

/// One fired timer's execution ends within `retries_remaining + 1` attempts,
/// whatever the attempts' outcomes.
pub proof fn lemma_attempts_bounded(
    s: AttemptView,
    runs: Seq<(Option<CandidateView>, Result<(), FailureKind>)>,
)
    ensures
        attempts_used(s, runs) <= s.retries_remaining + 1,
    decreases runs.len(),
{
    if runs.len() > 0 {
        let (next, decision) = record_spec(s, runs[0].0, runs[0].1);
        lemma_retry_budget_monotone(s, runs[0].0, runs[0].1);
        if decision == Decision::Retry {
            lemma_attempts_bounded(next, runs.drop_first());
        }
    }
}

proof fn lemma_state_after_keeps_avoided(
    s: AttemptView,
    runs: Seq<(Option<CandidateView>, Result<(), FailureKind>)>,
    media: Seq<char>,
)
    requires
        s.avoid_list.contains(media),
    ensures
        state_after(s, runs).avoid_list.contains(media),
    decreases runs.len(),
{
    if runs.len() > 0 {
        let next = record_spec(s, runs[0].0, runs[0].1).0;
        lemma_retry_budget_monotone(s, runs[0].0, runs[0].1);
        let j = choose|j: int| 0 <= j < s.avoid_list.len() && s.avoid_list[j] == media;
        assert(next.avoid_list[j] == media);
        lemma_state_after_keeps_avoided(next, runs.drop_first(), media);
    }
}

/// Once a candidate is avoided after a candidate-specific failure, no later
/// selection of the same execution offers it, while every other candidate
/// that is not avoided stays on offer.
pub proof fn lemma_avoid_list_exclusive(
    s: AttemptView,
    failed: CandidateView,
    kind: FailureKind,
    runs: Seq<(Option<CandidateView>, Result<(), FailureKind>)>,
    found: Seq<CandidateView>,
)
    requires
        action_of(kind) == ScheduleAction::RetryNewImage,
        s.retries_remaining > 0,
    ensures
        ({
            let t = state_after(record_spec(s, Some(failed), Err(kind)).0, runs);
            &&& t.avoid_list.contains(failed.media)
            &&& forall|k: int|
                0 <= k < selectable(t.avoid_list, found).len() ==> (#[trigger] selectable(
                    t.avoid_list,
                    found,
                )[k]).media != failed.media
            &&& (exists|j: int| 0 <= j < found.len() && !t.avoid_list.contains(#[trigger] found[j].media))
                ==> selectable(t.avoid_list, found).len() > 0
        }),
{
    let s1 = record_spec(s, Some(failed), Err(kind)).0;
    assert(s1.avoid_list[s1.avoid_list.len() - 1] == failed.media);
    lemma_state_after_keeps_avoided(s1, runs, failed.media);
    let t = state_after(s1, runs);
    lemma_selectable(t.avoid_list, found);
}

impl AttemptState {
    /// Picks the candidate for the next attempt: the pinned one if any, else
    /// one drawn uniformly from the candidates of `found` that are not
    /// avoided (`None` when there is none).
    pub fn select_candidate(&self, found: &Vec<MediaWithMessage>) -> (r: Option<MediaWithMessage>)
        ensures
            match self@.pinned {
                Some(p) => r is Some && r->0@ == p,
                None => match r {
                    Some(c) => selectable(self@.avoid_list, candidates_view(found@)).contains(c@),
                    None => selectable(self@.avoid_list, candidates_view(found@)).len() == 0,
                },
            },
    {
        if let Some(p) = &self.pinned {
            return Some(p.duplicate());
        }
        let offered = self.selectable(found);
        if offered.len() == 0 {
            return None;
        }
        let i = random_index(offered.len());
        let c = offered[i].duplicate();
        assert(candidates_view(offered@)[i as int] == c@);
        Some(c)
    }

    /// Records the attempt that used `picked` and ended with `outcome`, and
    /// decides what follows.
    pub fn record(&mut self, picked: Option<MediaWithMessage>, outcome: Result<(), FailureKind>) -> (r:
        Decision)
        ensures
            (final(self)@, r) == record_spec(
                old(self)@,
                match picked {
                    Some(c) => Some(c@),
                    None => None,
                },
                outcome,
            ),
    {
        let kind = match outcome {
            Ok(_) => {
                return Decision::Rearm;
            },
            Err(kind) => kind,
        };
        match evaluate_schedule_error(kind) {
            ScheduleAction::Continue => Decision::Rearm,
            ScheduleAction::Abort => Decision::Abort,
            ScheduleAction::RetrySameImage => {
                if self.retries_remaining == 0 {
                    return Decision::Rearm;
                }
                self.retries_remaining = self.retries_remaining - 1;
                self.pinned = picked;
                Decision::Retry
            },
            ScheduleAction::RetryNewImage => {
                if self.retries_remaining == 0 {
                    return Decision::Rearm;
                }
                self.retries_remaining = self.retries_remaining - 1;
                if let Some(c) = picked {
                    let ghost before = self.avoid_list@;
                    let ghost media = c.media@;
                    self.avoid_list.push(c.media);
                    assert(self.avoid_list@.map_values(|s: String| s@) =~= before.map_values(
                        |s: String| s@,
                    ).push(media));
                }
                self.pinned = None;
                Decision::Retry
            },
        }
    }
}

} // verus!

//! Bringing the releases up to date with the recommendations, step by step.
//!
//! The releases that are kept are first cut down to those that are still
//! recommended. Then the recommendations are gone through in order: one
//! whose release is there marks it, one whose release is missing has it
//! fetched. Fetching is not done here: the state says what to fetch, and
//! is told how it went. A fetch that fails ends the run, and what is there
//! by then is kept.

use crate::page::music::{
    holds, is_recommended, marked, marked_keeps_identifiers, next_missing, reconcile, reconciled,
    relation, release_of, released, retain_recommended, retained, sort_by_title, Fetched,
    FetchedView, Order, Recommendation, RecommendationView, Release, ReleaseView,
};
use vstd::prelude::*;

verus! {

/// How a fetch went.
#[derive(Debug)]
pub enum Outcome {
    /// What was fetched for the release group, and where its picture is.
    Fetched { fetched: Fetched, artwork: Option<String> },
    /// The fetch failed for good.
    Failed,
}

/// How a fetch went, as plain values.
pub ghost enum OutcomeView {
    Fetched { fetched: FetchedView, artwork: Option<Seq<char>> },
    Failed,
}

impl View for Outcome {
    type V = OutcomeView;

    open spec fn view(&self) -> OutcomeView {
        match self {
            Outcome::Fetched { fetched, artwork } => OutcomeView::Fetched {
                fetched: fetched@,
                artwork: artwork.deep_view(),
            },
            Outcome::Failed => OutcomeView::Failed,
        }
    }
}

/// The state of a run.
pub struct Sync {
    recs: Vec<Recommendation>,
    releases: Vec<Release>,
    next: usize,
    failed: bool,
}

/// The state of a run, as plain values.
pub ghost struct SyncView {
    pub recs: Seq<RecommendationView>,
    pub releases: Seq<ReleaseView>,
    /// The place of the recommendation to fetch next; the number of
    /// recommendations when all are done.
    pub next: int,
    /// Whether a fetch has failed.
    pub failed: bool,
}

impl View for Sync {
    type V = SyncView;

    closed spec fn view(&self) -> SyncView {
        SyncView {
            recs: self.recs.deep_view(),
            releases: self.releases.deep_view(),
            next: self.next as int,
            failed: self.failed,
        }
    }
}

/// The state at the start of a run, from the releases that were kept.
pub open spec fn started(cached: Seq<ReleaseView>, recs: Seq<RecommendationView>) -> SyncView {
    let kept = retained(cached, recs);
    SyncView {
        recs,
        releases: reconciled(kept, recs, 0),
        next: next_missing(kept, recs, 0),
        failed: false,
    }
}

/// The place of the recommendation to fetch, if the run goes on.
pub open spec fn pending(state: SyncView) -> Option<int> {
    if !state.failed && 0 <= state.next < state.recs.len() {
        Some(state.next)
    } else {
        None
    }
}

/// The state after a fetch. A failure ends the run. What was fetched
/// becomes the release of the pending recommendation, behind the others,
/// and the recommendations after it mark their releases up to the next
/// one to fetch. A state with nothing pending stays as it is.
pub open spec fn stepped(state: SyncView, outcome: OutcomeView) -> SyncView {
    match pending(state) {
        None => state,
        Some(at) => match outcome {
            OutcomeView::Failed => SyncView { failed: true, ..state },
            OutcomeView::Fetched { fetched, artwork } => {
                let more = state.releases.push(released(state.recs[at], fetched, artwork));
                SyncView {
                    releases: reconciled(more, state.recs, at + 1),
                    next: next_missing(more, state.recs, at + 1),
                    ..state
                }
            },
        },
    }
}

/// The state after a row of fetches.
pub open spec fn run(state: SyncView, outcomes: Seq<OutcomeView>) -> SyncView
    decreases outcomes.len(),
{
    if outcomes.len() == 0 {
        state
    } else {
        stepped(run(state, outcomes.drop_last()), outcomes.last())
    }
}

/// What holds of every state of a run: every recommendation before the
/// pending one has its release, the pending one has none, and every
/// release is recommended.
pub open spec fn consistent(state: SyncView) -> bool {
    &&& 0 <= state.next <= state.recs.len()
    &&& forall|i: int| 0 <= i < state.next ==> holds(state.releases, (#[trigger] state.recs[i]).release)
    &&& state.next < state.recs.len() ==> !holds(state.releases, state.recs[state.next].release)
    &&& forall|j: int|
        0 <= j < state.releases.len() ==> is_recommended(
            state.recs,
            (#[trigger] state.releases[j]).rgid,
        )
}

/// Whether no two of the releases are the same release group.
pub open spec fn distinct(releases: Seq<ReleaseView>) -> bool {
    forall|i: int, j: int|
        0 <= i < j < releases.len() ==> (#[trigger] releases[i]).rgid != (#[trigger] releases[j]).rgid
}

/// Whether a recommendation is the last one before `upto` that names a
/// release group.
pub open spec fn is_last_naming(
    recs: Seq<RecommendationView>,
    upto: int,
    i: int,
    rgid: Seq<char>,
) -> bool {
    &&& 0 <= i < upto
    &&& recs[i].release == rgid
    &&& forall|k: int| i < k < upto ==> (#[trigger] recs[k]).release != rgid
}

/// Whether every release is marked as the last recommendation before
/// `upto` that names it says, if there is one.
pub open spec fn flagged(releases: Seq<ReleaseView>, recs: Seq<RecommendationView>, upto: int) -> bool {
    forall|j: int, i: int|
        0 <= j < releases.len() && is_last_naming(recs, upto, i, (#[trigger] releases[j]).rgid)
            ==> releases[j].highly == (#[trigger] recs[i]).highly
}

/// Among releases of which no two are the same release group, marking
/// changes the one that the recommendation names, and only its mark.
pub proof fn marked_among_distinct(releases: Seq<ReleaseView>, rec: RecommendationView)
    requires
        distinct(releases),
    ensures
        marked(releases, rec).len() == releases.len(),
        forall|j: int|
            0 <= j < releases.len() ==> #[trigger] marked(releases, rec)[j] == if releases[j].rgid
                == rec.release {
                ReleaseView { highly: rec.highly, ..releases[j] }
            } else {
                releases[j]
            },
    decreases releases.len(),
{
    let out = marked(releases, rec);
    if releases.len() > 0 {
        if releases.first().rgid == rec.release {
            assert forall|j: int| 0 <= j < releases.len() implies #[trigger] out[j] == if releases[j].rgid
                == rec.release {
                ReleaseView { highly: rec.highly, ..releases[j] }
            } else {
                releases[j]
            } by {
                if j > 0 {
                    assert(releases[0].rgid != releases[j].rgid);
                }
            }
        } else {
            let rest = releases.drop_first();
            assert(distinct(rest)) by {
                assert forall|i: int, j: int| 0 <= i < j < rest.len() implies (#[trigger] rest[i]).rgid
                    != (#[trigger] rest[j]).rgid by {
                    assert(rest[i] == releases[i + 1] && rest[j] == releases[j + 1]);
                }
            }
            marked_among_distinct(rest, rec);
            assert forall|j: int| 0 <= j < releases.len() implies #[trigger] out[j] == if releases[j].rgid
                == rec.release {
                ReleaseView { highly: rec.highly, ..releases[j] }
            } else {
                releases[j]
            } by {
                if j > 0 {
                    assert(out[j] == marked(rest, rec)[j - 1]);
                    assert(rest[j - 1] == releases[j]);
                }
            }
        }
    }
}

/// Marking by one more recommendation keeps every release marked as the
/// last recommendation that names it says.
pub proof fn marked_is_flagged(releases: Seq<ReleaseView>, recs: Seq<RecommendationView>, at: int)
    requires
        0 <= at < recs.len(),
        distinct(releases),
        flagged(releases, recs, at),
    ensures
        distinct(marked(releases, recs[at])),
        flagged(marked(releases, recs[at]), recs, at + 1),
{
    let out = marked(releases, recs[at]);
    marked_among_distinct(releases, recs[at]);
    assert forall|i: int, j: int| 0 <= i < j < out.len() implies (#[trigger] out[i]).rgid != (
    #[trigger] out[j]).rgid by {
        assert(out[i].rgid == releases[i].rgid && out[j].rgid == releases[j].rgid);
    }
    assert forall|j: int, i: int|
        0 <= j < out.len() && is_last_naming(recs, at + 1, i, (#[trigger] out[j]).rgid) implies out[j].highly
        == (#[trigger] recs[i]).highly by {
        if releases[j].rgid == recs[at].release {
            if i < at {
                assert(recs[at].release != out[j].rgid);
            }
        } else {
            assert(is_last_naming(recs, at, i, releases[j].rgid));
        }
    }
}

/// Marking by the recommendations from `from` up to the next one to fetch
/// keeps every release marked as the last recommendation that names it
/// says.
pub proof fn reconciled_is_flagged(releases: Seq<ReleaseView>, recs: Seq<RecommendationView>, from: int)
    requires
        0 <= from <= recs.len(),
        distinct(releases),
        flagged(releases, recs, from),
    ensures
        distinct(reconciled(releases, recs, from)),
        flagged(reconciled(releases, recs, from), recs, next_missing(releases, recs, from)),
    decreases recs.len() - from,
{
    if from < recs.len() && holds(releases, recs[from].release) {
        marked_is_flagged(releases, recs, from);
        reconciled_is_flagged(marked(releases, recs[from]), recs, from + 1);
    }
}

/// Marking the releases of the recommendations from `from` on changes no
/// release group and stops at the first recommendation that has none.
pub proof fn reconciled_reaches(releases: Seq<ReleaseView>, recs: Seq<RecommendationView>, from: int)
    requires
        0 <= from <= recs.len(),
    ensures
        from <= next_missing(releases, recs, from) <= recs.len(),
        reconciled(releases, recs, from).len() == releases.len(),
        forall|j: int|
            0 <= j < releases.len() ==> (#[trigger] reconciled(releases, recs, from)[j]).rgid
                == releases[j].rgid,
        forall|rgid: Seq<char>|
            holds(reconciled(releases, recs, from), rgid) == holds(releases, rgid),
        forall|i: int|
            from <= i < next_missing(releases, recs, from) ==> holds(
                releases,
                (#[trigger] recs[i]).release,
            ),
        next_missing(releases, recs, from) < recs.len() ==> !holds(
            releases,
            recs[next_missing(releases, recs, from)].release,
        ),
    decreases recs.len() - from,
{
    let out = reconciled(releases, recs, from);
    if from < recs.len() && holds(releases, recs[from].release) {
        let once = marked(releases, recs[from]);
        marked_keeps_identifiers(releases, recs[from]);
        reconciled_reaches(once, recs, from + 1);
        assert forall|j: int| 0 <= j < releases.len() implies (#[trigger] out[j]).rgid
            == releases[j].rgid by {
            assert(once[j].rgid == releases[j].rgid);
        }
        assert forall|i: int| from <= i < next_missing(releases, recs, from) implies holds(
            releases,
            (#[trigger] recs[i]).release,
        ) by {
            if i > from {
                assert(holds(once, recs[i].release));
            }
        }
    }
    assert forall|rgid: Seq<char>| holds(out, rgid) == holds(releases, rgid) by {
        if holds(out, rgid) {
            let j = choose|j: int| 0 <= j < out.len() && (#[trigger] out[j]).rgid == rgid;
            assert(releases[j].rgid == rgid);
        }
        if holds(releases, rgid) {
            let j = choose|j: int| 0 <= j < releases.len() && (#[trigger] releases[j]).rgid == rgid;
            assert(out[j].rgid == rgid);
        }
    }
}

/// What is kept of the old releases is recommended, and no release that
/// is recommended is lost.
pub proof fn retained_is_recommended(cached: Seq<ReleaseView>, recs: Seq<RecommendationView>)
    ensures
        forall|j: int|
            0 <= j < retained(cached, recs).len() ==> is_recommended(
                recs,
                (#[trigger] retained(cached, recs)[j]).rgid,
            ),
        forall|k: int|
            0 <= k < cached.len() && is_recommended(recs, (#[trigger] cached[k]).rgid)
                ==> retained(cached, recs).contains(cached[k]),
        forall|rgid: Seq<char>|
            is_recommended(recs, rgid) ==> holds(retained(cached, recs), rgid) == holds(
                cached,
                rgid,
            ),
        distinct(cached) ==> distinct(retained(cached, recs)),
        forall|j: int|
            0 <= j < retained(cached, recs).len() ==> cached.contains(
                #[trigger] retained(cached, recs)[j],
            ),
    decreases cached.len(),
{
    if cached.len() > 0 {
        let front = cached.drop_last();
        retained_is_recommended(front, recs);
        let kept = retained(front, recs);
        let out = retained(cached, recs);
        assert forall|k: int|
            0 <= k < cached.len() && is_recommended(recs, (#[trigger] cached[k]).rgid) implies out.contains(
            cached[k],
        ) by {
            if k < front.len() {
                assert(front[k] == cached[k]);
                let j = choose|j: int| 0 <= j < kept.len() && kept[j] == front[k];
                assert(out[j] == cached[k]);
            } else {
                assert(out[out.len() - 1] == cached[k]);
            }
        }
        assert forall|j: int| 0 <= j < out.len() implies cached.contains(#[trigger] out[j]) by {
            if j < kept.len() {
                assert(out[j] == kept[j]);
                let k = choose|k: int| 0 <= k < front.len() && front[k] == kept[j];
                assert(cached[k] == kept[j]);
            } else {
                assert(cached[cached.len() - 1] == out[j]);
            }
        }
        if distinct(cached) {
            assert(distinct(front)) by {
                assert forall|i: int, j: int| 0 <= i < j < front.len() implies (#[trigger] front[i]).rgid
                    != (#[trigger] front[j]).rgid by {
                    assert(front[i] == cached[i] && front[j] == cached[j]);
                }
            }
            assert forall|i: int, j: int| 0 <= i < j < out.len() implies (#[trigger] out[i]).rgid != (
            #[trigger] out[j]).rgid by {
                if j < kept.len() {
                    assert(out[i] == kept[i] && out[j] == kept[j]);
                } else {
                    assert(out[i] == kept[i]);
                    let k = choose|k: int| 0 <= k < front.len() && front[k] == kept[i];
                    assert(cached[k] == kept[i]);
                    assert(cached[cached.len() - 1] == out[j]);
                }
            }
        }
    }
}

/// Where every recommendation has its release among those that were kept,
/// there is nothing to fetch: the run starts with nothing pending.
pub proof fn nothing_pending_when_all_is_kept(cached: Seq<ReleaseView>, recs: Seq<RecommendationView>)
    requires
        forall|i: int| 0 <= i < recs.len() ==> holds(cached, (#[trigger] recs[i]).release),
    ensures
        pending(started(cached, recs)) is None,
        started(cached, recs).next == recs.len(),
{
    let kept = retained(cached, recs);
    retained_is_recommended(cached, recs);
    reconciled_reaches(kept, recs, 0);
    let next = next_missing(kept, recs, 0);
    if next < recs.len() {
        assert(is_recommended(recs, recs[next].release));
        assert(holds(cached, recs[next].release));
    }
}

/// A run starts in a state of which the rule of every state holds.
pub proof fn started_is_consistent(cached: Seq<ReleaseView>, recs: Seq<RecommendationView>)
    ensures
        consistent(started(cached, recs)),
        distinct(cached) ==> distinct(started(cached, recs).releases) && flagged(
            started(cached, recs).releases,
            recs,
            started(cached, recs).next,
        ),
{
    if distinct(cached) {
        retained_is_recommended(cached, recs);
        reconciled_is_flagged(retained(cached, recs), recs, 0);
    }
    let kept = retained(cached, recs);
    retained_is_recommended(cached, recs);
    reconciled_reaches(kept, recs, 0);
    let state = started(cached, recs);
    assert forall|j: int| 0 <= j < state.releases.len() implies is_recommended(
        recs,
        (#[trigger] state.releases[j]).rgid,
    ) by {
        assert(state.releases[j].rgid == kept[j].rgid);
    }
    if distinct(cached) {
        assert forall|i: int, j: int| 0 <= i < j < state.releases.len() implies (
        #[trigger] state.releases[i]).rgid != (#[trigger] state.releases[j]).rgid by {
            assert(state.releases[i].rgid == kept[i].rgid);
            assert(state.releases[j].rgid == kept[j].rgid);
        }
    }
}

/// A fetch leaves the rule of every state in force, brings in no release
/// group twice, and leaves every release marked as the last recommendation
/// that names it says.
pub proof fn stepped_is_consistent(state: SyncView, outcome: OutcomeView)
    requires
        consistent(state),
    ensures
        consistent(stepped(state, outcome)),
        distinct(state.releases) ==> distinct(stepped(state, outcome).releases),
        distinct(state.releases) && flagged(state.releases, state.recs, state.next) ==> flagged(
            stepped(state, outcome).releases,
            state.recs,
            stepped(state, outcome).next,
        ),
{
    if let Some(at) = pending(state) {
        if let OutcomeView::Fetched { fetched, artwork } = outcome {
            let recs = state.recs;
            let new = released(recs[at], fetched, artwork);
            let more = state.releases.push(new);
            let after = stepped(state, outcome);
            reconciled_reaches(more, recs, at + 1);
            assert(more[more.len() - 1].rgid == recs[at].release);
            assert(holds(more, recs[at].release));
            assert forall|i: int| 0 <= i < after.next implies holds(
                after.releases,
                (#[trigger] recs[i]).release,
            ) by {
                if i < at {
                    let k = choose|k: int|
                        0 <= k < state.releases.len() && (#[trigger] state.releases[k]).rgid
                            == recs[i].release;
                    assert(more[k].rgid == recs[i].release);
                    assert(holds(more, recs[i].release));
                }
            }
            assert forall|j: int| 0 <= j < after.releases.len() implies is_recommended(
                recs,
                (#[trigger] after.releases[j]).rgid,
            ) by {
                assert(after.releases[j].rgid == more[j].rgid);
                if j < state.releases.len() {
                    assert(more[j] == state.releases[j]);
                } else {
                    assert(recs[at].release == more[j].rgid);
                }
            }
            if distinct(state.releases) {
                assert(distinct(more)) by {
                    assert forall|i: int, j: int| 0 <= i < j < more.len() implies (#[trigger] more[i]).rgid
                        != (#[trigger] more[j]).rgid by {
                        assert(more[i] == state.releases[i]);
                        if j < state.releases.len() {
                            assert(more[j] == state.releases[j]);
                        }
                    }
                }
                assert forall|i: int, j: int| 0 <= i < j < after.releases.len() implies (
                #[trigger] after.releases[i]).rgid != (#[trigger] after.releases[j]).rgid by {
                    assert(after.releases[i].rgid == more[i].rgid);
                    assert(after.releases[j].rgid == more[j].rgid);
                }
                if flagged(state.releases, recs, at) {
                    assert(flagged(more, recs, at + 1)) by {
                        assert forall|j: int, i: int|
                            0 <= j < more.len() && is_last_naming(
                                recs,
                                at + 1,
                                i,
                                (#[trigger] more[j]).rgid,
                            ) implies more[j].highly == (#[trigger] recs[i]).highly by {
                            if j < state.releases.len() {
                                assert(more[j] == state.releases[j]);
                                assert(state.releases[j].rgid != recs[at].release);
                                assert(is_last_naming(recs, at, i, state.releases[j].rgid));
                            } else {
                                if i < at {
                                    assert(recs[at].release != more[j].rgid);
                                }
                            }
                        }
                    }
                    reconciled_is_flagged(more, recs, at + 1);
                }
            }
        }
    }
}

/// The rule of every state holds all through a run.
pub proof fn run_is_consistent(
    cached: Seq<ReleaseView>,
    recs: Seq<RecommendationView>,
    outcomes: Seq<OutcomeView>,
)
    ensures
        consistent(run(started(cached, recs), outcomes)),
        run(started(cached, recs), outcomes).recs == recs,
        distinct(cached) ==> distinct(run(started(cached, recs), outcomes).releases) && flagged(
            run(started(cached, recs), outcomes).releases,
            recs,
            run(started(cached, recs), outcomes).next,
        ),
    decreases outcomes.len(),
{
    if outcomes.len() == 0 {
        started_is_consistent(cached, recs);
    } else {
        run_is_consistent(cached, recs, outcomes.drop_last());
        stepped_is_consistent(run(started(cached, recs), outcomes.drop_last()), outcomes.last());
    }
}

/// After a run that came to its end without a failure, the releases are
/// those that are recommended: every recommendation has its release and
/// every release is recommended. Where the releases that were kept held no
/// release group twice, neither do these, and each is marked as the last
/// recommendation that names it says.
pub proof fn full_run_holds_what_is_recommended(
    cached: Seq<ReleaseView>,
    recs: Seq<RecommendationView>,
    outcomes: Seq<OutcomeView>,
)
    requires
        pending(run(started(cached, recs), outcomes)) is None,
        !run(started(cached, recs), outcomes).failed,
    ensures
        forall|i: int|
            0 <= i < recs.len() ==> holds(
                run(started(cached, recs), outcomes).releases,
                (#[trigger] recs[i]).release,
            ),
        forall|j: int|
            0 <= j < run(started(cached, recs), outcomes).releases.len() ==> is_recommended(
                recs,
                (#[trigger] run(started(cached, recs), outcomes).releases[j]).rgid,
            ),
        distinct(cached) ==> distinct(run(started(cached, recs), outcomes).releases) && flagged(
            run(started(cached, recs), outcomes).releases,
            recs,
            recs.len() as int,
        ),
{
    run_is_consistent(cached, recs, outcomes);
}

impl Sync {
    /// Starts a run: drops the releases that are no longer recommended and
    /// marks those of the recommendations up to the first one to fetch.
    pub fn start(cached: Vec<Release>, recs: Vec<Recommendation>) -> (sync: Sync)
        ensures
            sync@ == started(cached.deep_view(), recs.deep_view()),
    {
        let mut releases = retain_recommended(cached, &recs);
        let next = reconcile(&mut releases, &recs, 0);
        Sync { recs, releases, next, failed: false }
    }

    /// The recommendation whose release is to be fetched next, if the run
    /// goes on.
    pub fn pending(&self) -> (rec: Option<&Recommendation>)
        ensures
            rec.deep_view() == match pending(self@) {
                Some(at) => Some(self@.recs[at]),
                None => None,
            },
    {
        if !self.failed && self.next < self.recs.len() {
            assert(self.recs.deep_view()[self.next as int] == self.recs[self.next as int]@);
            Some(&self.recs[self.next])
        } else {
            None
        }
    }

    /// Whether a fetch has failed.
    pub fn failed(&self) -> (failed: bool)
        ensures
            failed == self@.failed,
    {
        self.failed
    }

    /// Takes in how the fetch for the pending recommendation went.
    pub fn step(&mut self, outcome: Outcome)
        ensures
            final(self)@ == stepped(old(self)@, outcome@),
    {
        if self.failed || self.next >= self.recs.len() {
            return ;
        }
        match outcome {
            Outcome::Failed => {
                self.failed = true;
            },
            Outcome::Fetched { fetched, artwork } => {
                let ghost before = self.releases.deep_view();
                assert(self.recs.deep_view()[self.next as int] == self.recs[self.next as int]@);
                let release = release_of(&self.recs[self.next], fetched, artwork);
                self.releases.push(release);
                assert(self.releases.deep_view() =~= before.push(release@));
                let from = self.next + 1;
                let next = reconcile(&mut self.releases, &self.recs, from);
                self.next = next;
            },
        }
    }

    /// Ends the run: the releases by title, as they are kept, and whether
    /// a fetch has failed.
    pub fn finish(self) -> (end: (Vec<Release>, bool))
        ensures
            end.0.deep_view() == crate::order::sorted(self@.releases, relation(Order::Title)),
            end.1 == self@.failed,
    {
        (sort_by_title(self.releases), self.failed)
    }
}

} // verus!

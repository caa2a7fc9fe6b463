//! Desktop notifications: what one says, and which runs are due for one.

use vstd::prelude::*;
use vstd::string::*;
use std::collections::HashMap;

use crate::github::types;
use crate::github::types::{Conclusion, RunStatus, WorkflowRun};
use crate::settings::NotifyOn;
use crate::text;
use crate::time::Timestamp;

verus! {

/// The app-scoped action a notification click activates; its string target is
/// the run's `html_url`. It must be app-scoped, because the desktop activates
/// it on the application, which may be reached while the window is in the
/// background.
pub const OPEN_RUN_ACTION: &'static str = "app.open-run";

/// How urgent a notification is.
#[derive(Debug, Clone, Copy, PartialEq, Eq, Structural)]
pub enum Priority {
    Normal,
    High,
}

/// A desktop notification to raise.
#[derive(Debug)]
pub struct Notification {
    /// A stable per-run id, so re-notifying a run replaces its banner.
    pub id: String,
    pub title: String,
    pub body: String,
    pub priority: Priority,
    /// The action that a click activates.
    pub action: String,
    /// The action's target: the run's page.
    pub target: String,
}

/// What a notification holds.
pub ghost struct NotificationView {
    pub id: Seq<char>,
    pub title: Seq<char>,
    pub body: Seq<char>,
    pub priority: Priority,
    pub action: Seq<char>,
    pub target: Seq<char>,
}

impl View for Notification {
    type V = NotificationView;

    open spec fn view(&self) -> NotificationView {
        NotificationView {
            id: self.id@,
            title: self.title@,
            body: self.body@,
            priority: self.priority,
            action: self.action@,
            target: self.target@,
        }
    }
}

/// What a list of notifications holds.
pub open spec fn notification_views(notifications: Seq<Notification>) -> Seq<NotificationView> {
    notifications.map_values(|n: Notification| n@)
}

/// The notification id of a run.
pub open spec fn run_notification_id(run_id: u64) -> Seq<char> {
    "run-"@ + text::decimal(run_id as nat)
}

/// A stable per-run id, so re-notifying a run coalesces onto one banner.
pub fn notification_id(run_id: u64) -> (r: String)
    ensures
        r@ == run_notification_id(run_id),
{
    let mut id: String = "run-".to_owned();
    let digits: String = text::number(run_id);
    id.append(digits.as_str());
    id
}

/// The headline for an outcome.
pub open spec fn outcome_title(conclusion: Conclusion) -> Seq<char> {
    if conclusion.failed() {
        "Run failed"@
    } else if conclusion is Cancelled {
        "Run cancelled"@
    } else if conclusion is Success {
        "Run passed"@
    } else {
        "Run finished"@
    }
}

/// The notification for a run that finished as `conclusion`. A failure wants
/// attention now; a pass can be quiet.
pub open spec fn finished_notification(
    run: types::RunView,
    conclusion: Conclusion,
) -> NotificationView {
    NotificationView {
        id: run_notification_id(run.id),
        title: outcome_title(conclusion),
        body: run.workflow_name + " · "@ + run.repo + " · "@ + run.head_branch,
        priority: if conclusion.failed() {
            Priority::High
        } else {
            Priority::Normal
        },
        action: OPEN_RUN_ACTION@,
        target: run.html_url,
    }
}

/// The desktop notification for `run`, which has just finished as
/// `conclusion`. Keyed by run id, so a later notification for the same run
/// replaces its banner rather than stacking a duplicate.
pub fn notify_finished(run: &WorkflowRun, conclusion: Conclusion) -> (r: Notification)
    ensures
        r@ == finished_notification(run@, conclusion),
{
    let failed: bool = conclusion.is_failure();
    let title: &str = if failed {
        "Run failed"
    } else if conclusion == Conclusion::Cancelled {
        "Run cancelled"
    } else if conclusion == Conclusion::Success {
        "Run passed"
    } else {
        "Run finished"
    };
    let mut body: String = run.workflow_name.clone();
    body.append(" · ");
    body.append(run.repo.as_str());
    body.append(" · ");
    body.append(run.head_branch.as_str());
    Notification {
        id: notification_id(run.id),
        title: title.to_owned(),
        body,
        priority: if failed {
            Priority::High
        } else {
            Priority::Normal
        },
        action: OPEN_RUN_ACTION.to_owned(),
        target: run.html_url.clone(),
    }
}

/// How and when a run finished, where it has.
pub open spec fn finish_of(run: types::RunView) -> Option<(Conclusion, Timestamp)> {
    match run.conclusion {
        Some(conclusion) => if run.status is Completed {
            Some((conclusion, run.updated_at))
        } else {
            None
        },
        None => None,
    }
}

/// Whether a run has finished in a way that is not on record. A re-run keeps
/// its run's id; the time is what tells it apart.
pub open spec fn freshly_finished(
    last: Map<u64, (Conclusion, Timestamp)>,
    run: types::RunView,
) -> bool {
    match finish_of(run) {
        Some(finish) => !last.dom().contains(run.id) || last[run.id] != finish,
        None => false,
    }
}

/// The record after seeing one run.
pub open spec fn record_run(
    last: Map<u64, (Conclusion, Timestamp)>,
    run: types::RunView,
) -> Map<u64, (Conclusion, Timestamp)> {
    match finish_of(run) {
        Some(finish) => last.insert(run.id, finish),
        None => last,
    }
}

/// The record after seeing a list of runs.
pub open spec fn record_runs(
    last: Map<u64, (Conclusion, Timestamp)>,
    runs: Seq<types::RunView>,
) -> Map<u64, (Conclusion, Timestamp)>
    decreases runs.len(),
{
    if runs.len() == 0 {
        last
    } else {
        record_run(record_runs(last, runs.drop_last()), runs.last())
    }
}

/// The notifications due after seeing a list of runs: one for each run that
/// has freshly finished in a way worth notifying, in the order of the list.
pub open spec fn due(
    last: Map<u64, (Conclusion, Timestamp)>,
    runs: Seq<types::RunView>,
    notify: NotifyOn,
) -> Seq<NotificationView>
    decreases runs.len(),
{
    if runs.len() == 0 {
        Seq::empty()
    } else {
        let rest = due(last, runs.drop_last(), notify);
        let run = runs.last();
        if freshly_finished(record_runs(last, runs.drop_last()), run) && notify.wants(
            run.conclusion.unwrap(),
        ) {
            rest.push(finished_notification(run, run.conclusion.unwrap()))
        } else {
            rest
        }
    }
}

/// What is known of the runs that have finished: how, and when.
#[derive(Debug)]
pub struct FinishedRuns {
    last: HashMap<u64, (Conclusion, Timestamp)>,
}

impl View for FinishedRuns {
    type V = Map<u64, (Conclusion, Timestamp)>;

    closed spec fn view(&self) -> Map<u64, (Conclusion, Timestamp)> {
        self.last@
    }
}

impl FinishedRuns {
    /// Nothing on record.
    pub fn new() -> (r: Self)
        ensures
            r@ == Map::<u64, (Conclusion, Timestamp)>::empty(),
    {
        FinishedRuns { last: HashMap::new() }
    }

    /// Put one run on record, and tell how it finished where that is news.
    fn note(&mut self, run: &WorkflowRun) -> (r: Option<Conclusion>)
        ensures
            final(self)@ == record_run(old(self)@, run@),
            match r {
                Some(conclusion) => freshly_finished(old(self)@, run@) && run@.conclusion == Some(
                    conclusion,
                ),
                None => !freshly_finished(old(self)@, run@),
            },
    {
        broadcast use vstd::std_specs::hash::group_hash_axioms;

        if run.status != RunStatus::Completed {
            return None;
        }
        match run.conclusion {
            Some(conclusion) => {
                let known: bool = match self.last.get(&run.id) {
                    Some(finish) => finish.0 == conclusion && finish.1 == run.updated_at,
                    None => false,
                };
                self.last.insert(run.id, (conclusion, run.updated_at));
                if known {
                    None
                } else {
                    Some(conclusion)
                }
            },
            None => None,
        }
    }

    /// Diff a poll's runs against the record, put them on record, and tell the
    /// notifications that are due. The first poll after connecting seeds the
    /// record silently, so pre-existing failures don't all alert at startup.
    pub fn observe(&mut self, runs: &Vec<WorkflowRun>, notify: NotifyOn, silent: bool) -> (r: Vec<
        Notification,
    >)
        ensures
            final(self)@ == record_runs(old(self)@, types::run_views(runs@)),
            notification_views(r@) == if silent {
                Seq::empty()
            } else {
                due(old(self)@, types::run_views(runs@), notify)
            },
    {
        let mut out: Vec<Notification> = Vec::new();
        let ghost views = types::run_views(runs@);
        let ghost start = self@;
        let mut i: usize = 0;
        assert(notification_views(out@) =~= Seq::empty());
        while i < runs.len()
            invariant
                i <= runs@.len(),
                views == types::run_views(runs@),
                self@ == record_runs(start, views.take(i as int)),
                notification_views(out@) == if silent {
                    Seq::empty()
                } else {
                    due(start, views.take(i as int), notify)
                },
            decreases runs@.len() - i,
        {
            assert(views.take(i + 1).drop_last() =~= views.take(i as int));
            assert(views.take(i + 1).last() == runs@[i as int]@);
            if let Some(conclusion) = self.note(&runs[i]) {
                if !silent && notify.matches(conclusion) {
                    let notification: Notification = notify_finished(&runs[i], conclusion);
                    let ghost before = out@;
                    out.push(notification);
                    assert(notification_views(out@) =~= notification_views(before).push(
                        notification@,
                    ));
                }
            }
            i += 1;
        }
        assert(views.take(views.len() as int) =~= views);
        out
    }
}

/// Switched off means silent.
pub proof fn law_off_is_silent(
    last: Map<u64, (Conclusion, Timestamp)>,
    runs: Seq<types::RunView>,
)
    ensures
        due(last, runs, NotifyOn::Off) == Seq::<NotificationView>::empty(),
    decreases runs.len(),
{
    if runs.len() > 0 {
        law_off_is_silent(last, runs.drop_last());
    }
}

/// Whether a list shows each run in one state: entries with one id that have
/// finished have finished alike.
pub open spec fn consistent(runs: Seq<types::RunView>) -> bool {
    forall|i: int, j: int|
        0 <= i < runs.len() && 0 <= j < runs.len() && (#[trigger] runs[i]).id == (
        #[trigger] runs[j]).id && finish_of(runs[i]) is Some && finish_of(runs[j]) is Some
            ==> finish_of(runs[i]) == finish_of(runs[j])
}

/// What a consistent list puts on record of a finished run is how it finished.
proof fn lemma_on_record(
    last: Map<u64, (Conclusion, Timestamp)>,
    runs: Seq<types::RunView>,
    i: int,
)
    requires
        consistent(runs),
        0 <= i < runs.len(),
        finish_of(runs[i]) is Some,
    ensures
        record_runs(last, runs).dom().contains(runs[i].id),
        record_runs(last, runs)[runs[i].id] == finish_of(runs[i]).unwrap(),
    decreases runs.len(),
{
    let init = runs.drop_last();
    let end = runs.len() - 1;
    if i < end {
        assert forall|p: int, q: int|
            0 <= p < init.len() && 0 <= q < init.len() && (#[trigger] init[p]).id == (
            #[trigger] init[q]).id && finish_of(init[p]) is Some && finish_of(
                init[q],
            ) is Some implies finish_of(init[p]) == finish_of(init[q]) by {
            assert(init[p] == runs[p] && init[q] == runs[q]);
        }
        lemma_on_record(last, init, i);
        assert(init[i] == runs[i]);
        assert(runs.last() == runs[end]);
    }
}

/// Seeing a prefix of a consistent list again changes no record and is no
/// news.
proof fn lemma_again(
    last: Map<u64, (Conclusion, Timestamp)>,
    runs: Seq<types::RunView>,
    k: int,
    notify: NotifyOn,
)
    requires
        consistent(runs),
        0 <= k <= runs.len(),
    ensures
        record_runs(record_runs(last, runs), runs.take(k)) == record_runs(last, runs),
        due(record_runs(last, runs), runs.take(k), notify) == Seq::<NotificationView>::empty(),
    decreases k,
{
    let known = record_runs(last, runs);
    if k > 0 {
        lemma_again(last, runs, k - 1, notify);
        assert(runs.take(k).drop_last() =~= runs.take(k - 1));
        assert(runs.take(k).last() == runs[k - 1]);
        if finish_of(runs[k - 1]) is Some {
            lemma_on_record(last, runs, k - 1);
            assert(known.insert(runs[k - 1].id, known[runs[k - 1].id]) =~= known);
        }
    }
}

/// A run is announced once: seeing the same runs again announces nothing.
pub proof fn law_announced_once(
    last: Map<u64, (Conclusion, Timestamp)>,
    runs: Seq<types::RunView>,
    notify: NotifyOn,
)
    requires
        consistent(runs),
    ensures
        record_runs(record_runs(last, runs), runs) == record_runs(last, runs),
        due(record_runs(last, runs), runs, notify) == Seq::<NotificationView>::empty(),
{
    lemma_again(last, runs, runs.len() as int, notify);
    assert(runs.take(runs.len() as int) =~= runs);
}

/// A re-run that finishes is announced again, though it keeps its run's id:
/// the time it finished is another.
pub proof fn law_rerun_is_news(
    last: Map<u64, (Conclusion, Timestamp)>,
    run: types::RunView,
    notify: NotifyOn,
)
    requires
        last.dom().contains(run.id),
        finish_of(run) is Some,
        last[run.id].1 != run.updated_at,
        notify.wants(run.conclusion.unwrap()),
    ensures
        due(last, seq![run], notify) == seq![
            finished_notification(run, run.conclusion.unwrap()),
        ],
{
    let none = Seq::<types::RunView>::empty();
    assert(seq![run].drop_last() =~= none);
    assert(record_runs(last, none) == last);
    assert(due(last, none, notify) =~= Seq::<NotificationView>::empty());
    assert(due(last, seq![run], notify) =~= seq![
        finished_notification(run, run.conclusion.unwrap()),
    ]);
}

/// No fresh finish is missed: a run that has freshly finished in a way worth
/// notifying is announced, with its own notification.
pub proof fn law_no_finish_is_missed(
    last: Map<u64, (Conclusion, Timestamp)>,
    runs: Seq<types::RunView>,
    notify: NotifyOn,
    i: int,
)
    requires
        0 <= i < runs.len(),
        freshly_finished(last, runs[i]),
        notify.wants(runs[i].conclusion.unwrap()),
        forall|j: int| 0 <= j < i ==> (#[trigger] runs[j]).id != runs[i].id,
    ensures
        due(last, runs, notify).contains(
            finished_notification(runs[i], runs[i].conclusion.unwrap()),
        ),
    decreases runs.len(),
{
    let init = runs.drop_last();
    let alert = finished_notification(runs[i], runs[i].conclusion.unwrap());
    if i == runs.len() - 1 {
        assert forall|j: int| 0 <= j < init.len() implies (#[trigger] init[j]).id
            != runs[i].id by {
            assert(init[j] == runs[j]);
        }
        lemma_known(last, init, runs[i].id);
        let all = due(last, runs, notify);
        assert(all[all.len() - 1] == alert);
    } else {
        assert(init[i] == runs[i]);
        assert forall|j: int| 0 <= j < i implies (#[trigger] init[j]).id != init[i].id by {
            assert(init[j] == runs[j]);
        }
        law_no_finish_is_missed(last, init, notify, i);
        let rest = due(last, init, notify);
        let k = choose|k: int| 0 <= k < rest.len() && rest[k] == alert;
        assert(due(last, runs, notify)[k] == alert);
    }
}

/// Nothing else is announced: each notification belongs to a run of the list
/// that finished, in a way worth notifying, and was not on record so.
pub proof fn law_only_fresh_finishes(
    last: Map<u64, (Conclusion, Timestamp)>,
    runs: Seq<types::RunView>,
    notify: NotifyOn,
    k: int,
) -> (i: int)
    requires
        0 <= k < due(last, runs, notify).len(),
    ensures
        0 <= i < runs.len(),
        freshly_finished(record_runs(last, runs.take(i)), runs[i]),
        notify.wants(runs[i].conclusion.unwrap()),
        due(last, runs, notify)[k] == finished_notification(
            runs[i],
            runs[i].conclusion.unwrap(),
        ),
    decreases runs.len(),
{
    let init = runs.drop_last();
    let rest = due(last, init, notify);
    if k < rest.len() {
        let i = law_only_fresh_finishes(last, init, notify, k);
        assert(init[i] == runs[i]);
        assert(init.take(i) =~= runs.take(i));
        i
    } else {
        let i = runs.len() - 1;
        assert(runs.take(i) =~= init);
        i
    }
}

/// Two runs' notification ids are the same only where their ids are.
proof fn lemma_notification_ids(a: u64, b: u64)
    requires
        run_notification_id(a) == run_notification_id(b),
    ensures
        a == b,
{
    let n = "run-"@.len() as int;
    assert(text::decimal(a as nat) =~= run_notification_id(a).skip(n));
    assert(text::decimal(b as nat) =~= run_notification_id(b).skip(n));
    text::law_number_round_trip(a);
    text::law_number_round_trip(b);
}

/// Whether the entries of one run agree on how it finished: those of them that
/// have finished have finished alike.
pub open spec fn agrees(runs: Seq<types::RunView>, i: int) -> bool {
    forall|j: int|
        0 <= j < runs.len() && (#[trigger] runs[j]).id == runs[i].id && finish_of(runs[j]) is Some
            ==> finish_of(runs[j]) == finish_of(runs[i])
}

/// One load announces a run once: a run that has freshly finished in a way
/// worth notifying has exactly one notification under its id, that of its first
/// finished entry, however often it is listed, as long as its entries agree on
/// how it finished. Gives the notification's place, and the entry's.
pub proof fn law_one_notification_per_run(
    last: Map<u64, (Conclusion, Timestamp)>,
    runs: Seq<types::RunView>,
    notify: NotifyOn,
    i: int,
) -> (r: (int, int))
    requires
        0 <= i < runs.len(),
        agrees(runs, i),
        freshly_finished(last, runs[i]),
        notify.wants(runs[i].conclusion.unwrap()),
    ensures
        0 <= r.0 < due(last, runs, notify).len(),
        0 <= r.1 <= i,
        runs[r.1].id == runs[i].id,
        finish_of(runs[r.1]) == finish_of(runs[i]),
        due(last, runs, notify)[r.0] == finished_notification(
            runs[r.1],
            runs[i].conclusion.unwrap(),
        ),
        forall|j: int|
            0 <= j < due(last, runs, notify).len() && (#[trigger] due(last, runs, notify)[j]).id
                == run_notification_id(runs[i].id) ==> j == r.0,
    decreases runs.len(),
{
    let init = runs.drop_last();
    let end = runs.len() - 1;
    let all = due(last, runs, notify);
    let rest = due(last, init, notify);
    let id = runs[i].id;
    assert(runs.last() == runs[end]);
    if exists|p: int|
        0 <= p < init.len() && (#[trigger] init[p]).id == id && finish_of(init[p]) is Some {
        let p = choose|p: int|
            0 <= p < init.len() && (#[trigger] init[p]).id == id && finish_of(init[p]) is Some;
        let q = if i < end {
            i
        } else {
            p
        };
        assert(init[p] == runs[p] && init[q] == runs[q]);
        assert(finish_of(init[q]) == finish_of(runs[i]));
        assert(agrees(init, q)) by {
            assert forall|j: int|
                0 <= j < init.len() && (#[trigger] init[j]).id == init[q].id && finish_of(
                    init[j],
                ) is Some implies finish_of(init[j]) == finish_of(init[q]) by {
                assert(init[j] == runs[j]);
            }
        }
        let (k, e) = law_one_notification_per_run(last, init, notify, q);
        lemma_agreed_record(last, init, q);
        assert(init[e] == runs[e]);
        assert(all[k] == rest[k]);
        assert forall|j: int|
            0 <= j < all.len() && (#[trigger] all[j]).id == run_notification_id(id) implies j
            == k by {
            if j < rest.len() {
                assert(all[j] == rest[j]);
            } else {
                lemma_notification_ids(runs[end].id, id);
                assert(finish_of(runs[end]) == finish_of(runs[i]));
            }
        }
        (k, e)
    } else {
        if i < end {
            assert(init[i] == runs[i]);
        }
        assert forall|j: int| 0 <= j < init.len() && (#[trigger] init[j]).id == id implies finish_of(
            init[j],
        ) is None by {}
        lemma_known(last, init, id);
        assert forall|j: int|
            0 <= j < all.len() && (#[trigger] all[j]).id == run_notification_id(id) implies j
            == rest.len() by {
            if j < rest.len() {
                let n = law_only_fresh_finishes(last, init, notify, j);
                assert(all[j] == rest[j]);
                lemma_notification_ids(init[n].id, id);
            }
        }
        (rest.len() as int, end)
    }
}

/// What a list whose entries of one run agree puts on record of that run is how
/// it finished.
proof fn lemma_agreed_record(
    last: Map<u64, (Conclusion, Timestamp)>,
    runs: Seq<types::RunView>,
    i: int,
)
    requires
        0 <= i < runs.len(),
        agrees(runs, i),
        finish_of(runs[i]) is Some,
    ensures
        record_runs(last, runs).dom().contains(runs[i].id),
        record_runs(last, runs)[runs[i].id] == finish_of(runs[i]).unwrap(),
    decreases runs.len(),
{
    let init = runs.drop_last();
    let end = runs.len() - 1;
    assert(runs.last() == runs[end]);
    if i < end {
        assert(init[i] == runs[i]);
        assert forall|j: int|
            0 <= j < init.len() && (#[trigger] init[j]).id == init[i].id && finish_of(
                init[j],
            ) is Some implies finish_of(init[j]) == finish_of(init[i]) by {
            assert(init[j] == runs[j]);
        }
        lemma_agreed_record(last, init, i);
    }
}

/// A list that has no news of a run leaves what is on record of it.
proof fn lemma_known(
    last: Map<u64, (Conclusion, Timestamp)>,
    runs: Seq<types::RunView>,
    id: u64,
)
    requires
        forall|j: int|
            0 <= j < runs.len() && (#[trigger] runs[j]).id == id ==> !freshly_finished(
                last,
                runs[j],
            ),
    ensures
        record_runs(last, runs).dom().contains(id) == last.dom().contains(id),
        last.dom().contains(id) ==> record_runs(last, runs)[id] == last[id],
    decreases runs.len(),
{
    if runs.len() > 0 {
        let init = runs.drop_last();
        assert forall|j: int| 0 <= j < init.len() && (#[trigger] init[j]).id
            == id implies !freshly_finished(last, init[j]) by {
            assert(init[j] == runs[j]);
        }
        lemma_known(last, init, id);
        assert(runs.last() == runs[runs.len() - 1]);
    }
}

/// What is on record of a run stays unannounced: a run that no entry of the
/// list has freshly finished has no notification.
pub proof fn law_nothing_new_is_silent(
    last: Map<u64, (Conclusion, Timestamp)>,
    runs: Seq<types::RunView>,
    notify: NotifyOn,
    id: u64,
    k: int,
)
    requires
        forall|j: int|
            0 <= j < runs.len() && (#[trigger] runs[j]).id == id ==> !freshly_finished(
                last,
                runs[j],
            ),
        0 <= k < due(last, runs, notify).len(),
    ensures
        due(last, runs, notify)[k].id != run_notification_id(id),
{
    let n = law_only_fresh_finishes(last, runs, notify, k);
    if run_notification_id(runs[n].id) == run_notification_id(id) {
        lemma_notification_ids(runs[n].id, id);
        let before = runs.take(n);
        assert forall|j: int| 0 <= j < before.len() && (#[trigger] before[j]).id
            == id implies !freshly_finished(last, before[j]) by {
            assert(before[j] == runs[j]);
        }
        lemma_known(last, before, id);
    }
}

/// A notification says which run finished and how: its id is the run's, its
/// body names the workflow, the repository and the branch, a click opens the
/// run's page, and only an outcome that went wrong is urgent.
pub proof fn law_notification_says(run: types::RunView, conclusion: Conclusion)
    ensures
        ({
            let n = finished_notification(run, conclusion);
            let wrong = conclusion == Conclusion::Failure || conclusion == Conclusion::TimedOut
                || conclusion == Conclusion::StartupFailure;
            &&& n.id == "run-"@ + text::decimal(run.id as nat)
            &&& n.body == run.workflow_name + " · "@ + run.repo + " · "@ + run.head_branch
            &&& n.action == "app.open-run"@
            &&& n.target == run.html_url
            &&& wrong ==> n.title == "Run failed"@ && n.priority is High
            &&& !wrong ==> n.priority is Normal
            &&& conclusion == Conclusion::Cancelled ==> n.title == "Run cancelled"@
            &&& conclusion == Conclusion::Success ==> n.title == "Run passed"@
            &&& conclusion == Conclusion::Skipped || conclusion == Conclusion::ActionRequired
                || conclusion == Conclusion::Neutral || conclusion == Conclusion::Stale
                || conclusion == Conclusion::Unknown ==> n.title == "Run finished"@
        }),
{
}

/// Under failures only, each notification belongs to a run of the list that
/// completed with a failure, a time-out or a failed start, and names that run;
/// no cancelled run, no skipped one and none that passed is announced. Gives
/// the run's place.
pub proof fn law_only_failures_are_announced(
    last: Map<u64, (Conclusion, Timestamp)>,
    runs: Seq<types::RunView>,
    k: int,
) -> (i: int)
    requires
        0 <= k < due(last, runs, NotifyOn::Failures).len(),
    ensures
        0 <= i < runs.len(),
        runs[i].status == RunStatus::Completed,
        runs[i].conclusion == Some(Conclusion::Failure) || runs[i].conclusion == Some(
            Conclusion::TimedOut,
        ) || runs[i].conclusion == Some(Conclusion::StartupFailure),
        due(last, runs, NotifyOn::Failures)[k].id == "run-"@ + text::decimal(runs[i].id as nat),
        due(last, runs, NotifyOn::Failures)[k].title == "Run failed"@,
        due(last, runs, NotifyOn::Failures)[k].target == runs[i].html_url,
{
    law_only_fresh_finishes(last, runs, NotifyOn::Failures, k)
}

/// Under failures only, every run that completed with a failure, a time-out or
/// a failed start, not on record so, is announced, and once; under every run
/// each completed run that is not on record so is, whatever its conclusion.
/// Entries of the run that have finished agree on how. Gives the notification's
/// place.
pub proof fn law_every_fresh_finish_is_announced(
    last: Map<u64, (Conclusion, Timestamp)>,
    runs: Seq<types::RunView>,
    notify: NotifyOn,
    i: int,
    conclusion: Conclusion,
) -> (k: int)
    requires
        0 <= i < runs.len(),
        runs[i].status == RunStatus::Completed,
        runs[i].conclusion == Some(conclusion),
        last.dom().contains(runs[i].id) ==> last[runs[i].id].0 != conclusion
            || last[runs[i].id].1 != runs[i].updated_at,
        notify == NotifyOn::All || (notify == NotifyOn::Failures && (conclusion
            == Conclusion::Failure || conclusion == Conclusion::TimedOut || conclusion
            == Conclusion::StartupFailure)),
        forall|j: int|
            0 <= j < runs.len() && (#[trigger] runs[j]).id == runs[i].id && runs[j].status
                == RunStatus::Completed && runs[j].conclusion is Some ==> runs[j].conclusion
                == Some(conclusion) && runs[j].updated_at == runs[i].updated_at,
    ensures
        0 <= k < due(last, runs, notify).len(),
        due(last, runs, notify)[k].id == "run-"@ + text::decimal(runs[i].id as nat),
        forall|j: int|
            0 <= j < due(last, runs, notify).len() && (#[trigger] due(last, runs, notify)[j]).id
                == "run-"@ + text::decimal(runs[i].id as nat) ==> j == k,
{
    let (k, e) = law_one_notification_per_run(last, runs, notify, i);
    k
}

/// A run is not announced while it has not completed, nor where it finished as
/// and when the record has it.
pub proof fn law_no_news_is_silent(
    last: Map<u64, (Conclusion, Timestamp)>,
    runs: Seq<types::RunView>,
    notify: NotifyOn,
    id: u64,
    k: int,
)
    requires
        forall|j: int|
            0 <= j < runs.len() && (#[trigger] runs[j]).id == id ==> runs[j].status
                != RunStatus::Completed || runs[j].conclusion is None || (last.dom().contains(id)
                && Some(last[id].0) == runs[j].conclusion && last[id].1 == runs[j].updated_at),
        0 <= k < due(last, runs, notify).len(),
    ensures
        due(last, runs, notify)[k].id != "run-"@ + text::decimal(id as nat),
{
    assert forall|j: int| 0 <= j < runs.len() && (#[trigger] runs[j]).id
        == id implies !freshly_finished(last, runs[j]) by {}
    law_nothing_new_is_silent(last, runs, notify, id, k);
}

/// The record holds of each run how and when it was last seen finished: a run
/// that completed goes on record under its id, any other changes nothing.
pub proof fn law_record_holds_the_last_finish(
    last: Map<u64, (Conclusion, Timestamp)>,
    runs: Seq<types::RunView>,
    run: types::RunView,
    id: u64,
)
    ensures
        record_runs(last, Seq::empty()) == last,
        run.status == RunStatus::Completed && run.conclusion is Some ==> record_runs(
            last,
            runs.push(run),
        ).dom().contains(run.id) && record_runs(last, runs.push(run))[run.id] == (
            run.conclusion.unwrap(),
            run.updated_at,
        ),
        run.status != RunStatus::Completed || run.conclusion is None ==> record_runs(
            last,
            runs.push(run),
        ) == record_runs(last, runs),
        id != run.id ==> record_runs(last, runs.push(run)).dom().contains(id) == record_runs(
            last,
            runs,
        ).dom().contains(id) && record_runs(last, runs.push(run))[id] == record_runs(last, runs)[id],
{
    assert(runs.push(run).drop_last() =~= runs);
}

/// Notifications come in the order of their runs: one more run at the end of
/// the list leaves those before as they are, and adds at most its own, behind
/// them.
pub proof fn law_notifications_in_order(
    last: Map<u64, (Conclusion, Timestamp)>,
    runs: Seq<types::RunView>,
    run: types::RunView,
    notify: NotifyOn,
)
    ensures
        due(last, runs, notify).is_prefix_of(due(last, runs.push(run), notify)),
        due(last, runs.push(run), notify).len() <= due(last, runs, notify).len() + 1,
        due(last, runs.push(run), notify).len() > due(last, runs, notify).len() ==> due(
            last,
            runs.push(run),
            notify,
        ).last().id == "run-"@ + text::decimal(run.id as nat),
        due(last, Seq::empty(), notify).len() == 0,
{
    assert(runs.push(run).drop_last() =~= runs);
    let before = due(last, runs, notify);
    let after = due(last, runs.push(run), notify);
    assert(after.take(before.len() as int) =~= before);
}

} // verus!

//! What a run changes, and how that is told.

use vstd::prelude::*;
use vstd::string::*;
use crate::api::{ApiRequest, RequestView};
use crate::text::{ends, pad, padded, starts};

verus! {

/// Whether changes are only planned, or made.
#[derive(Debug, Clone, Copy, PartialEq, Eq, Structural)]
pub enum Mode {
    Plan,
    Apply,
}

/// The kind of a change.
#[derive(Debug, Clone, Copy, PartialEq, Eq, Structural)]
pub enum ChangeKind {
    Create,
    Update,
    Replace,
    Delete,
}

/// A change, planned or made.
#[derive(Debug)]
pub struct Change {
    pub kind: ChangeKind,
    pub subject: String,
    pub detail: String,
}

/// What a change holds.
pub struct ChangeView {
    pub kind: ChangeKind,
    pub subject: Seq<char>,
    pub detail: Seq<char>,
}

impl View for Change {
    type V = ChangeView;

    open spec fn view(&self) -> ChangeView {
        ChangeView { kind: self.kind, subject: self.subject@, detail: self.detail@ }
    }
}

/// The changes of a run.
#[derive(Debug)]
pub struct SyncSummary {
    pub mode: Mode,
    pub changes: Vec<Change>,
}

impl ChangeKind {
    /// The word for a kind of change.
    pub open spec fn word(self) -> Seq<char> {
        match self {
            ChangeKind::Create => "create"@,
            ChangeKind::Update => "update"@,
            ChangeKind::Replace => "replace"@,
            ChangeKind::Delete => "delete"@,
        }
    }
}

/// The word for a kind of change.
pub fn render_change_kind(kind: &ChangeKind) -> (word: &'static str)
    ensures
        word@ == kind.word(),
{
    match kind {
        ChangeKind::Create => "create",
        ChangeKind::Update => "update",
        ChangeKind::Replace => "replace",
        ChangeKind::Delete => "delete",
    }
}

/// The line that tells a change: kind and subject in columns, then the detail.
pub open spec fn change_line(change: ChangeView) -> Seq<char> {
    padded(change.kind.word(), 7) + " "@ + padded(change.subject, 40) + " "@ + change.detail
}

/// The lines that tell the changes.
pub open spec fn summary_lines(changes: Seq<ChangeView>) -> Seq<Seq<char>> {
    if changes.len() == 0 {
        seq!["No changes."@]
    } else {
        changes.map_values(|change: ChangeView| change_line(change))
    }
}

/// The views of a list of changes.
pub open spec fn change_views(changes: Seq<Change>) -> Seq<ChangeView> {
    changes.map_values(|change: Change| change@)
}

/// The lines that tell the changes.
pub fn print_summary(changes: &Vec<Change>) -> (lines: Vec<String>)
    ensures
        lines@.map_values(|line: String| line@) == summary_lines(change_views(changes@)),
{
    let mut lines: Vec<String> = Vec::new();
    if changes.len() == 0 {
        lines.push("No changes.".to_owned());
        proof {
            assert(lines@.map_values(|line: String| line@) =~= seq!["No changes."@]);
        }
        return lines;
    }
    let mut i: usize = 0;
    while i < changes.len()
        invariant
            i <= changes.len(),
            lines.len() == i,
            forall|k: int| 0 <= k < i ==> (#[trigger] lines@[k])@ == change_line(changes@[k]@),
        decreases changes.len() - i,
    {
        let change = &changes[i];
        lines.push(
            pad(render_change_kind(&change.kind), 7).concat(" ").concat(
                pad(change.subject.as_str(), 40).as_str(),
            ).concat(" ").concat(change.detail.as_str()),
        );
        i += 1;
    }
    proof {
        assert(lines@.map_values(|line: String| line@) =~= summary_lines(change_views(changes@)));
    }
    lines
}

/// The changes of a run so far. Requests that change something are handed out only when changes
/// are made.
#[derive(Debug)]
pub struct Journal {
    pub mode: Mode,
    pub changes: Vec<Change>,
}

impl Journal {
    /// The changes so far.
    pub open spec fn recorded(self) -> Seq<ChangeView> {
        change_views(self.changes@)
    }
}

/// One thing to do: the change that is recorded and the requests that make it, in order.
pub struct StepView {
    pub change: ChangeView,
    pub requests: Seq<RequestView>,
}

/// The views of a list of requests.
pub open spec fn request_views(requests: Seq<ApiRequest>) -> Seq<RequestView> {
    requests.map_values(|request: ApiRequest| request@)
}

/// How a journal and the requests that were handed out follow from what there was to do.
pub open spec fn followed(
    before: Journal,
    after: Journal,
    step: Option<StepView>,
    requests: Seq<ApiRequest>,
) -> bool {
    &&& after.mode == before.mode
    &&& match step {
        None => after.recorded() == before.recorded() && requests.len() == 0,
        Some(todo) => {
            &&& after.recorded() == before.recorded().push(todo.change)
            &&& request_views(requests) == (if before.mode == Mode::Apply {
                todo.requests
            } else {
                seq![]
            })
        },
    }
}

/// The changes of several things to do.
pub open spec fn step_changes(steps: Seq<StepView>) -> Seq<ChangeView> {
    steps.map_values(|step: StepView| step.change)
}

/// The requests of several things to do, in order.
pub open spec fn step_requests(steps: Seq<StepView>) -> Seq<RequestView>
    decreases steps.len(),
{
    if steps.len() == 0 {
        seq![]
    } else {
        step_requests(steps.drop_last()) + steps.last().requests
    }
}

/// How a journal and the requests that were handed out follow from several things to do.
pub open spec fn followed_all(
    before: Journal,
    after: Journal,
    steps: Seq<StepView>,
    requests: Seq<ApiRequest>,
) -> bool {
    &&& after.mode == before.mode
    &&& after.recorded() == before.recorded() + step_changes(steps)
    &&& request_views(requests) == (if before.mode == Mode::Apply {
        step_requests(steps)
    } else {
        seq![]
    })
}

/// Something that is told and needs no request.
pub open spec fn told(kind: ChangeKind, subject: Seq<char>, detail: Seq<char>) -> StepView {
    StepView { change: ChangeView { kind, subject, detail }, requests: seq![] }
}

/// Several things with one more, where there is one more.
pub open spec fn and_then(steps: Seq<StepView>, step: Option<StepView>) -> Seq<StepView> {
    match step {
        Some(todo) => steps.push(todo),
        None => steps,
    }
}

/// Nothing to do changes nothing.
pub proof fn lemma_nothing_followed(journal: Journal)
    ensures
        followed_all(journal, journal, seq![], seq![]),
{
    assert(journal.recorded() + step_changes(seq![]) =~= journal.recorded());
    assert(request_views(seq![]) =~= Seq::<RequestView>::empty());
}

/// Doing one more thing.
pub proof fn lemma_one_more(
    before: Journal,
    between: Journal,
    after: Journal,
    steps: Seq<StepView>,
    step: Option<StepView>,
    requests: Seq<ApiRequest>,
    more: Seq<ApiRequest>,
)
    requires
        followed_all(before, between, steps, requests),
        followed(between, after, step, more),
    ensures
        followed_all(before, after, and_then(steps, step), requests + more),
{
    match step {
        None => {
            assert(requests + more =~= requests);
        },
        Some(todo) => {
            assert(steps.push(todo).drop_last() =~= steps);
            assert(before.recorded() + step_changes(steps.push(todo)) =~= (before.recorded() + step_changes(
                steps,
            )).push(todo.change));
            assert(request_views(requests + more) =~= request_views(requests) + request_views(
                more,
            ));
            assert(request_views(requests) + Seq::<RequestView>::empty() =~= request_views(
                requests,
            ));
        },
    }
}

impl Journal {
    /// An empty journal.
    pub fn new(mode: Mode) -> (journal: Journal)
        ensures
            journal.mode == mode,
            journal.recorded() == Seq::<ChangeView>::empty(),
    {
        let journal = Journal { mode, changes: Vec::new() };
        proof {
            assert(journal.recorded() =~= Seq::<ChangeView>::empty());
        }
        journal
    }

    /// Writes down a change.
    pub fn record(&mut self, kind: ChangeKind, subject: String, detail: &str)
        ensures
            final(self).mode == old(self).mode,
            final(self).recorded() == old(self).recorded().push(
                ChangeView { kind, subject: subject@, detail: detail@ },
            ),
    {
        let ghost before = self.recorded();
        let ghost name = subject@;
        self.changes.push(Change { kind, subject, detail: detail.to_owned() });
        proof {
            assert(self.recorded() =~= before.push(ChangeView { kind, subject: name, detail: detail@ }));
        }
    }

    /// Writes down a change and hands its request out when changes are made.
    pub fn step(
        &mut self,
        kind: ChangeKind,
        subject: String,
        detail: &str,
        request: ApiRequest,
    ) -> (requests: Vec<ApiRequest>)
        ensures
            followed(
                *old(self),
                *final(self),
                Some(
                    StepView {
                        change: ChangeView { kind, subject: subject@, detail: detail@ },
                        requests: seq![request@],
                    },
                ),
                requests@,
            ),
    {
        self.record(kind, subject, detail);
        let mut requests: Vec<ApiRequest> = Vec::new();
        if self.mode == Mode::Apply {
            let ghost view = request@;
            requests.push(request);
            proof {
                assert(request_views(requests@) =~= seq![view]);
            }
        } else {
            proof {
                assert(request_views(requests@) =~= Seq::<RequestView>::empty());
            }
        }
        requests
    }

    /// Writes down a change and hands its requests out when changes are made.
    pub fn steps(
        &mut self,
        kind: ChangeKind,
        subject: String,
        detail: &str,
        todo: Vec<ApiRequest>,
    ) -> (requests: Vec<ApiRequest>)
        ensures
            followed(
                *old(self),
                *final(self),
                Some(
                    StepView {
                        change: ChangeView { kind, subject: subject@, detail: detail@ },
                        requests: request_views(todo@),
                    },
                ),
                requests@,
            ),
    {
        self.record(kind, subject, detail);
        if self.mode == Mode::Apply {
            todo
        } else {
            let requests: Vec<ApiRequest> = Vec::new();
            proof {
                assert(request_views(requests@) =~= Seq::<RequestView>::empty());
            }
            requests
        }
    }
}

/// Nothing to do.
pub fn no_requests() -> (requests: Vec<ApiRequest>)
    ensures
        requests@.len() == 0,
{
    Vec::new()
}

/// Planning hands no request out, and records what making the changes would record.
pub proof fn law_plan_tells_what_apply_does(
    plan: Journal,
    planned: Journal,
    apply: Journal,
    applied: Journal,
    step: Option<StepView>,
    none: Seq<ApiRequest>,
    requests: Seq<ApiRequest>,
)
    requires
        plan.mode == Mode::Plan,
        apply.mode == Mode::Apply,
        plan.recorded() == apply.recorded(),
        followed(plan, planned, step, none),
        followed(apply, applied, step, requests),
    ensures
        none.len() == 0,
        planned.recorded() == applied.recorded(),
        step is Some ==> request_views(requests) == step->0.requests,
{
    if step is Some {
        assert(request_views(none).len() == none.len());
    }
}

/// Planning several things hands no request out, and records what making the changes would record.
pub proof fn law_plan_tells_all_that_apply_does(
    plan: Journal,
    planned: Journal,
    apply: Journal,
    applied: Journal,
    steps: Seq<StepView>,
    none: Seq<ApiRequest>,
    requests: Seq<ApiRequest>,
)
    requires
        plan.mode == Mode::Plan,
        apply.mode == Mode::Apply,
        plan.recorded() == apply.recorded(),
        followed_all(plan, planned, steps, none),
        followed_all(apply, applied, steps, requests),
    ensures
        none.len() == 0,
        planned.recorded() == applied.recorded(),
        request_views(requests) == step_requests(steps),
{
    assert(request_views(none).len() == none.len());
}

/// A plan and a run tell each change on a line of its own, and of no change they say so.
pub proof fn law_each_change_has_a_line(changes: Seq<ChangeView>)
    ensures
        changes.len() == 0 ==> summary_lines(changes).len() == 1,
        changes.len() > 0 ==> summary_lines(changes).len() == changes.len(),
        forall|i: int|
            0 <= i < changes.len() ==> {
                let line = #[trigger] summary_lines(changes)[i];
                let change = changes[i];
                &&& starts(line, change.kind.word())
                &&& ends(line, change.detail)
                &&& line.len() >= 49 + change.detail.len()
            },
{
    reveal_strlit("create");
    reveal_strlit("update");
    reveal_strlit("replace");
    reveal_strlit("delete");
    reveal_strlit(" ");
    assert forall|i: int| 0 <= i < changes.len() implies ({
        let line = #[trigger] summary_lines(changes)[i];
        let change = changes[i];
        &&& starts(line, change.kind.word())
        &&& ends(line, change.detail)
        &&& line.len() >= 49 + change.detail.len()
    }) by {
        let line = summary_lines(changes)[i];
        let change = changes[i];
        lemma_padded(change.kind.word(), 7);
        lemma_padded(change.subject, 40);
        let word = change.kind.word();
        assert(line.take(word.len() as int) =~= word);
        assert(line.skip(line.len() - change.detail.len()) =~= change.detail);
    }
}

proof fn lemma_padded(s: Seq<char>, width: nat)
    ensures
        padded(s, width).len() == (if s.len() >= width {
            s.len()
        } else {
            width
        }),
        padded(s, width).take(s.len() as int) == s,
    decreases width - s.len(),
{
    if s.len() < width {
        lemma_padded(s.push(' '), width);
        let all = padded(s.push(' '), width);
        assert(all.take(s.len() as int) =~= all.take((s.len() + 1) as int).take(s.len() as int));
        assert(s.push(' ').take(s.len() as int) =~= s);
    } else {
        assert(s.take(s.len() as int) =~= s);
    }
}

/// Each kind of change has a word of its own.
pub proof fn law_change_words_differ(a: ChangeKind, b: ChangeKind)
    ensures
        a.word() == b.word() ==> a == b,
{
    reveal_strlit("create");
    reveal_strlit("update");
    reveal_strlit("replace");
    reveal_strlit("delete");
    assert("create"@[0] == 'c' && "update"@[0] == 'u' && "replace"@[0] == 'r' && "delete"@[0] == 'd');
}

} // verus!

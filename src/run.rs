use vstd::prelude::*;

use crate::apply::{writes_view, ModulePlan, PlanModel};

verus! {

/// How applying a theme to one module ended.
pub enum ModuleOutcome {
    /// Every output was written and the reload, if any, succeeded.
    Applied,
    /// The named variable is undefined; nothing was written.
    RenderFailure(String),
    /// The output at this path could not be written.
    WriteFailure(String),
    /// The reload command failed, exited non-zero or timed out; the outputs
    /// stay written.
    ReloadFailure,
}

/// The model of a module outcome.
pub enum OutcomeModel {
    Applied,
    RenderFailure(Seq<char>),
    WriteFailure(Seq<char>),
    ReloadFailure,
}

impl View for ModuleOutcome {
    type V = OutcomeModel;

    open spec fn view(&self) -> OutcomeModel {
        match self {
            ModuleOutcome::Applied => OutcomeModel::Applied,
            ModuleOutcome::RenderFailure(v) => OutcomeModel::RenderFailure(v@),
            ModuleOutcome::WriteFailure(p) => OutcomeModel::WriteFailure(p@),
            ModuleOutcome::ReloadFailure => OutcomeModel::ReloadFailure,
        }
    }
}

/// What to do next for a module.
pub enum Action {
    /// Write the output at this position of the plan, atomically.
    Write(usize),
    /// Run the module's reload command.
    Reload,
    /// The module is finished.
    Done(ModuleOutcome),
}

/// The model of an action.
pub enum ActionModel {
    Write(int),
    Reload,
    Done(OutcomeModel),
}

impl View for Action {
    type V = ActionModel;

    open spec fn view(&self) -> ActionModel {
        match self {
            Action::Write(i) => ActionModel::Write(*i as int),
            Action::Reload => ActionModel::Reload,
            Action::Done(o) => ActionModel::Done(o@),
        }
    }
}

/// Once all outputs are written: reload if the plan says so, else finish.
pub open spec fn finish_spec(p: PlanModel) -> ActionModel {
    match p {
        PlanModel::Ready { reload: Some(_), .. } => ActionModel::Reload,
        _ => ActionModel::Done(OutcomeModel::Applied),
    }
}

/// The first step for a planned module.
pub open spec fn first_action_spec(p: PlanModel) -> ActionModel {
    match p {
        PlanModel::RenderFailed { variable, .. } => ActionModel::Done(
            OutcomeModel::RenderFailure(variable),
        ),
        PlanModel::Ready { writes, .. } => if writes.len() > 0 {
            ActionModel::Write(0)
        } else {
            finish_spec(p)
        },
    }
}

/// The step after the write at position `i` succeeded (`ok`) or failed.
pub open spec fn after_write_spec(p: PlanModel, i: int, ok: bool) -> ActionModel {
    match p {
        PlanModel::RenderFailed { variable, .. } => ActionModel::Done(
            OutcomeModel::RenderFailure(variable),
        ),
        PlanModel::Ready { writes, .. } => if !ok {
            ActionModel::Done(OutcomeModel::WriteFailure(writes[i].0))
        } else if i + 1 < writes.len() {
            ActionModel::Write(i + 1)
        } else {
            finish_spec(p)
        },
    }
}

/// The step after the reload command succeeded (`ok`) or failed.
pub open spec fn after_reload_spec(ok: bool) -> ActionModel {
    if ok {
        ActionModel::Done(OutcomeModel::Applied)
    } else {
        ActionModel::Done(OutcomeModel::ReloadFailure)
    }
}

fn finish(plan: &ModulePlan) -> (r: Action)
    ensures
        r@ == finish_spec(plan@),
{
    match plan {
        ModulePlan::Ready { reload: Some(_), .. } => Action::Reload,
        _ => Action::Done(ModuleOutcome::Applied),
    }
}

/// The first step for a planned module: a module that failed to render is
/// done at once, without writing anything.
pub fn first_action(plan: &ModulePlan) -> (r: Action)
    ensures
        r@ == first_action_spec(plan@),
{
    match plan {
        ModulePlan::RenderFailed { variable, .. } => Action::Done(
            ModuleOutcome::RenderFailure(variable.clone()),
        ),
        ModulePlan::Ready { writes, .. } => {
            if writes.len() > 0 {
                Action::Write(0)
            } else {
                finish(plan)
            }
        },
    }
}

/// The step after the write at position `index` succeeded (`ok`) or
/// failed. A failed write ends the module; files written before it stay.
pub fn after_write(plan: &ModulePlan, index: usize, ok: bool) -> (r: Action)
    requires
        plan@ is Ready,
        index < plan@->Ready_writes.len(),
    ensures
        r@ == after_write_spec(plan@, index as int, ok),
{
    match plan {
        ModulePlan::RenderFailed { variable, .. } => Action::Done(
            ModuleOutcome::RenderFailure(variable.clone()),
        ),
        ModulePlan::Ready { writes, .. } => {
            let n = writes.len();
            assert(writes_view(writes@).len() == n);
            if !ok {
                Action::Done(ModuleOutcome::WriteFailure(writes[index].path.clone()))
            } else if index + 1 < n {
                Action::Write(index + 1)
            } else {
                finish(plan)
            }
        },
    }
}

/// The step after the reload command succeeded (`ok`) or failed.
pub fn after_reload(ok: bool) -> (r: Action)
    ensures
        r@ == after_reload_spec(ok),
{
    if ok {
        Action::Done(ModuleOutcome::Applied)
    } else {
        Action::Done(ModuleOutcome::ReloadFailure)
    }
}

/// One module's line in a report.
pub struct ModuleReport {
    pub module: String,
    pub outcome: ModuleOutcome,
}

/// The outcome of every module of an apply pass, in the order they were
/// processed.
pub struct ApplyReport {
    entries: Vec<ModuleReport>,
}

impl ApplyReport {
    /// The (module name, outcome) pairs recorded so far.
    pub closed spec fn outcomes(&self) -> Seq<(Seq<char>, OutcomeModel)> {
        self.entries@.map_values(|e: ModuleReport| (e.module@, e.outcome@))
    }

    /// An empty report.
    pub fn new() -> (r: ApplyReport)
        ensures
            r.outcomes() == Seq::<(Seq<char>, OutcomeModel)>::empty(),
    {
        let r = ApplyReport { entries: Vec::new() };
        assert(r.outcomes() =~= Seq::<(Seq<char>, OutcomeModel)>::empty());
        r
    }

    /// Adds the outcome of one module.
    pub fn record(&mut self, module: String, outcome: ModuleOutcome)
        ensures
            final(self).outcomes() == old(self).outcomes().push((module@, outcome@)),
    {
        let e = ModuleReport { module, outcome };
        self.entries.push(e);
        assert(self.outcomes() =~= old(self).outcomes().push((e.module@, e.outcome@)));
    }

    /// The recorded lines.
    pub fn entries(&self) -> (r: &Vec<ModuleReport>)
        ensures
            r@.map_values(|e: ModuleReport| (e.module@, e.outcome@)) == self.outcomes(),
    {
        &self.entries
    }

    /// Every recorded module was applied; a pass with any failure is not a
    /// success.
    pub fn all_applied(&self) -> (r: bool)
        ensures
            r == forall|i: int| 0 <= i < self.outcomes().len() ==> #[trigger] self.outcomes()[i].1
                is Applied,
    {
        let mut i: usize = 0;
        while i < self.entries.len()
            invariant
                i <= self.entries@.len(),
                forall|k: int| 0 <= k < i ==> #[trigger] self.outcomes()[k].1 is Applied,
            decreases self.entries@.len() - i,
        {
            match &self.entries[i].outcome {
                ModuleOutcome::Applied => {},
                _ => {
                    assert(!(self.outcomes()[i as int].1 is Applied));
                    return false;
                },
            }
            i = i + 1;
        }
        true
    }
}

} // verus!

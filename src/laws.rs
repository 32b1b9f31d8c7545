use vstd::prelude::*;

use crate::apply::{
    module_plan_spec, pairs_view, planned_modules, plans_view, render_pairs, ApplyPlan,
};
use crate::module::{targets, ModuleDefinition};
use crate::run::{after_write_spec, first_action_spec, ActionModel, OutcomeModel};
use crate::parse::{is_blank, trim_end, trim_start};
use crate::state::{decoded, encoded};
use crate::template::render_spec;

verus! {

/// Rendering is a function of the template and the variables alone: the
/// same pair always gives the same text or the same undefined name.
pub proof fn lemma_render_deterministic(
    t1: Seq<char>,
    v1: Map<Seq<char>, Seq<char>>,
    t2: Seq<char>,
    v2: Map<Seq<char>, Seq<char>>,
)
    requires
        t1 == t2,
        v1 == v2,
    ensures
        render_spec(t1, v1) == render_spec(t2, v2),
{
}

/// A stored theme name reads back as itself, provided it is not empty and
/// has no blanks at either end; the stored form of no theme reads back as no
/// theme.
pub proof fn lemma_state_round_trip(name: Option<Seq<char>>)
    requires
        name matches Some(n) ==> n.len() > 0 && !is_blank(n[0]) && !is_blank(n.last()),
    ensures
        decoded(encoded(name)) == name,
{
    assert(trim_start(Seq::<char>::empty()) == Seq::<char>::empty());
    if let Some(n) = name {
        assert(trim_start(n) == n);
        assert(trim_end(n) == n);
    }
}

/// Without reload a module is never reloaded, yet its outputs are the same
/// as with reload: every step is a write or the end, never a reload.
pub proof fn lemma_no_reload_writes_only(m: ModuleDefinition, vars: Map<Seq<char>, Seq<char>>)
    ensures
        !(first_action_spec(module_plan_spec(m, vars, false)) is Reload),
        forall|i: int, ok: bool|
            !(#[trigger] after_write_spec(module_plan_spec(m, vars, false), i, ok) is Reload),
        module_plan_spec(m, vars, false) is Ready <==> module_plan_spec(m, vars, true) is Ready,
        module_plan_spec(m, vars, false) is Ready ==> module_plan_spec(m, vars, false)->Ready_writes
            == module_plan_spec(m, vars, true)->Ready_writes,
{
}

/// A module whose templates refer to an undefined variable fails alone: its
/// first step ends it with that variable and writes nothing, while every
/// other target's plan is the one it would have on its own.
pub proof fn lemma_render_failure_isolated(
    mods: Seq<ModuleDefinition>,
    filter: Option<Seq<Seq<char>>>,
    vars: Map<Seq<char>, Seq<char>>,
    reload: bool,
    k: int,
)
    requires
        0 <= k < targets(mods, filter, mods.len() as int).len(),
    ensures
        ({
            let m = mods[targets(mods, filter, mods.len() as int)[k]];
            let p = planned_modules(mods, filter, vars, reload)[k];
            &&& p == module_plan_spec(m, vars, reload)
            &&& render_pairs(pairs_view(m.templates@), vars) matches Err(v) ==> first_action_spec(p)
                == ActionModel::Done(OutcomeModel::RenderFailure(v))
            &&& render_pairs(pairs_view(m.templates@), vars) matches Ok(ws) ==> p
                is Ready && p->Ready_writes == ws
        }),
{
}

/// Planning twice from the same theme variables, modules, filter and reload
/// flag gives the same plans, so the files written are identical.
pub proof fn lemma_apply_idempotent(
    p1: ApplyPlan,
    p2: ApplyPlan,
    mods: Seq<ModuleDefinition>,
    filter: Option<Seq<Seq<char>>>,
    vars: Map<Seq<char>, Seq<char>>,
    reload: bool,
)
    requires
        plans_view(p1.modules@) == planned_modules(mods, filter, vars, reload),
        plans_view(p2.modules@) == planned_modules(mods, filter, vars, reload),
    ensures
        plans_view(p1.modules@) == plans_view(p2.modules@),
        forall|k: int|
            0 <= k < p1.modules@.len() && #[trigger] plans_view(p1.modules@)[k] is Ready
                ==> plans_view(p1.modules@)[k]->Ready_writes == plans_view(
                p2.modules@,
            )[k]->Ready_writes,
{
}

} // verus!

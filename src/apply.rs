use vstd::prelude::*;

use crate::module::{
    command_view, filter_view, lemma_targets_bounded, module_names, names_unknown, targets, ModuleDefinition,
    ModuleError, ModuleRegistry, ReloadCommand, TemplatePair,
};
use crate::names::strings_view;
use crate::state::StateStore;
use crate::template::{render, render_spec, RenderError};
use crate::theme::{theme_named, theme_names, ThemeError, ThemeStore};
use crate::vars::Variables;

verus! {

/// The (template text, output path) pairs of a module.
pub open spec fn pairs_view(s: Seq<TemplatePair>) -> Seq<(Seq<char>, Seq<char>)> {
    s.map_values(|p: TemplatePair| (p.template@, p.output@))
}

/// Renders every pair in order, giving (output path, rendered text) for each;
/// the first undefined variable stops it.
pub open spec fn render_pairs(
    p: Seq<(Seq<char>, Seq<char>)>,
    vars: Map<Seq<char>, Seq<char>>,
) -> Result<Seq<(Seq<char>, Seq<char>)>, Seq<char>>
    decreases p.len(),
{
    if p.len() == 0 {
        Ok(Seq::empty())
    } else {
        match render_pairs(p.drop_last(), vars) {
            Err(v) => Err(v),
            Ok(ws) => match render_spec(p.last().0, vars) {
                Err(v) => Err(v),
                Ok(o) => Ok(ws.push((p.last().1, o))),
            },
        }
    }
}

/// Once a prefix of the pairs fails to render, the whole does, on the same
/// variable.
proof fn lemma_render_pairs_prefix_err(
    p: Seq<(Seq<char>, Seq<char>)>,
    vars: Map<Seq<char>, Seq<char>>,
    n: int,
)
    requires
        0 <= n <= p.len(),
        render_pairs(p.take(n), vars) is Err,
    ensures
        render_pairs(p, vars) == render_pairs(p.take(n), vars),
    decreases p.len(),
{
    if n == p.len() {
        assert(p.take(n) =~= p);
    } else {
        assert(p.drop_last().take(n) =~= p.take(n));
        lemma_render_pairs_prefix_err(p.drop_last(), vars, n);
    }
}

/// What applying a theme to one module amounts to, before anything is
/// written.
pub enum PlanModel {
    RenderFailed { module: Seq<char>, variable: Seq<char> },
    Ready {
        module: Seq<char>,
        writes: Seq<(Seq<char>, Seq<char>)>,
        reload: Option<(Seq<char>, Seq<Seq<char>>)>,
    },
}

/// The plan for module `m` under the variables `vars`: its rendered outputs,
/// or the first undefined variable; a reload only when asked for and the
/// module has a command.
pub open spec fn module_plan_spec(
    m: ModuleDefinition,
    vars: Map<Seq<char>, Seq<char>>,
    reload: bool,
) -> PlanModel {
    match render_pairs(pairs_view(m.templates@), vars) {
        Err(v) => PlanModel::RenderFailed { module: m.name@, variable: v },
        Ok(ws) => PlanModel::Ready {
            module: m.name@,
            writes: ws,
            reload: if reload && m.reload is Some {
                Some(command_view(m.reload.unwrap()))
            } else {
                None
            },
        },
    }
}

/// A rendered file and where it goes.
pub struct OutputWrite {
    pub path: String,
    pub contents: String,
}

/// The (path, contents) pairs of a sequence of writes.
pub open spec fn writes_view(s: Seq<OutputWrite>) -> Seq<(Seq<char>, Seq<char>)> {
    s.map_values(|w: OutputWrite| (w.path@, w.contents@))
}

/// The work for one module: nothing but a report when rendering failed, or
/// the files to write and the command to run afterwards.
pub enum ModulePlan {
    RenderFailed { module: String, variable: String },
    Ready { module: String, writes: Vec<OutputWrite>, reload: Option<ReloadCommand> },
}

impl View for ModulePlan {
    type V = PlanModel;

    open spec fn view(&self) -> PlanModel {
        match self {
            ModulePlan::RenderFailed { module, variable } => PlanModel::RenderFailed {
                module: module@,
                variable: variable@,
            },
            ModulePlan::Ready { module, writes, reload } => PlanModel::Ready {
                module: module@,
                writes: writes_view(writes@),
                reload: match reload {
                    Some(c) => Some(command_view(*c)),
                    None => None,
                },
            },
        }
    }
}

/// Plans one module: renders all of its templates against `vars`.
pub fn plan_module(m: &ModuleDefinition, vars: &Variables, reload: bool) -> (r: ModulePlan)
    ensures
        r@ == module_plan_spec(*m, vars@, reload),
{
    let ghost p = pairs_view(m.templates@);
    let mut writes: Vec<OutputWrite> = Vec::new();
    let mut i: usize = 0;
    assert(p.take(0).len() == 0);
    assert(writes_view(writes@) =~= Seq::<(Seq<char>, Seq<char>)>::empty());
    while i < m.templates.len()
        invariant
            p == pairs_view(m.templates@),
            i <= m.templates@.len(),
            render_pairs(p.take(i as int), vars@) == Ok::<_, Seq<char>>(writes_view(writes@)),
        decreases m.templates@.len() - i,
    {
        let pair = &m.templates[i];
        assert(p.take(i + 1).drop_last() =~= p.take(i as int));
        assert(p.take(i + 1).last() == p[i as int]);
        match render(pair.template.as_str(), vars) {
            Ok(contents) => {
                let ghost before = writes@;
                let w = OutputWrite { path: pair.output.clone(), contents };
                writes.push(w);
                assert(writes@ == before.push(w));
                assert(writes_view(writes@) =~= writes_view(before).push((w.path@, w.contents@)));
                i = i + 1;
            },
            Err(RenderError::UndefinedVariable(v)) => {
                proof {
                    lemma_render_pairs_prefix_err(p, vars@, i + 1);
                }
                return ModulePlan::RenderFailed { module: m.name.clone(), variable: v };
            },
        }
    }
    assert(p.take(i as int) =~= p);
    let reload_cmd = if reload {
        match &m.reload {
            Some(c) => Some(c.duplicate()),
            None => None,
        }
    } else {
        None
    };
    ModulePlan::Ready { module: m.name.clone(), writes, reload: reload_cmd }
}


/// Why an apply pass could not start.
pub enum ApplyError {
    /// No theme was requested and none is current.
    NoCurrentTheme,
    /// The theme to apply is not among the usable ones.
    ThemeNotFound(String),
    /// The module filter names a module that is not loaded.
    ModuleNotFound(String),
}

/// The work of one apply pass: the theme used, and one plan per target
/// module, in registry order.
pub struct ApplyPlan {
    pub theme: String,
    pub modules: Vec<ModulePlan>,
}

/// The models of a sequence of module plans.
pub open spec fn plans_view(s: Seq<ModulePlan>) -> Seq<PlanModel> {
    s.map_values(|p: ModulePlan| p@)
}

/// A requested name as a sequence of characters.
pub open spec fn name_view(o: Option<&String>) -> Option<Seq<char>> {
    match o {
        Some(s) => Some(s@),
        None => None,
    }
}

/// The theme to apply: the requested one, else the current one.
pub open spec fn chosen_theme(current: Option<Seq<char>>, requested: Option<Seq<char>>) -> Option<
    Seq<char>,
> {
    match requested {
        Some(n) => Some(n),
        None => current,
    }
}

/// The plans of the target modules, in registry order.
pub open spec fn planned_modules(
    mods: Seq<ModuleDefinition>,
    filter: Option<Seq<Seq<char>>>,
    vars: Map<Seq<char>, Seq<char>>,
    reload: bool,
) -> Seq<PlanModel> {
    let t = targets(mods, filter, mods.len() as int);
    Seq::new(t.len(), |k: int| module_plan_spec(mods[t[k]], vars, reload))
}

/// Resolves the theme and the target modules, then plans every target.
///
/// Resolution comes first and is all or nothing: a missing theme or an
/// unknown module in the filter gives an error and no plan at all, so
/// nothing is written or reloaded. A module whose templates do not render
/// gets a failed plan of its own and does not affect the others.
pub fn plan_apply(
    themes: &ThemeStore,
    registry: &ModuleRegistry,
    state: &StateStore,
    theme: Option<&String>,
    reload: bool,
    filter: Option<&Vec<String>>,
) -> (r: Result<ApplyPlan, ApplyError>)
    ensures
        (r matches Err(ApplyError::NoCurrentTheme)) <==> chosen_theme(
            state.current_name(),
            name_view(theme),
        ) is None,
        (r is Err && r->Err_0 is ThemeNotFound) <==> ({
            let c = chosen_theme(state.current_name(), name_view(theme));
            c is Some && !theme_names(themes.themes()).contains(c.unwrap())
        }),
        r matches Err(ApplyError::ThemeNotFound(n)) ==> chosen_theme(
            state.current_name(),
            name_view(theme),
        ) == Some(n@),
        r matches Err(ApplyError::ModuleNotFound(n)) ==> filter_view(filter).unwrap().contains(n@)
            && !module_names(registry.modules()).contains(n@) && theme_names(
            themes.themes(),
        ).contains(chosen_theme(state.current_name(), name_view(theme)).unwrap()),
        r is Ok <==> ({
            let c = chosen_theme(state.current_name(), name_view(theme));
            &&& c is Some
            &&& theme_names(themes.themes()).contains(c.unwrap())
            &&& !names_unknown(registry.modules(), filter_view(filter))
        }),
        r matches Ok(p) ==> ({
            let c = chosen_theme(state.current_name(), name_view(theme)).unwrap();
            &&& p.theme@ == c
            &&& plans_view(p.modules@) == planned_modules(
                registry.modules(),
                filter_view(filter),
                theme_named(themes.themes(), c).unwrap().variables@,
                reload,
            )
        }),
{
    let chosen: String = match theme {
        Some(n) => n.clone(),
        None => match state.get() {
            Some(n) => n,
            None => {
                return Err(ApplyError::NoCurrentTheme);
            },
        },
    };
    let t = match themes.get(&chosen) {
        Ok(t) => t,
        Err(ThemeError::NotFound(n)) => {
            return Err(ApplyError::ThemeNotFound(n));
        },
    };
    let ix = match registry.resolve(filter) {
        Ok(ix) => ix,
        Err(ModuleError::NotFound(n)) => {
            return Err(ApplyError::ModuleNotFound(n));
        },
    };
    let ghost mods = registry.modules();
    let ghost tg = targets(mods, filter_view(filter), mods.len() as int);
    let ghost want = planned_modules(mods, filter_view(filter), t.variables@, reload);
    proof {
        lemma_targets_bounded(mods, filter_view(filter), mods.len() as int);
    }
    let mut plans: Vec<ModulePlan> = Vec::new();
    let mut k: usize = 0;
    while k < ix.len()
        invariant
            mods == registry.modules(),
            tg == targets(mods, filter_view(filter), mods.len() as int),
            want == planned_modules(mods, filter_view(filter), t.variables@, reload),
            ix@.len() == tg.len(),
            forall|j: int| 0 <= j < ix@.len() ==> ix@[j] as int == #[trigger] tg[j],
            forall|j: int| 0 <= j < tg.len() ==> 0 <= #[trigger] tg[j] < mods.len(),
            k <= ix@.len(),
            plans_view(plans@) == want.take(k as int),
        decreases ix@.len() - k,
    {
        assert(tg[k as int] == ix@[k as int] as int);
        let m = registry.module_at(ix[k]);
        let ghost before = plans@;
        let p = plan_module(m, &t.variables, reload);
        plans.push(p);
        assert(plans@ == before.push(p));
        assert(plans_view(plans@) =~= plans_view(before).push(p@));
        k = k + 1;
        assert(plans_view(plans@) =~= want.take(k as int));
    }
    assert(want.take(k as int) =~= want);
    Ok(ApplyPlan { theme: chosen, modules: plans })
}

} // verus!

use vstd::prelude::*;

use crate::names::{all_distinct, contains_name, find_duplicate, strings_view};
use crate::theme::LoadError;

verus! {

/// A program to run, with its arguments in order.
pub struct ReloadCommand {
    pub program: String,
    pub args: Vec<String>,
}

/// A command as sequences of characters: program, then arguments.
pub open spec fn command_view(c: ReloadCommand) -> (Seq<char>, Seq<Seq<char>>) {
    (c.program@, strings_view(c.args@))
}

impl ReloadCommand {
    /// A copy of the command.
    pub fn duplicate(&self) -> (r: ReloadCommand)
        ensures
            command_view(r) == command_view(*self),
    {
        let mut args: Vec<String> = Vec::new();
        let mut i: usize = 0;
        while i < self.args.len()
            invariant
                i <= self.args@.len(),
                strings_view(args@) == strings_view(self.args@).take(i as int),
            decreases self.args@.len() - i,
        {
            let ghost before = args@;
            let a = self.args[i].clone();
            args.push(a);
            assert(args@ == before.push(a));
            assert(strings_view(args@) =~= strings_view(before).push(a@));
            i = i + 1;
            assert(strings_view(args@) =~= strings_view(self.args@).take(i as int));
        }
        assert(strings_view(self.args@).take(i as int) =~= strings_view(self.args@));
        ReloadCommand { program: self.program.clone(), args }
    }
}

/// One template of a module and the file its rendering is written to.
pub struct TemplatePair {
    /// The template text.
    pub template: String,
    /// Where the rendered text goes.
    pub output: String,
}

/// A desktop component that consumes rendered templates.
pub struct ModuleDefinition {
    pub name: String,
    pub templates: Vec<TemplatePair>,
    /// Run after the outputs were written, to pick up the change.
    pub reload: Option<ReloadCommand>,
    /// Whether the module belongs to the default set.
    pub active: bool,
}

/// A requested module is not among the loaded ones.
pub enum ModuleError {
    NotFound(String),
}

/// The names of a sequence of modules, in order.
pub open spec fn module_names(s: Seq<ModuleDefinition>) -> Seq<Seq<char>> {
    s.map_values(|m: ModuleDefinition| m.name@)
}

/// The filter as sequences of characters.
pub open spec fn filter_view(filter: Option<&Vec<String>>) -> Option<Seq<Seq<char>>> {
    match filter {
        Some(f) => Some(strings_view(f@)),
        None => None,
    }
}

/// A module is a target: it is active, and named by the filter if there is
/// one.
pub open spec fn is_target(m: ModuleDefinition, filter: Option<Seq<Seq<char>>>) -> bool {
    m.active && match filter {
        Some(f) => f.contains(m.name@),
        None => true,
    }
}

/// The positions, among the first `n` modules, of the targets, in order.
pub open spec fn targets(s: Seq<ModuleDefinition>, filter: Option<Seq<Seq<char>>>, n: int) -> Seq<
    int,
>
    decreases n,
{
    if n <= 0 {
        Seq::empty()
    } else if is_target(s[n - 1], filter) {
        targets(s, filter, n - 1).push(n - 1)
    } else {
        targets(s, filter, n - 1)
    }
}

/// Every target position lies among the first `n` modules.
pub proof fn lemma_targets_bounded(s: Seq<ModuleDefinition>, filter: Option<Seq<Seq<char>>>, n: int)
    ensures
        forall|k: int|
            0 <= k < targets(s, filter, n).len() ==> 0 <= #[trigger] targets(s, filter, n)[k] < n,
    decreases n,
{
    if n > 0 {
        lemma_targets_bounded(s, filter, n - 1);
        let prev = targets(s, filter, n - 1);
        assert forall|k: int| 0 <= k < targets(s, filter, n).len() implies 0 <= #[trigger] targets(
            s,
            filter,
            n,
        )[k] < n by {
            if k < prev.len() {
                assert(targets(s, filter, n)[k] == prev[k]);
            }
        }
    }
}

/// The filter names a module that is not loaded.
pub open spec fn names_unknown(s: Seq<ModuleDefinition>, filter: Option<Seq<Seq<char>>>) -> bool {
    match filter {
        Some(f) => exists|k: int| 0 <= k < f.len() && !module_names(s).contains(#[trigger] f[k]),
        None => false,
    }
}

/// The module definitions of one invocation, with unique names.
pub struct ModuleRegistry {
    modules: Vec<ModuleDefinition>,
}

impl ModuleRegistry {
    /// Module names never repeat.
    #[verifier::type_invariant]
    spec fn wf(self) -> bool {
        all_distinct(module_names(self.modules@))
    }

    /// The modules, in discovery order.
    pub closed spec fn modules(&self) -> Seq<ModuleDefinition> {
        self.modules@
    }

    /// The names of the modules, in discovery order.
    pub fn list(&self) -> (r: Vec<String>)
        ensures
            strings_view(r@) == module_names(self.modules()),
            all_distinct(strings_view(r@)),
    {
        proof {
            use_type_invariant(self);
        }
        let mut r: Vec<String> = Vec::new();
        let mut i: usize = 0;
        while i < self.modules.len()
            invariant
                i <= self.modules@.len(),
                strings_view(r@) == module_names(self.modules@).take(i as int),
            decreases self.modules@.len() - i,
        {
            let ghost before = r@;
            let n = self.modules[i].name.clone();
            r.push(n);
            assert(r@ == before.push(n));
            assert(strings_view(r@) =~= strings_view(before).push(n@));
            i = i + 1;
            assert(strings_view(r@) =~= module_names(self.modules@).take(i as int));
        }
        assert(module_names(self.modules@).take(i as int) =~= module_names(self.modules@));
        r
    }

    /// Builds the registry. Two modules with one name make the whole load
    /// fail, and neither is chosen.
    pub fn load(modules: Vec<ModuleDefinition>) -> (r: Result<ModuleRegistry, LoadError>)
        ensures
            r is Ok <==> all_distinct(module_names(modules@)),
            r matches Ok(reg) ==> reg.modules() == modules@,
            r matches Err(LoadError::DuplicateName(n)) ==> exists|i: int, j: int|
                0 <= i < j < modules@.len() && modules@[i].name@ == n@ && modules@[j].name@
                    == n@,
    {
        let mut names: Vec<String> = Vec::new();
        let mut i: usize = 0;
        while i < modules.len()
            invariant
                i <= modules@.len(),
                strings_view(names@) == module_names(modules@).take(i as int),
            decreases modules@.len() - i,
        {
            let ghost before = names@;
            let n = modules[i].name.clone();
            names.push(n);
            assert(names@ == before.push(n));
            assert(strings_view(names@) =~= strings_view(before).push(n@));
            i = i + 1;
            assert(strings_view(names@) =~= module_names(modules@).take(i as int));
        }
        assert(module_names(modules@).take(i as int) =~= module_names(modules@));
        match find_duplicate(&names) {
            Some(n) => {
                proof {
                    let (i, j) = choose|i: int, j: int|
                        0 <= i < j < names@.len() && names@[i]@ == n@ && names@[j]@ == n@;
                    assert(strings_view(names@)[i] == module_names(modules@)[i]);
                    assert(strings_view(names@)[j] == module_names(modules@)[j]);
                }
                Err(LoadError::DuplicateName(n))
            },
            None => Ok(ModuleRegistry { modules }),
        }
    }

    /// The module at position `i`.
    pub fn module_at(&self, i: usize) -> (r: &ModuleDefinition)
        requires
            i < self.modules().len(),
        ensures
            *r == self.modules()[i as int],
    {
        &self.modules[i]
    }

    /// The position of the module named `name`, if any.
    fn position(&self, name: &String) -> (r: Option<usize>)
        ensures
            r is Some <==> module_names(self.modules()).contains(name@),
            r matches Some(i) ==> i < self.modules().len() && self.modules()[i as int].name@
                == name@,
    {
        let mut i: usize = 0;
        while i < self.modules.len()
            invariant
                i <= self.modules@.len(),
                forall|k: int| 0 <= k < i ==> self.modules@[k].name@ != name@,
            decreases self.modules@.len() - i,
        {
            if self.modules[i].name == *name {
                assert(module_names(self.modules@)[i as int] == name@);
                return Some(i);
            }
            i = i + 1;
        }
        proof {
            if module_names(self.modules@).contains(name@) {
                let k = choose|k: int|
                    0 <= k < module_names(self.modules@).len() && module_names(self.modules@)[k]
                        == name@;
                assert(self.modules@[k].name@ == name@);
            }
        }
        None
    }

    /// The module named `name`.
    pub fn get(&self, name: &String) -> (r: Result<&ModuleDefinition, ModuleError>)
        ensures
            r is Ok <==> module_names(self.modules()).contains(name@),
            r matches Ok(m) ==> exists|i: int|
                0 <= i < self.modules().len() && self.modules()[i] == *m && m.name@ == name@,
            r matches Err(ModuleError::NotFound(n)) ==> n@ == name@,
    {
        match self.position(name) {
            Some(i) => Ok(&self.modules[i]),
            None => Err(ModuleError::NotFound(name.clone())),
        }
    }

    /// The default set: the positions of the active modules, in order.
    pub fn active_modules(&self) -> (r: Vec<usize>)
        ensures
            r@.len() == targets(self.modules(), None, self.modules().len() as int).len(),
            forall|k: int|
                0 <= k < r@.len() ==> r@[k] as int == #[trigger] targets(
                    self.modules(),
                    None,
                    self.modules().len() as int,
                )[k],
    {
        match self.resolve(None) {
            Ok(ix) => ix,
            Err(_) => Vec::new(),
        }
    }

    /// The modules to work on, by position: the active ones, narrowed to
    /// those the filter names when there is a filter. A filter that names
    /// an unknown module is refused as a whole.
    pub fn resolve(&self, filter: Option<&Vec<String>>) -> (r: Result<Vec<usize>, ModuleError>)
        ensures
            r is Err <==> names_unknown(self.modules(), filter_view(filter)),
            r matches Err(ModuleError::NotFound(n)) ==> filter_view(filter).unwrap().contains(n@)
                && !module_names(self.modules()).contains(n@),
            r matches Ok(ix) ==> ix@.len() == targets(
                self.modules(),
                filter_view(filter),
                self.modules().len() as int,
            ).len() && forall|k: int|
                0 <= k < ix@.len() ==> ix@[k] as int == #[trigger] targets(
                    self.modules(),
                    filter_view(filter),
                    self.modules().len() as int,
                )[k],
    {
        let ghost fv = filter_view(filter);
        if let Some(f) = filter {
            let mut k: usize = 0;
            while k < f.len()
                invariant
                    filter == Some(f),
                    fv == Some(strings_view(f@)),
                    k <= f@.len(),
                    forall|a: int|
                        0 <= a < k ==> module_names(self.modules()).contains(
                            #[trigger] strings_view(f@)[a],
                        ),
                decreases f@.len() - k,
            {
                if self.position(&f[k]).is_none() {
                    assert(strings_view(f@)[k as int] == f@[k as int]@);
                    assert(!module_names(self.modules()).contains(strings_view(f@)[k as int]));
                    assert(0 <= k < strings_view(f@).len());
                    assert(names_unknown(self.modules(), fv)) by {
                        let fs = strings_view(f@);
                        assert(0 <= k < fs.len() && !module_names(self.modules()).contains(
                            fs[k as int],
                        ));
                    }
                    return Err(ModuleError::NotFound(f[k].clone()));
                }
                k = k + 1;
            }
        }
        let mut r: Vec<usize> = Vec::new();
        let mut i: usize = 0;
        while i < self.modules.len()
            invariant
                fv == filter_view(filter),
                !names_unknown(self.modules(), fv),
                i <= self.modules@.len(),
                r@.len() == targets(self.modules@, fv, i as int).len(),
                forall|k: int|
                    0 <= k < r@.len() ==> r@[k] as int == #[trigger] targets(
                        self.modules@,
                        fv,
                        i as int,
                    )[k],
            decreases self.modules@.len() - i,
        {
            let m = &self.modules[i];
            let wanted = match filter {
                Some(f) => contains_name(f, &m.name),
                None => true,
            };
            if m.active && wanted {
                r.push(i);
            }
            i = i + 1;
        }
        Ok(r)
    }
}

} // verus!

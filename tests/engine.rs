use niji::apply::{plan_apply, plan_module, ApplyError, ModulePlan};
use niji::commands::{cmd_theme_get, cmd_theme_unset};
use niji::module::{ModuleDefinition, ModuleError, ModuleRegistry, ReloadCommand, TemplatePair};
use niji::names::{contains_name, find_duplicate};
use niji::parse::ParseFault;
use niji::run::{after_reload, after_write, first_action, Action, ApplyReport, ModuleOutcome};
use niji::state::StateStore;
use niji::template::{render, RenderError};
use niji::theme::{LoadError, ParseError, Theme, ThemeError, ThemeStore};
use niji::vars::Variables;

fn s(x: &str) -> String {
    x.to_string()
}

fn vars(pairs: &[(&str, &str)]) -> Variables {
    let mut v = Variables::new();
    for (k, val) in pairs {
        assert!(v.insert(s(k), s(val)));
    }
    v
}

fn theme(name: &str, pairs: &[(&str, &str)]) -> Theme {
    Theme { name: s(name), variables: vars(pairs) }
}

fn module(name: &str, pairs: &[(&str, &str)], reload: bool) -> ModuleDefinition {
    ModuleDefinition {
        name: s(name),
        templates: pairs
            .iter()
            .map(|(t, o)| TemplatePair { template: s(t), output: s(o) })
            .collect(),
        reload: if reload {
            Some(ReloadCommand { program: s("reload"), args: vec![s(name)] })
        } else {
            None
        },
        active: true,
    }
}

fn store() -> ThemeStore {
    match ThemeStore::load(
        vec![theme("dark", &[("bg", "#000000"), ("fg", "#ffffff")]), theme("light", &[("bg", "#fafafa")])],
        vec![],
    ) {
        Ok(st) => st,
        Err(_) => panic!("unexpected duplicate"),
    }
}

fn rendered(t: &str, v: &Variables) -> Result<String, String> {
    match render(t, v) {
        Ok(out) => Ok(out),
        Err(RenderError::UndefinedVariable(n)) => Err(n),
    }
}

fn writes_of(p: &ModulePlan) -> Vec<(String, String)> {
    match p {
        ModulePlan::Ready { writes, .. } => {
            writes.iter().map(|w| (w.path.clone(), w.contents.clone())).collect()
        }
        ModulePlan::RenderFailed { .. } => panic!("expected a ready plan"),
    }
}

#[test]
fn variables_insert_get_and_duplicates() {
    let mut v = Variables::new();
    assert!(v.insert(s("a"), s("1")));
    assert!(!v.insert(s("a"), s("2")));
    assert_eq!(v.get(&s("a")).cloned(), Some(s("1")));
    assert_eq!(v.get(&s("b")), None);
}

#[test]
fn render_substitutes_references() {
    let v = vars(&[("bg", "#000000"), ("fg", "#ffffff")]);
    assert_eq!(rendered("background={{bg}};fg={{fg}}", &v), Ok(s("background=#000000;fg=#ffffff")));
}

#[test]
fn render_passes_other_syntax_through() {
    let v = vars(&[("bg", "black")]);
    assert_eq!(rendered("{ {{}} {{ bg }} {{bg} {bg}} {{bg}}}", &v), Ok(s("{ {{}} {{ bg }} {{bg} {bg}} black}")));
    assert_eq!(rendered("", &v), Ok(s("")));
    assert_eq!(rendered("plain text", &v), Ok(s("plain text")));
}

#[test]
fn render_reports_first_undefined_variable() {
    let v = vars(&[("bg", "black")]);
    assert_eq!(rendered("{{bg}} {{missing}} {{other}}", &v), Err(s("missing")));
}

#[test]
fn render_is_deterministic_and_leaves_variables_alone() {
    let v = vars(&[("x", "1")]);
    let a = rendered("a{{x}}b", &v);
    let b = rendered("a{{x}}b", &v);
    assert_eq!(a, b);
    assert_eq!(a, Ok(s("a1b")));
    assert_eq!(v.get(&s("x")).cloned(), Some(s("1")));
}

#[test]
fn render_handles_unicode() {
    let v = vars(&[("name", "ünï")]);
    assert_eq!(rendered("→{{name}}←", &v), Ok(s("→ünï←")));
}

#[test]
fn theme_store_lists_unique_names() {
    let st = store();
    assert_eq!(st.list(), vec![s("dark"), s("light")]);
    assert!(!st.is_empty());
}

#[test]
fn theme_store_rejects_duplicate_names() {
    let r = ThemeStore::load(vec![theme("a", &[]), theme("b", &[]), theme("a", &[])], vec![]);
    match r {
        Err(LoadError::DuplicateName(n)) => assert_eq!(n, s("a")),
        Ok(_) => panic!("duplicates accepted"),
    }
}

#[test]
fn theme_store_keeps_malformed_sources_apart() {
    let st = match ThemeStore::load(
        vec![theme("ok", &[])],
        vec![ParseError { location: s("bad.theme"), fault: ParseFault::MalformedLine(1) }],
    ) {
        Ok(st) => st,
        Err(_) => panic!("load failed"),
    };
    assert_eq!(st.list(), vec![s("ok")]);
    assert_eq!(st.malformed().len(), 1);
    assert_eq!(st.malformed()[0].location, s("bad.theme"));
}

#[test]
fn theme_store_empty() {
    let st = match ThemeStore::load(vec![], vec![]) {
        Ok(st) => st,
        Err(_) => panic!("load failed"),
    };
    assert!(st.is_empty());
    assert!(st.list().is_empty());
}

#[test]
fn theme_store_get() {
    let st = store();
    match st.get(&s("light")) {
        Ok(t) => assert_eq!(t.name, s("light")),
        Err(_) => panic!("not found"),
    }
    match st.get(&s("nope")) {
        Err(ThemeError::NotFound(n)) => assert_eq!(n, s("nope")),
        Ok(_) => panic!("found a missing theme"),
    }
}

#[test]
fn module_registry_rejects_duplicates() {
    let r = ModuleRegistry::load(vec![module("kitty", &[], false), module("kitty", &[], true)]);
    assert!(matches!(r, Err(LoadError::DuplicateName(ref n)) if n == "kitty"));
}

#[test]
fn module_registry_get_and_resolve() {
    let mut waybar = module("waybar", &[], false);
    waybar.active = false;
    let reg = match ModuleRegistry::load(vec![module("kitty", &[], false), waybar, module("sway", &[], false)]) {
        Ok(r) => r,
        Err(_) => panic!("load failed"),
    };
    assert_eq!(reg.list(), vec![s("kitty"), s("waybar"), s("sway")]);
    assert!(reg.get(&s("sway")).is_ok());
    assert!(matches!(reg.get(&s("x")), Err(ModuleError::NotFound(ref n)) if n == "x"));
    assert_eq!(reg.resolve(None).ok(), Some(vec![0, 2]));
    let f = vec![s("sway"), s("waybar")];
    assert_eq!(reg.resolve(Some(&f)).ok(), Some(vec![2]));
    let bad = vec![s("sway"), s("unknown")];
    assert!(matches!(reg.resolve(Some(&bad)), Err(ModuleError::NotFound(ref n)) if n == "unknown"));
}

#[test]
fn state_store_set_get_unset() {
    let mut st = StateStore::new();
    assert_eq!(st.get(), None);
    st.set(s("dark"));
    assert_eq!(st.get(), Some(s("dark")));
    st.set(s("light"));
    assert_eq!(cmd_theme_get(&st), Some(s("light")));
    st.unset();
    assert_eq!(st.get(), None);
    let st2 = StateStore::from_persisted(Some(s("dark")));
    assert_eq!(st2.get(), Some(s("dark")));
}

#[test]
fn theme_unset_clears_only_the_reference() {
    let themes = store();
    let reg = match ModuleRegistry::load(vec![module("kitty", &[("c={{bg}}", "/out/kitty")], false)]) {
        Ok(r) => r,
        Err(_) => panic!("load failed"),
    };
    let mut st = StateStore::from_persisted(Some(s("dark")));
    let before = match plan_apply(&themes, &reg, &st, None, true, None) {
        Ok(p) => writes_of(&p.modules[0]),
        Err(_) => panic!("plan failed"),
    };
    cmd_theme_unset(&mut st);
    assert_eq!(st.get(), None);
    assert!(matches!(plan_apply(&themes, &reg, &st, None, true, None), Err(ApplyError::NoCurrentTheme)));
    let again = match plan_apply(&themes, &reg, &st, Some(&s("dark")), true, None) {
        Ok(p) => writes_of(&p.modules[0]),
        Err(_) => panic!("plan failed"),
    };
    assert_eq!(before, again);
}

#[test]
fn apply_unknown_module_plans_nothing() {
    let themes = store();
    let reg = match ModuleRegistry::load(vec![module("known", &[("x={{bg}}", "/out/known")], true)]) {
        Ok(r) => r,
        Err(_) => panic!("load failed"),
    };
    let st = StateStore::from_persisted(Some(s("dark")));
    let f = vec![s("known"), s("unknown")];
    match plan_apply(&themes, &reg, &st, None, true, Some(&f)) {
        Err(ApplyError::ModuleNotFound(n)) => assert_eq!(n, s("unknown")),
        _ => panic!("expected ModuleNotFound"),
    }
}

#[test]
fn apply_without_theme_or_with_unknown_theme() {
    let themes = store();
    let reg = match ModuleRegistry::load(vec![]) {
        Ok(r) => r,
        Err(_) => panic!("load failed"),
    };
    let st = StateStore::new();
    assert!(matches!(plan_apply(&themes, &reg, &st, None, true, None), Err(ApplyError::NoCurrentTheme)));
    let st = StateStore::from_persisted(Some(s("missing")));
    assert!(matches!(plan_apply(&themes, &reg, &st, None, true, None), Err(ApplyError::ThemeNotFound(ref n)) if n == "missing"));
    match plan_apply(&themes, &reg, &st, Some(&s("light")), true, None) {
        Ok(p) => {
            assert_eq!(p.theme, s("light"));
            assert!(p.modules.is_empty());
        }
        Err(_) => panic!("override not used"),
    }
}

#[test]
fn apply_without_reload_still_writes() {
    let themes = store();
    let reg = match ModuleRegistry::load(vec![module("kitty", &[("bg={{bg}}", "/out/kitty.conf")], true)]) {
        Ok(r) => r,
        Err(_) => panic!("load failed"),
    };
    let st = StateStore::from_persisted(Some(s("dark")));
    let p = match plan_apply(&themes, &reg, &st, None, false, None) {
        Ok(p) => p,
        Err(_) => panic!("plan failed"),
    };
    assert_eq!(writes_of(&p.modules[0]), vec![(s("/out/kitty.conf"), s("bg=#000000"))]);
    assert!(matches!(first_action(&p.modules[0]), Action::Write(0)));
    assert!(matches!(after_write(&p.modules[0], 0, true), Action::Done(ModuleOutcome::Applied)));
    let p = match plan_apply(&themes, &reg, &st, None, true, None) {
        Ok(p) => p,
        Err(_) => panic!("plan failed"),
    };
    assert!(matches!(after_write(&p.modules[0], 0, true), Action::Reload));
}

#[test]
fn render_failure_isolated_to_its_module() {
    let themes = store();
    let reg = match ModuleRegistry::load(vec![
        module("a", &[("fg={{fg}}", "/out/a")], true),
        module("b", &[("ok={{bg}}", "/out/b1"), ("x={{undefined}}", "/out/b2")], true),
    ]) {
        Ok(r) => r,
        Err(_) => panic!("load failed"),
    };
    let st = StateStore::from_persisted(Some(s("dark")));
    let p = match plan_apply(&themes, &reg, &st, None, true, None) {
        Ok(p) => p,
        Err(_) => panic!("plan failed"),
    };
    assert_eq!(p.modules.len(), 2);
    assert_eq!(writes_of(&p.modules[0]), vec![(s("/out/a"), s("fg=#ffffff"))]);
    assert!(matches!(after_write(&p.modules[0], 0, true), Action::Reload));
    assert!(matches!(after_reload(true), Action::Done(ModuleOutcome::Applied)));
    match &p.modules[1] {
        ModulePlan::RenderFailed { module, variable } => {
            assert_eq!(module, "b");
            assert_eq!(variable, "undefined");
        }
        _ => panic!("expected a render failure"),
    }
    match first_action(&p.modules[1]) {
        Action::Done(ModuleOutcome::RenderFailure(v)) => assert_eq!(v, s("undefined")),
        _ => panic!("a failed module must not write"),
    }
}

#[test]
fn apply_twice_gives_identical_outputs() {
    let themes = store();
    let reg = match ModuleRegistry::load(vec![module("m", &[("{{bg}}/{{fg}}", "/o1"), ("{{fg}}", "/o2")], false)]) {
        Ok(r) => r,
        Err(_) => panic!("load failed"),
    };
    let st = StateStore::from_persisted(Some(s("dark")));
    let a = plan_apply(&themes, &reg, &st, None, true, None).ok().unwrap();
    let b = plan_apply(&themes, &reg, &st, None, true, None).ok().unwrap();
    assert_eq!(writes_of(&a.modules[0]), writes_of(&b.modules[0]));
    assert_eq!(writes_of(&a.modules[0]), vec![(s("/o1"), s("#000000/#ffffff")), (s("/o2"), s("#ffffff"))]);
}

#[test]
fn write_and_reload_failures() {
    let v = vars(&[("bg", "0")]);
    let m = module("m", &[("{{bg}}", "/o1"), ("{{bg}}", "/o2")], true);
    let p = plan_module(&m, &v, true);
    assert!(matches!(first_action(&p), Action::Write(0)));
    assert!(matches!(after_write(&p, 0, true), Action::Write(1)));
    match after_write(&p, 1, false) {
        Action::Done(ModuleOutcome::WriteFailure(path)) => assert_eq!(path, s("/o2")),
        _ => panic!("expected a write failure"),
    }
    assert!(matches!(after_reload(false), Action::Done(ModuleOutcome::ReloadFailure)));
    let empty = plan_module(&module("e", &[], true), &v, true);
    assert!(matches!(first_action(&empty), Action::Reload));
    let quiet = plan_module(&module("q", &[], false), &v, true);
    assert!(matches!(first_action(&quiet), Action::Done(ModuleOutcome::Applied)));
}

#[test]
fn report_success_and_failure() {
    let mut r = ApplyReport::new();
    assert!(r.all_applied());
    r.record(s("a"), ModuleOutcome::Applied);
    assert!(r.all_applied());
    r.record(s("b"), ModuleOutcome::ReloadFailure);
    assert!(!r.all_applied());
    assert_eq!(r.entries().len(), 2);
    assert_eq!(r.entries()[1].module, s("b"));
}

#[test]
fn name_helpers() {
    let v = vec![s("a"), s("b"), s("a")];
    assert_eq!(find_duplicate(&v), Some(s("a")));
    assert_eq!(find_duplicate(&vec![s("a"), s("b")]), None);
    assert!(contains_name(&v, &s("b")));
    assert!(!contains_name(&v, &s("c")));
}

#[test]
fn reload_command_duplicate() {
    let c = ReloadCommand { program: s("swaymsg"), args: vec![s("reload"), s("-q")] };
    let d = c.duplicate();
    assert_eq!(d.program, c.program);
    assert_eq!(d.args, c.args);
}

#[test]
fn module_registry_active_modules() {
    let mut off = module("off", &[], false);
    off.active = false;
    let reg = match ModuleRegistry::load(vec![off, module("on", &[], false)]) {
        Ok(r) => r,
        Err(_) => panic!("load failed"),
    };
    assert_eq!(reg.active_modules(), vec![1]);
}

#[test]
fn state_store_encode_decode() {
    let mut st = StateStore::new();
    assert_eq!(st.encode(), s(""));
    assert_eq!(StateStore::decode(&st.encode()).get(), None);
    st.set(s("gruvbox dark"));
    assert_eq!(st.encode(), s("gruvbox dark"));
    assert_eq!(StateStore::decode(&st.encode()).get(), Some(s("gruvbox dark")));
    assert_eq!(StateStore::decode("  nord\n").get(), Some(s("nord")));
    assert_eq!(StateStore::decode(" \t\r ").get(), None);
}

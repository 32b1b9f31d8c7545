use vstd::prelude::*;

use crate::template::{is_name_char, is_name_char_exec};
use crate::module::{command_view, ModuleDefinition, ReloadCommand, TemplatePair};
use crate::names::strings_view;
use crate::theme::{ParseError, Theme};
use crate::vars::Variables;

verus! {

/// Space that surrounds keys, values and names.
pub open spec fn is_blank(c: char) -> bool {
    c == ' ' || c == '\t' || c == '\r' || c == '\n'
}

/// `s` without its leading blanks.
pub open spec fn trim_start(s: Seq<char>) -> Seq<char>
    decreases s.len(),
{
    if s.len() > 0 && is_blank(s[0]) {
        trim_start(s.drop_first())
    } else {
        s
    }
}

/// `s` without its trailing blanks.
pub open spec fn trim_end(s: Seq<char>) -> Seq<char>
    decreases s.len(),
{
    if s.len() > 0 && is_blank(s.last()) {
        trim_end(s.drop_last())
    } else {
        s
    }
}

/// `s` without blanks at either end.
pub open spec fn trim(s: Seq<char>) -> Seq<char> {
    trim_end(trim_start(s))
}

/// The first position at or after `i` that holds `c`, or the length.
pub open spec fn find_char(s: Seq<char>, c: char, i: int) -> int
    decreases s.len() - i,
{
    if i < 0 || i >= s.len() {
        s.len() as int
    } else if s[i] == c {
        i
    } else {
        find_char(s, c, i + 1)
    }
}

/// Every character may appear in a name, and there is at least one.
pub open spec fn is_name(s: Seq<char>) -> bool {
    s.len() > 0 && forall|k: int| 0 <= k < s.len() ==> is_name_char(#[trigger] s[k])
}

/// What one line of a source holds.
pub enum LineModel {
    /// A blank line or a comment.
    Skip,
    /// `key = value`.
    Entry(Seq<char>, Seq<char>),
    /// Anything else.
    Bad,
}

/// The meaning of one line: blank or `#` comment lines are skipped; else
/// the line is a name, `=`, and a value, with blanks around each ignored.
pub open spec fn line_spec(l: Seq<char>) -> LineModel {
    let tl = trim(l);
    if tl.len() == 0 || tl[0] == '#' {
        LineModel::Skip
    } else {
        let e = find_char(tl, '=', 0);
        if e >= tl.len() {
            LineModel::Bad
        } else {
            let key = trim(tl.subrange(0, e));
            if is_name(key) {
                LineModel::Entry(key, trim(tl.subrange(e + 1, tl.len() as int)))
            } else {
                LineModel::Bad
            }
        }
    }
}

/// The entries of the lines from position `i` on, `line` being the number of
/// the line that starts there; the error is the number of the first line
/// that is neither an entry nor skipped.
pub open spec fn entries_from(t: Seq<char>, i: int, line: nat) -> Result<
    Seq<(Seq<char>, Seq<char>)>,
    nat,
>
    decreases t.len() + 1 - i,
    via entries_from_decreases
{
    if i < 0 || i > t.len() {
        Ok(Seq::empty())
    } else {
        let e = find_char(t, '\n', i);
        match line_spec(t.subrange(i, e)) {
            LineModel::Bad => Err(line),
            LineModel::Skip => entries_from(t, e + 1, line + 1),
            LineModel::Entry(k, v) => match entries_from(t, e + 1, line + 1) {
                Ok(rest) => Ok(seq![(k, v)] + rest),
                Err(n) => Err(n),
            },
        }
    }
}

#[via_fn]
proof fn entries_from_decreases(t: Seq<char>, i: int, line: nat) {
    if 0 <= i <= t.len() {
        lemma_find_char_bounds(t, '\n', i);
    }
}

/// A search from `i` ends between `i` and the length.
proof fn lemma_find_char_bounds(s: Seq<char>, c: char, i: int)
    requires
        0 <= i <= s.len(),
    ensures
        i <= find_char(s, c, i) <= s.len(),
    decreases s.len() - i,
{
    if i < s.len() {
        lemma_find_char_bounds(s, c, i + 1);
    }
}

/// The entries of a whole source, in order; lines are numbered from one.
pub open spec fn entries_spec(t: Seq<char>) -> Result<Seq<(Seq<char>, Seq<char>)>, nat> {
    entries_from(t, 0, 1)
}

/// Removes blanks at both ends of `s[a..b]`.
pub(crate) fn trim_range(s: &str, a: usize, b: usize) -> (r: (usize, usize))
    requires
        a <= b <= s@.len(),
    ensures
        a <= r.0 <= r.1 <= b,
        s@.subrange(r.0 as int, r.1 as int) == trim(s@.subrange(a as int, b as int)),
{
    let mut x: usize = a;
    while x < b && is_blank_exec(s.get_char(x))
        invariant
            a <= x <= b <= s@.len(),
            trim_start(s@.subrange(x as int, b as int)) == trim_start(
                s@.subrange(a as int, b as int),
            ),
        decreases b - x,
    {
        assert(s@.subrange(x as int, b as int).drop_first() =~= s@.subrange(x + 1, b as int));
        x = x + 1;
    }
    assert(trim_start(s@.subrange(x as int, b as int)) == s@.subrange(x as int, b as int));
    let mut y: usize = b;
    while y > x && is_blank_exec(s.get_char(y - 1))
        invariant
            a <= x <= y <= b <= s@.len(),
            trim_end(s@.subrange(x as int, y as int)) == trim(s@.subrange(a as int, b as int)),
        decreases y - x,
    {
        assert(s@.subrange(x as int, y as int).drop_last() =~= s@.subrange(x as int, y - 1));
        y = y - 1;
    }
    (x, y)
}

fn is_blank_exec(c: char) -> (r: bool)
    ensures
        r == is_blank(c),
{
    c == ' ' || c == '\t' || c == '\r' || c == '\n'
}

/// The first position in `[i, b)` of `s` that holds `c`, or `b`.
fn find_char_exec(s: &str, c: char, i: usize, b: usize) -> (r: usize)
    requires
        i <= b <= s@.len(),
    ensures
        i <= r <= b,
        r as int - i == find_char(s@.subrange(i as int, b as int), c, 0),
{
    let ghost w = s@.subrange(i as int, b as int);
    let mut k: usize = i;
    while k < b && s.get_char(k) != c
        invariant
            w == s@.subrange(i as int, b as int),
            i <= k <= b <= s@.len(),
            find_char(w, c, k - i) == find_char(w, c, 0),
        decreases b - k,
    {
        k = k + 1;
    }
    k
}

/// Whether `s[a..b]` is a name.
fn is_name_exec(s: &str, a: usize, b: usize) -> (r: bool)
    requires
        a <= b <= s@.len(),
    ensures
        r == is_name(s@.subrange(a as int, b as int)),
{
    let ghost w = s@.subrange(a as int, b as int);
    if a == b {
        return false;
    }
    let mut k: usize = a;
    while k < b
        invariant
            w == s@.subrange(a as int, b as int),
            a <= k <= b <= s@.len(),
            forall|j: int| 0 <= j < k - a ==> is_name_char(#[trigger] w[j]),
        decreases b - k,
    {
        if !is_name_char_exec(s.get_char(k)) {
            assert(!is_name_char(w[k - a]));
            return false;
        }
        k = k + 1;
    }
    true
}

/// One line of a source, as read.
enum Line {
    Skip,
    Entry(String, String),
    Bad,
}

/// Reads the line `s[a..b]`.
fn parse_line(s: &str, a: usize, b: usize) -> (r: Line)
    requires
        a <= b <= s@.len(),
    ensures
        line_spec(s@.subrange(a as int, b as int)) == match r {
            Line::Skip => LineModel::Skip,
            Line::Entry(k, v) => LineModel::Entry(k@, v@),
            Line::Bad => LineModel::Bad,
        },
        r is Bad ==> a < b,
{
    let ghost l = s@.subrange(a as int, b as int);
    let (x, y) = trim_range(s, a, b);
    let ghost tl = s@.subrange(x as int, y as int);
    if x == y || s.get_char(x) == '#' {
        return Line::Skip;
    }
    let e = find_char_exec(s, '=', x, y);
    if e == y {
        return Line::Bad;
    }
    assert(s@.subrange(x as int, e as int) =~= tl.subrange(0, e - x));
    assert(s@.subrange(e + 1, y as int) =~= tl.subrange(e - x + 1, tl.len() as int));
    let (ka, kb) = trim_range(s, x, e);
    if !is_name_exec(s, ka, kb) {
        return Line::Bad;
    }
    let (va, vb) = trim_range(s, e + 1, y);
    let key = String::from_str(s.substring_char(ka, kb));
    let value = String::from_str(s.substring_char(va, vb));
    Line::Entry(key, value)
}

/// Reads the `key = value` entries of a source, in order. Blank lines and
/// lines starting with `#` are skipped; any other line without that shape
/// makes the whole source malformed, and its number (from one) is returned.
pub fn parse_entries(text: &str) -> (r: Result<Vec<(String, String)>, usize>)
    ensures
        match r {
            Ok(es) => entries_spec(text@) == Ok::<_, nat>(
                es@.map_values(|p: (String, String)| (p.0@, p.1@)),
            ),
            Err(n) => entries_spec(text@) == Err::<Seq<(Seq<char>, Seq<char>)>, nat>(n as nat),
        },
{
    let ghost t = text@;
    let len = text.unicode_len();
    let mut out: Vec<(String, String)> = Vec::new();
    let mut i: usize = 0;
    let mut line0: usize = 0;
    let mut done = false;
    while !done
        invariant
            t == text@,
            len == t.len(),
            i <= len,
            line0 <= i,
            entries_spec(t) == match (if done {
                Ok(Seq::<(Seq<char>, Seq<char>)>::empty())
            } else {
                entries_from(t, i as int, (line0 + 1) as nat)
            }) {
                Ok(rest) => Ok(out@.map_values(|p: (String, String)| (p.0@, p.1@)) + rest),
                Err(n) => Err(n),
            },
        decreases (len - i) + (if done { 0int } else { 1int }),
    {
        let e = find_char_exec(text, '\n', i, len);
        proof {
            lemma_find_char_shift(t, '\n', i as int);
        }
        let ghost before = out@.map_values(|p: (String, String)| (p.0@, p.1@));
        match parse_line(text, i, e) {
            Line::Bad => {
                return Err(line0 + 1);
            },
            Line::Skip => {},
            Line::Entry(k, v) => {
                let ghost kv = (k@, v@);
                out.push((k, v));
                proof {
                    let after = out@.map_values(|p: (String, String)| (p.0@, p.1@));
                    assert(after =~= before.push(kv));
                    match entries_from(t, e + 1, (line0 + 2) as nat) {
                        Ok(rest) => {
                            assert(before + (seq![kv] + rest) =~= after + rest);
                        },
                        Err(_) => {},
                    }
                }
            },
        }
        if e == len {
            done = true;
        } else {
            i = e + 1;
            line0 = line0 + 1;
        }
    }
    proof {
        let v = out@.map_values(|p: (String, String)| (p.0@, p.1@));
        assert(v + Seq::<(Seq<char>, Seq<char>)>::empty() =~= v);
    }
    Ok(out)
}

/// Searching a suffix window is searching the whole text from its start.
proof fn lemma_find_char_shift(t: Seq<char>, c: char, i: int)
    requires
        0 <= i <= t.len(),
    ensures
        find_char(t.subrange(i, t.len() as int), c, 0) + i == find_char(t, c, i),
{
    let w = t.subrange(i, t.len() as int);
    assert forall|k: int| 0 <= k <= w.len() implies find_char(w, c, k) + i == find_char(
        t,
        c,
        k + i,
    ) by {
        lemma_find_char_shift_from(t, c, i, k);
    }
}

proof fn lemma_find_char_shift_from(t: Seq<char>, c: char, i: int, k: int)
    requires
        0 <= i <= t.len(),
        0 <= k <= t.len() - i,
    ensures
        find_char(t.subrange(i, t.len() as int), c, k) + i == find_char(t, c, k + i),
    decreases t.len() - i - k,
{
    if k < t.len() - i {
        lemma_find_char_shift_from(t, c, i, k + 1);
    }
}

} // verus!

verus! {

/// What is wrong with a source.
pub enum ParseFault {
    /// The line with this number (from one) is not `key = value`.
    MalformedLine(usize),
    /// A key that was given twice.
    DuplicateKey(String),
    /// A key with no meaning here.
    UnknownKey(String),
    /// A key whose value is not allowed, or that stands in the wrong place.
    InvalidValue(String),
}

/// The model of a fault.
pub enum FaultModel {
    MalformedLine(nat),
    DuplicateKey(Seq<char>),
    UnknownKey(Seq<char>),
    InvalidValue(Seq<char>),
}

impl View for ParseFault {
    type V = FaultModel;

    open spec fn view(&self) -> FaultModel {
        match self {
            ParseFault::MalformedLine(n) => FaultModel::MalformedLine(*n as nat),
            ParseFault::DuplicateKey(k) => FaultModel::DuplicateKey(k@),
            ParseFault::UnknownKey(k) => FaultModel::UnknownKey(k@),
            ParseFault::InvalidValue(k) => FaultModel::InvalidValue(k@),
        }
    }
}

/// The entries as sequences of characters.
pub open spec fn entries_view(es: Seq<(String, String)>) -> Seq<(Seq<char>, Seq<char>)> {
    es.map_values(|p: (String, String)| (p.0@, p.1@))
}

/// The variables that a theme's entries define; a key given twice is a
/// fault, reported at its second occurrence.
pub open spec fn theme_vars_spec(es: Seq<(Seq<char>, Seq<char>)>) -> Result<
    Map<Seq<char>, Seq<char>>,
    FaultModel,
>
    decreases es.len(),
{
    if es.len() == 0 {
        Ok(Map::empty())
    } else {
        match theme_vars_spec(es.drop_last()) {
            Err(f) => Err(f),
            Ok(m) => if m.contains_key(es.last().0) {
                Err(FaultModel::DuplicateKey(es.last().0))
            } else {
                Ok(m.insert(es.last().0, es.last().1))
            },
        }
    }
}

/// The meaning of a theme source: its variables, or what is wrong with it.
pub open spec fn theme_source_spec(t: Seq<char>) -> Result<Map<Seq<char>, Seq<char>>, FaultModel> {
    match entries_spec(t) {
        Err(n) => Err(FaultModel::MalformedLine(n)),
        Ok(es) => theme_vars_spec(es),
    }
}

proof fn lemma_theme_vars_prefix_err(es: Seq<(Seq<char>, Seq<char>)>, n: int)
    requires
        0 <= n <= es.len(),
        theme_vars_spec(es.take(n)) is Err,
    ensures
        theme_vars_spec(es) == theme_vars_spec(es.take(n)),
    decreases es.len(),
{
    if n == es.len() {
        assert(es.take(n) =~= es);
    } else {
        assert(es.drop_last().take(n) =~= es.take(n));
        lemma_theme_vars_prefix_err(es.drop_last(), n);
    }
}

/// Reads a theme from its source text; `name` comes from where the source
/// was found.
pub fn parse_theme(name: String, location: String, text: &str) -> (r: Result<Theme, ParseError>)
    ensures
        match r {
            Ok(th) => th.name@ == name@ && theme_source_spec(text@) == Ok::<_, FaultModel>(
                th.variables@,
            ),
            Err(e) => e.location@ == location@ && theme_source_spec(text@) == Err::<
                Map<Seq<char>, Seq<char>>,
                FaultModel,
            >(e.fault@),
        },
{
    let es = match parse_entries(text) {
        Ok(es) => es,
        Err(n) => {
            return Err(ParseError { location, fault: ParseFault::MalformedLine(n) });
        },
    };
    let ghost ev = entries_view(es@);
    let mut vars = Variables::new();
    let mut i: usize = 0;
    assert(ev.take(0) =~= Seq::<(Seq<char>, Seq<char>)>::empty());
    while i < es.len()
        invariant
            ev == entries_view(es@),
            entries_spec(text@) == Ok::<_, nat>(ev),
            i <= es@.len(),
            theme_vars_spec(ev.take(i as int)) == Ok::<_, FaultModel>(vars@),
        decreases es@.len() - i,
    {
        assert(ev.take(i + 1).drop_last() =~= ev.take(i as int));
        assert(ev.take(i + 1).last() == ev[i as int]);
        let k = es[i].0.clone();
        if !vars.insert(k, es[i].1.clone()) {
            proof {
                lemma_theme_vars_prefix_err(ev, i + 1);
            }
            return Err(ParseError { location, fault: ParseFault::DuplicateKey(es[i].0.clone()) });
        }
        i = i + 1;
    }
    assert(ev.take(i as int) =~= ev);
    Ok(Theme { name, variables: vars })
}

} // verus!

verus! {

/// A module as its source describes it: each template is named by where its
/// text is found, beside the file its rendering goes to.
pub struct ModuleSource {
    pub templates: Vec<(String, String)>,
    pub reload: Option<ReloadCommand>,
    pub active: bool,
}

/// The model of a module source.
pub struct ModuleModel {
    pub templates: Seq<(Seq<char>, Seq<char>)>,
    pub reload: Option<(Seq<char>, Seq<Seq<char>>)>,
    pub active: bool,
}

/// The model of a parsed module source.
pub open spec fn source_model(s: ModuleSource) -> ModuleModel {
    ModuleModel {
        templates: entries_view(s.templates@),
        reload: match s.reload {
            Some(c) => Some(command_view(c)),
            None => None,
        },
        active: s.active,
    }
}

/// The effect of one entry of a module source: `template` adds a template,
/// `output` gives the last template its destination, `reload` names the
/// command, `arg` adds an argument to it, `active` is `true` or `false`.
pub open spec fn module_step(m: ModuleModel, k: Seq<char>, v: Seq<char>) -> Result<
    ModuleModel,
    FaultModel,
> {
    if k == "template"@ {
        Ok(ModuleModel { templates: m.templates.push((v, Seq::empty())), ..m })
    } else if k == "output"@ {
        if m.templates.len() > 0 && m.templates.last().1.len() == 0 && v.len() > 0 {
            Ok(
                ModuleModel {
                    templates: m.templates.drop_last().push((m.templates.last().0, v)),
                    ..m
                },
            )
        } else {
            Err(FaultModel::InvalidValue(k))
        }
    } else if k == "reload"@ {
        if m.reload is None {
            Ok(ModuleModel { reload: Some((v, Seq::empty())), ..m })
        } else {
            Err(FaultModel::DuplicateKey(k))
        }
    } else if k == "arg"@ {
        match m.reload {
            Some(c) => Ok(ModuleModel { reload: Some((c.0, c.1.push(v))), ..m }),
            None => Err(FaultModel::InvalidValue(k)),
        }
    } else if k == "active"@ {
        if v == "true"@ {
            Ok(ModuleModel { active: true, ..m })
        } else if v == "false"@ {
            Ok(ModuleModel { active: false, ..m })
        } else {
            Err(FaultModel::InvalidValue(k))
        }
    } else {
        Err(FaultModel::UnknownKey(k))
    }
}

/// The entries applied in order to an active module with no templates.
pub open spec fn module_entries_spec(es: Seq<(Seq<char>, Seq<char>)>) -> Result<
    ModuleModel,
    FaultModel,
>
    decreases es.len(),
{
    if es.len() == 0 {
        Ok(ModuleModel { templates: Seq::empty(), reload: None, active: true })
    } else {
        match module_entries_spec(es.drop_last()) {
            Err(f) => Err(f),
            Ok(m) => module_step(m, es.last().0, es.last().1),
        }
    }
}

/// Every template has a destination.
pub open spec fn outputs_given(m: ModuleModel) -> bool {
    forall|k: int| 0 <= k < m.templates.len() ==> #[trigger] m.templates[k].1.len() > 0
}

/// The meaning of a module source.
pub open spec fn module_source_spec(t: Seq<char>) -> Result<ModuleModel, FaultModel> {
    match entries_spec(t) {
        Err(n) => Err(FaultModel::MalformedLine(n)),
        Ok(es) => match module_entries_spec(es) {
            Err(f) => Err(f),
            Ok(m) => if outputs_given(m) {
                Ok(m)
            } else {
                Err(FaultModel::InvalidValue("output"@))
            },
        },
    }
}

proof fn lemma_module_entries_prefix_err(es: Seq<(Seq<char>, Seq<char>)>, n: int)
    requires
        0 <= n <= es.len(),
        module_entries_spec(es.take(n)) is Err,
    ensures
        module_entries_spec(es) == module_entries_spec(es.take(n)),
    decreases es.len(),
{
    if n == es.len() {
        assert(es.take(n) =~= es);
    } else {
        assert(es.drop_last().take(n) =~= es.take(n));
        lemma_module_entries_prefix_err(es.drop_last(), n);
    }
}

fn step_module(s: ModuleSource, k: &String, v: String) -> (r: Result<ModuleSource, ParseFault>)
    ensures
        match r {
            Ok(n) => module_step(source_model(s), k@, v@) == Ok::<_, FaultModel>(source_model(n)),
            Err(f) => module_step(source_model(s), k@, v@) == Err::<ModuleModel, FaultModel>(f@),
        },
{
    let ghost m = source_model(s);
    let ModuleSource { templates, reload, active } = s;
    let mut templates = templates;
    if *k == String::from_str("template") {
        let ghost before = templates@;
        templates.push((v, String::new()));
        assert(entries_view(templates@) =~= entries_view(before).push((v@, Seq::empty())));
        Ok(ModuleSource { templates, reload, active })
    } else if *k == String::from_str("output") {
        let n = templates.len();
        if n > 0 && templates[n - 1].1.unicode_len() == 0 && v.unicode_len() > 0 {
            let ghost before = templates@;
            let last = templates.pop();
            match last {
                Some((loc, _)) => {
                    templates.push((loc, v));
                    assert(entries_view(templates@) =~= entries_view(before).drop_last().push(
                        (entries_view(before).last().0, v@),
                    ));
                    Ok(ModuleSource { templates, reload, active })
                },
                None => Err(ParseFault::InvalidValue(k.clone())),
            }
        } else {
            Err(ParseFault::InvalidValue(k.clone()))
        }
    } else if *k == String::from_str("reload") {
        match reload {
            None => {
                let c = ReloadCommand { program: v, args: Vec::new() };
                assert(strings_view(c.args@) =~= Seq::<Seq<char>>::empty());
                Ok(ModuleSource { templates, reload: Some(c), active })
            },
            Some(_) => Err(ParseFault::DuplicateKey(k.clone())),
        }
    } else if *k == String::from_str("arg") {
        match reload {
            Some(c) => {
                let ReloadCommand { program, args } = c;
                let mut args = args;
                let ghost before = args@;
                args.push(v);
                assert(strings_view(args@) =~= strings_view(before).push(v@));
                Ok(ModuleSource { templates, reload: Some(ReloadCommand { program, args }), active })
            },
            None => Err(ParseFault::InvalidValue(k.clone())),
        }
    } else if *k == String::from_str("active") {
        if v == String::from_str("true") {
            Ok(ModuleSource { templates, reload, active: true })
        } else if v == String::from_str("false") {
            Ok(ModuleSource { templates, reload, active: false })
        } else {
            Err(ParseFault::InvalidValue(k.clone()))
        }
    } else {
        Err(ParseFault::UnknownKey(k.clone()))
    }
}

/// Reads a module from its source text.
pub fn parse_module(location: String, text: &str) -> (r: Result<ModuleSource, ParseError>)
    ensures
        match r {
            Ok(s) => module_source_spec(text@) == Ok::<_, FaultModel>(source_model(s)),
            Err(e) => e.location@ == location@ && module_source_spec(text@) == Err::<
                ModuleModel,
                FaultModel,
            >(e.fault@),
        },
{
    let es = match parse_entries(text) {
        Ok(es) => es,
        Err(n) => {
            return Err(ParseError { location, fault: ParseFault::MalformedLine(n) });
        },
    };
    let ghost ev = entries_view(es@);
    let mut src = ModuleSource { templates: Vec::new(), reload: None, active: true };
    assert(ev.take(0) =~= Seq::<(Seq<char>, Seq<char>)>::empty());
    assert(entries_view(src.templates@) =~= Seq::<(Seq<char>, Seq<char>)>::empty());
    let mut i: usize = 0;
    while i < es.len()
        invariant
            ev == entries_view(es@),
            entries_spec(text@) == Ok::<_, nat>(ev),
            i <= es@.len(),
            module_entries_spec(ev.take(i as int)) == Ok::<_, FaultModel>(source_model(src)),
        decreases es@.len() - i,
    {
        assert(ev.take(i + 1).drop_last() =~= ev.take(i as int));
        assert(ev.take(i + 1).last() == ev[i as int]);
        match step_module(src, &es[i].0, es[i].1.clone()) {
            Ok(n) => {
                src = n;
            },
            Err(f) => {
                proof {
                    lemma_module_entries_prefix_err(ev, i + 1);
                }
                return Err(ParseError { location, fault: f });
            },
        }
        i = i + 1;
    }
    assert(ev.take(i as int) =~= ev);
    let mut j: usize = 0;
    while j < src.templates.len()
        invariant
            entries_spec(text@) == Ok::<_, nat>(ev),
            module_entries_spec(ev) == Ok::<_, FaultModel>(source_model(src)),
            j <= src.templates@.len(),
            forall|k: int| 0 <= k < j ==> #[trigger] entries_view(src.templates@)[k].1.len() > 0,
        decreases src.templates@.len() - j,
    {
        if src.templates[j].1.unicode_len() == 0 {
            assert(source_model(src).templates[j as int].1.len() == 0);
            assert(!outputs_given(source_model(src)));
            let o = String::from_str("output");
            return Err(ParseError { location, fault: ParseFault::InvalidValue(o) });
        }
        j = j + 1;
    }
    Ok(src)
}

} // verus!

verus! {

/// The module named `name` from its source and the texts of its templates,
/// given in the order of the source's templates; `None` when the number of
/// texts differs from the number of templates.
pub fn build_module(name: String, src: ModuleSource, texts: Vec<String>) -> (r: Option<
    ModuleDefinition,
>)
    ensures
        r is Some <==> texts@.len() == src.templates@.len(),
        r matches Some(m) ==> {
            &&& m.name@ == name@
            &&& m.active == src.active
            &&& m.templates@.len() == texts@.len()
            &&& forall|k: int|
                0 <= k < texts@.len() ==> (#[trigger] m.templates@[k]).template@ == texts@[k]@
                    && m.templates@[k].output@ == src.templates@[k].1@
            &&& match m.reload {
                Some(c) => src.reload is Some && command_view(c) == command_view(
                    src.reload.unwrap(),
                ),
                None => src.reload is None,
            }
        },
{
    if texts.len() != src.templates.len() {
        return None;
    }
    let mut templates: Vec<TemplatePair> = Vec::new();
    let mut i: usize = 0;
    while i < texts.len()
        invariant
            texts@.len() == src.templates@.len(),
            i <= texts@.len(),
            templates@.len() == i,
            forall|k: int|
                0 <= k < i ==> (#[trigger] templates@[k]).template@ == texts@[k]@
                    && templates@[k].output@ == src.templates@[k].1@,
        decreases texts@.len() - i,
    {
        templates.push(
            TemplatePair { template: texts[i].clone(), output: src.templates[i].1.clone() },
        );
        i = i + 1;
    }
    Some(ModuleDefinition { name, templates, reload: src.reload, active: src.active })
}

} // verus!

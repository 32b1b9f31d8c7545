use vstd::prelude::*;

use crate::vars::Variables;

verus! {

/// Characters that may appear in a variable name.
pub open spec fn is_name_char(c: char) -> bool {
    ('a' <= c && c <= 'z') || ('A' <= c && c <= 'Z') || ('0' <= c && c <= '9') || c == '_' || c
        == '-' || c == '.'
}

/// The end of the run of name characters that starts at `j`.
pub open spec fn name_end(t: Seq<char>, j: int) -> int
    decreases t.len() - j,
{
    if 0 <= j < t.len() && is_name_char(t[j]) {
        name_end(t, j + 1)
    } else {
        j
    }
}

/// A variable reference `{{name}}` starts at position `i`: two opening
/// braces, a non-empty name, two closing braces.
pub open spec fn reference_at(t: Seq<char>, i: int) -> bool {
    let e = name_end(t, i + 2);
    &&& 0 <= i
    &&& i + 1 < t.len()
    &&& t[i] == '{'
    &&& t[i + 1] == '{'
    &&& e > i + 2
    &&& e + 1 < t.len()
    &&& t[e] == '}'
    &&& t[e + 1] == '}'
}

/// `prefix` put in front of a successful rendering; an error is kept.
pub open spec fn prepend(
    prefix: Seq<char>,
    r: Result<Seq<char>, Seq<char>>,
) -> Result<Seq<char>, Seq<char>> {
    match r {
        Ok(rest) => Ok(prefix + rest),
        Err(name) => Err(name),
    }
}

/// Rendering of the template text from position `i` on: each reference is
/// replaced by its variable's value, every other character is kept. The
/// error holds the name of the first reference whose variable is undefined.
pub open spec fn render_from(
    t: Seq<char>,
    vars: Map<Seq<char>, Seq<char>>,
    i: int,
) -> Result<Seq<char>, Seq<char>>
    decreases t.len() - i,
{
    if i < 0 || i >= t.len() {
        Ok(Seq::empty())
    } else if reference_at(t, i) {
        let e = name_end(t, i + 2);
        let name = t.subrange(i + 2, e);
        if vars.contains_key(name) {
            prepend(vars[name], render_from(t, vars, e + 2))
        } else {
            Err(name)
        }
    } else {
        prepend(seq![t[i]], render_from(t, vars, i + 1))
    }
}

/// The rendering of a whole template against a variable map.
pub open spec fn render_spec(
    t: Seq<char>,
    vars: Map<Seq<char>, Seq<char>>,
) -> Result<Seq<char>, Seq<char>> {
    render_from(t, vars, 0)
}

/// Why a template could not be rendered.
pub enum RenderError {
    /// The template refers to a variable that the theme does not define.
    UndefinedVariable(String),
}

pub(crate) fn is_name_char_exec(c: char) -> (r: bool)
    ensures
        r == is_name_char(c),
{
    ('a' <= c && c <= 'z') || ('A' <= c && c <= 'Z') || ('0' <= c && c <= '9') || c == '_' || c
        == '-' || c == '.'
}

fn scan_name_end(t: &str, len: usize, j: usize) -> (e: usize)
    requires
        len == t@.len(),
        j <= len,
    ensures
        e as int == name_end(t@, j as int),
        j <= e <= len,
{
    let mut k: usize = j;
    while k < len && is_name_char_exec(t.get_char(k))
        invariant
            len == t@.len(),
            j <= k <= len,
            name_end(t@, k as int) == name_end(t@, j as int),
        decreases len - k,
    {
        k = k + 1;
    }
    k
}

/// Renders `template` against `vars`: every `{{name}}` is replaced by the
/// value of `name`, all other text passes through unchanged.
pub fn render(template: &str, vars: &Variables) -> (r: Result<String, RenderError>)
    ensures
        match r {
            Ok(s) => render_spec(template@, vars@) == Ok::<Seq<char>, Seq<char>>(s@),
            Err(RenderError::UndefinedVariable(n)) => render_spec(template@, vars@) == Err::<
                Seq<char>,
                Seq<char>,
            >(n@),
        },
{
    let ghost t = template@;
    let len = template.unicode_len();
    let mut out = String::new();
    let mut i: usize = 0;
    while i < len
        invariant
            len == t.len(),
            t == template@,
            i <= len,
            render_spec(t, vars@) == prepend(out@, render_from(t, vars@, i as int)),
        decreases len - i,
    {
        let mut e: usize = 0;
        let mut is_ref = false;
        if i + 1 < len && template.get_char(i) == '{' && template.get_char(i + 1) == '{' {
            e = scan_name_end(template, len, i + 2);
            if e > i + 2 && len - e > 1 && template.get_char(e) == '}' && template.get_char(e + 1)
                == '}' {
                is_ref = true;
            }
        }
        assert(is_ref == reference_at(t, i as int));
        if is_ref {
            let name = String::from_str(template.substring_char(i + 2, e));
            match vars.get(&name) {
                Some(v) => {
                    let ghost before = out@;
                    out.append(v.as_str());
                    assert(prepend(before, prepend(v@, render_from(t, vars@, e + 2))) == prepend(
                        out@,
                        render_from(t, vars@, e + 2),
                    )) by {
                        match render_from(t, vars@, e + 2) {
                            Ok(rest) => {
                                assert(before + (v@ + rest) =~= out@ + rest);
                            },
                            Err(_) => {},
                        }
                    }
                    i = e + 2;
                },
                None => {
                    return Err(RenderError::UndefinedVariable(name));
                },
            }
        } else {
            let ghost before = out@;
            out.append(template.substring_char(i, i + 1));
            assert(prepend(before, prepend(seq![t[i as int]], render_from(t, vars@, i + 1)))
                == prepend(out@, render_from(t, vars@, i + 1))) by {
                assert(template@.subrange(i as int, i + 1) =~= seq![t[i as int]]);
                match render_from(t, vars@, i + 1) {
                    Ok(rest) => {
                        assert(before + (seq![t[i as int]] + rest) =~= out@ + rest);
                    },
                    Err(_) => {},
                }
            }
            i = i + 1;
        }
    }
    assert(out@ + Seq::<char>::empty() =~= out@);
    Ok(out)
}

} // verus!

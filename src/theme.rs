use vstd::prelude::*;

use crate::parse::ParseFault;
use crate::names::{all_distinct, find_duplicate, strings_view};
use crate::vars::Variables;

verus! {

/// A named set of variable values.
pub struct Theme {
    pub name: String,
    pub variables: Variables,
}

/// A theme or module source whose contents could not be understood.
pub struct ParseError {
    /// Where the source was found.
    pub location: String,
    /// What was wrong with it.
    pub fault: ParseFault,
}

/// Why a set of sources could not be loaded.
pub enum LoadError {
    /// Two sources declare the same name.
    DuplicateName(String),
}

/// A requested theme is not among the loaded ones.
pub enum ThemeError {
    NotFound(String),
}

/// The names of a sequence of themes, in order.
pub open spec fn theme_names(s: Seq<Theme>) -> Seq<Seq<char>> {
    s.map_values(|t: Theme| t.name@)
}

/// The first theme at or after position `i` whose name is `n`.
pub open spec fn theme_named_from(s: Seq<Theme>, n: Seq<char>, i: int) -> Option<Theme>
    decreases s.len() - i,
{
    if i < 0 || i >= s.len() {
        None
    } else if s[i].name@ == n {
        Some(s[i])
    } else {
        theme_named_from(s, n, i + 1)
    }
}

/// The theme whose name is `n`, if any.
pub open spec fn theme_named(s: Seq<Theme>, n: Seq<char>) -> Option<Theme> {
    theme_named_from(s, n, 0)
}

/// A theme is found by name exactly when one carries that name.
pub proof fn lemma_theme_named(s: Seq<Theme>, n: Seq<char>, i: int)
    requires
        0 <= i <= s.len(),
    ensures
        theme_named_from(s, n, i) is Some <==> exists|k: int| i <= k < s.len() && s[k].name@ == n,
        theme_named_from(s, n, i) matches Some(t) ==> t.name@ == n,
    decreases s.len() - i,
{
    if i < s.len() {
        lemma_theme_named(s, n, i + 1);
        if exists|k: int| i <= k < s.len() && s[k].name@ == n {
            let k = choose|k: int| i <= k < s.len() && s[k].name@ == n;
            if k > i && s[i].name@ != n {
                assert(i + 1 <= k < s.len() && s[k].name@ == n);
            }
        }
    }
}

/// Collect the names of the given themes.
fn collect_theme_names(themes: &Vec<Theme>) -> (r: Vec<String>)
    ensures
        strings_view(r@) == theme_names(themes@),
{
    let mut r: Vec<String> = Vec::new();
    let mut i: usize = 0;
    while i < themes.len()
        invariant
            i <= themes@.len(),
            strings_view(r@) == theme_names(themes@).take(i as int),
        decreases themes@.len() - i,
    {
        let ghost before = r@;
        let n = themes[i].name.clone();
        r.push(n);
        assert(r@ == before.push(n));
        assert(strings_view(r@) =~= strings_view(before).push(n@));
        i = i + 1;
        assert(strings_view(r@) =~= theme_names(themes@).take(i as int));
    }
    assert(theme_names(themes@).take(i as int) =~= theme_names(themes@));
    r
}

/// The usable themes of one invocation, with the sources that failed to
/// parse.
pub struct ThemeStore {
    themes: Vec<Theme>,
    malformed: Vec<ParseError>,
}

impl ThemeStore {
    /// Theme names never repeat.
    #[verifier::type_invariant]
    spec fn wf(self) -> bool {
        all_distinct(theme_names(self.themes@))
    }

    /// The usable themes, in discovery order.
    pub closed spec fn themes(&self) -> Seq<Theme> {
        self.themes@
    }

    /// The sources that could not be parsed.
    pub closed spec fn malformed_sources(&self) -> Seq<ParseError> {
        self.malformed@
    }

    /// Builds the store from the parsed themes and the sources that failed to
    /// parse. Two themes with one name make the whole load fail, and neither
    /// is chosen.
    pub fn load(themes: Vec<Theme>, malformed: Vec<ParseError>) -> (r: Result<
        ThemeStore,
        LoadError,
    >)
        ensures
            r is Ok <==> all_distinct(theme_names(themes@)),
            r matches Ok(st) ==> st.themes() == themes@ && st.malformed_sources() == malformed@,
            r matches Err(LoadError::DuplicateName(n)) ==> exists|i: int, j: int|
                0 <= i < j < themes@.len() && themes@[i].name@ == n@ && themes@[j].name@ == n@,
    {
        let names = collect_theme_names(&themes);
        match find_duplicate(&names) {
            Some(n) => {
                proof {
                    let (i, j) = choose|i: int, j: int|
                        0 <= i < j < names@.len() && names@[i]@ == n@ && names@[j]@ == n@;
                    assert(strings_view(names@)[i] == theme_names(themes@)[i]);
                    assert(strings_view(names@)[j] == theme_names(themes@)[j]);
                    assert(themes@[i].name@ == n@ && themes@[j].name@ == n@);
                }
                Err(LoadError::DuplicateName(n))
            },
            None => Ok(ThemeStore { themes, malformed }),
        }
    }

    /// The names of the usable themes, in discovery order; no name repeats.
    pub fn list(&self) -> (r: Vec<String>)
        ensures
            strings_view(r@) == theme_names(self.themes()),
            all_distinct(strings_view(r@)),
    {
        proof {
            use_type_invariant(self);
        }
        collect_theme_names(&self.themes)
    }

    /// No usable theme was found.
    pub fn is_empty(&self) -> (r: bool)
        ensures
            r == (self.themes().len() == 0),
    {
        self.themes.len() == 0
    }

    /// The sources that could not be parsed.
    pub fn malformed(&self) -> (r: &Vec<ParseError>)
        ensures
            r@ == self.malformed_sources(),
    {
        &self.malformed
    }

    /// The theme named `name`.
    pub fn get(&self, name: &String) -> (r: Result<&Theme, ThemeError>)
        ensures
            r is Ok <==> theme_names(self.themes()).contains(name@),
            r matches Ok(t) ==> theme_named(self.themes(), name@) == Some(*t) && t.name@ == name@,
            r matches Err(ThemeError::NotFound(n)) ==> n@ == name@,
    {
        let ghost s = self.themes@;
        proof {
            lemma_theme_named(s, name@, 0);
        }
        let mut i: usize = 0;
        while i < self.themes.len()
            invariant
                s == self.themes@,
                i <= s.len(),
                theme_named(s, name@) == theme_named_from(s, name@, i as int),
                forall|k: int| 0 <= k < i ==> s[k].name@ != name@,
            decreases s.len() - i,
        {
            if self.themes[i].name == *name {
                assert(theme_names(s)[i as int] == name@);
                return Ok(&self.themes[i]);
            }
            i = i + 1;
        }
        proof {
            if theme_names(s).contains(name@) {
                let k = choose|k: int| 0 <= k < theme_names(s).len() && theme_names(s)[k] == name@;
                assert(s[k].name@ == name@);
            }
        }
        Err(ThemeError::NotFound(name.clone()))
    }
}

} // verus!

use vstd::prelude::*;

use crate::parse::{trim, trim_range};

verus! {

/// The stored form of a current theme name.
pub open spec fn encoded(name: Option<Seq<char>>) -> Seq<char> {
    match name {
        Some(n) => n,
        None => Seq::empty(),
    }
}

/// The current theme name that a stored text stands for.
pub open spec fn decoded(text: Seq<char>) -> Option<Seq<char>> {
    if trim(text).len() == 0 {
        None
    } else {
        Some(trim(text))
    }
}

/// The persisted reference to the current theme.
///
/// The store holds at most one value: the name of the active theme, or
/// nothing. Writing that value to durable storage is the caller's business;
/// this type decides what the value becomes.
pub struct StateStore {
    current: Option<String>,
}

impl StateStore {
    /// The current theme name, as a sequence of characters.
    pub closed spec fn current_name(&self) -> Option<Seq<char>> {
        match self.current {
            Some(s) => Some(s@),
            None => None,
        }
    }

    /// A store with no current theme.
    pub fn new() -> (r: StateStore)
        ensures
            r.current_name() is None,
    {
        StateStore { current: None }
    }

    /// A store that starts from a previously persisted value.
    pub fn from_persisted(name: Option<String>) -> (r: StateStore)
        ensures
            r.current_name() == (match name {
                Some(s) => Some(s@),
                None => None::<Seq<char>>,
            }),
    {
        StateStore { current: name }
    }

    /// The stored form of the current theme name: the name itself, or
    /// nothing when no theme is set.
    pub fn encode(&self) -> (r: String)
        ensures
            r@ == encoded(self.current_name()),
    {
        match &self.current {
            Some(s) => s.clone(),
            None => String::new(),
        }
    }

    /// Reads a stored reference: blanks around the name are ignored, and a
    /// blank text means no current theme.
    pub fn decode(text: &str) -> (r: StateStore)
        ensures
            r.current_name() == decoded(text@),
    {
        let len = text.unicode_len();
        let (a, b) = trim_range(text, 0, len);
        assert(text@.subrange(0, len as int) =~= text@);
        if a == b {
            StateStore { current: None }
        } else {
            StateStore { current: Some(String::from_str(text.substring_char(a, b))) }
        }
    }
    pub fn get(&self) -> (r: Option<String>)
        ensures
            r.is_some() == self.current_name().is_some(),
            r.is_some() ==> r.unwrap()@ == self.current_name().unwrap(),
    {
        match &self.current {
            Some(s) => Some(s.clone()),
            None => None,
        }
    }

    /// Makes `name` the current theme, replacing any previous value.
    pub fn set(&mut self, name: String)
        ensures
            final(self).current_name() == Some(name@),
    {
        self.current = Some(name);
    }

    /// Clears the current theme reference.
    pub fn unset(&mut self)
        ensures
            final(self).current_name() is None,
    {
        self.current = None;
    }
}

} // verus!

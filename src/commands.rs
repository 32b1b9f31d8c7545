use vstd::prelude::*;

use crate::state::StateStore;

verus! {

/// `theme unset`: forgets the current theme. Output files written by earlier
/// passes are not touched; only the stored reference changes.
pub fn cmd_theme_unset(state: &mut StateStore)
    ensures
        final(state).current_name() is None,
{
    state.unset();
}

/// `theme get`: the name of the current theme, or `None` when no theme is
/// set.
pub fn cmd_theme_get(state: &StateStore) -> (r: Option<String>)
    ensures
        r is Some <==> state.current_name() is Some,
        r matches Some(n) ==> state.current_name() == Some(n@),
{
    state.get()
}

} // verus!

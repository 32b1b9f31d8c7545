use vstd::prelude::*;

verus! {

/// No name occurs twice.
pub open spec fn all_distinct(s: Seq<Seq<char>>) -> bool {
    forall|i: int, j: int| 0 <= i < s.len() && 0 <= j < s.len() && i != j ==> s[i] != s[j]
}

/// The character sequences of a sequence of strings.
pub open spec fn strings_view(v: Seq<String>) -> Seq<Seq<char>> {
    v.map_values(|s: String| s@)
}

/// A name that occurs at two distinct positions, if there is one.
pub fn find_duplicate(names: &Vec<String>) -> (r: Option<String>)
    ensures
        r is None <==> all_distinct(strings_view(names@)),
        r matches Some(n) ==> exists|i: int, j: int|
            0 <= i < j < names@.len() && names@[i]@ == n@ && names@[j]@ == n@,
{
    let ghost s = strings_view(names@);
    let mut i: usize = 0;
    while i < names.len()
        invariant
            s == strings_view(names@),
            i <= names@.len(),
            forall|a: int, b: int| 0 <= a < i && 0 <= b < i && a != b ==> s[a] != s[b],
        decreases names@.len() - i,
    {
        let mut j: usize = 0;
        while j < i
            invariant
                s == strings_view(names@),
                j <= i < names@.len(),
                forall|a: int, b: int| 0 <= a < i && 0 <= b < i && a != b ==> s[a] != s[b],
                forall|b: int| 0 <= b < j ==> s[b] != s[i as int],
            decreases i - j,
        {
            if names[j] == names[i] {
                assert(s[j as int] == s[i as int]);
                return Some(names[i].clone());
            }
            j = j + 1;
        }
        i = i + 1;
    }
    None
}

/// Whether `n` is one of `v`.
pub fn contains_name(v: &Vec<String>, n: &String) -> (r: bool)
    ensures
        r == strings_view(v@).contains(n@),
{
    let mut i: usize = 0;
    while i < v.len()
        invariant
            i <= v@.len(),
            forall|k: int| 0 <= k < i ==> v@[k]@ != n@,
        decreases v@.len() - i,
    {
        if v[i] == *n {
            assert(strings_view(v@)[i as int] == n@);
            return true;
        }
        i = i + 1;
    }
    proof {
        if strings_view(v@).contains(n@) {
            let k = choose|k: int| 0 <= k < strings_view(v@).len() && strings_view(v@)[k] == n@;
            assert(v@[k]@ == n@);
        }
    }
    false
}

} // verus!

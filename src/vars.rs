use vstd::prelude::*;

verus! {

/// The map described by a sequence of (name, value) pairs; a later pair
/// overrides an earlier one with the same name.
pub open spec fn pairs_to_map(s: Seq<(Seq<char>, Seq<char>)>) -> Map<Seq<char>, Seq<char>>
    decreases s.len(),
{
    if s.len() == 0 {
        Map::empty()
    } else {
        pairs_to_map(s.drop_last()).insert(s.last().0, s.last().1)
    }
}

/// No two pairs share a name.
pub open spec fn names_unique(s: Seq<(Seq<char>, Seq<char>)>) -> bool {
    forall|i: int, j: int| 0 <= i < s.len() && 0 <= j < s.len() && i != j ==> s[i].0 != s[j].0
}

/// A name is in the map exactly when some pair carries it.
pub proof fn lemma_pairs_to_map_domain(s: Seq<(Seq<char>, Seq<char>)>, k: Seq<char>)
    ensures
        pairs_to_map(s).contains_key(k) <==> exists|i: int| 0 <= i < s.len() && s[i].0 == k,
    decreases s.len(),
{
    if s.len() > 0 {
        lemma_pairs_to_map_domain(s.drop_last(), k);
        if pairs_to_map(s.drop_last()).contains_key(k) {
            let i = choose|i: int| 0 <= i < s.drop_last().len() && s.drop_last()[i].0 == k;
            assert(s[i].0 == k);
        }
        if exists|i: int| 0 <= i < s.len() && s[i].0 == k {
            let i = choose|i: int| 0 <= i < s.len() && s[i].0 == k;
            if i < s.len() - 1 {
                assert(s.drop_last()[i].0 == k);
            }
        }
    }
}

/// With unique names, each pair's value is what the map holds for its name.
pub proof fn lemma_pairs_to_map_value(s: Seq<(Seq<char>, Seq<char>)>, i: int)
    requires
        names_unique(s),
        0 <= i < s.len(),
    ensures
        pairs_to_map(s).contains_key(s[i].0),
        pairs_to_map(s)[s[i].0] == s[i].1,
    decreases s.len(),
{
    if i < s.len() - 1 {
        let t = s.drop_last();
        assert(t[i] == s[i]);
        assert(names_unique(t));
        lemma_pairs_to_map_value(t, i);
    }
}

/// A theme's variables: a finite map from variable name to its text value.
pub struct Variables {
    entries: Vec<(String, String)>,
}

impl View for Variables {
    type V = Map<Seq<char>, Seq<char>>;

    closed spec fn view(&self) -> Map<Seq<char>, Seq<char>> {
        pairs_to_map(self.pairs())
    }
}

impl Variables {
    /// The stored pairs as sequences of characters.
    pub closed spec fn pairs(&self) -> Seq<(Seq<char>, Seq<char>)> {
        self.entries@.map_values(|p: (String, String)| (p.0@, p.1@))
    }

    /// Names are unique among the stored pairs.
    #[verifier::type_invariant]
    spec fn wf(self) -> bool {
        names_unique(self.pairs())
    }

    /// An empty set of variables.
    pub fn new() -> (r: Variables)
        ensures
            r@ == Map::<Seq<char>, Seq<char>>::empty(),
    {
        let r = Variables { entries: Vec::new() };
        assert(r.pairs() =~= Seq::<(Seq<char>, Seq<char>)>::empty());
        r
    }

    /// The stored (name, value) pairs, in the order they were defined.
    pub fn entries(&self) -> (r: &Vec<(String, String)>)
        ensures
            r@.map_values(|p: (String, String)| (p.0@, p.1@)) == self.pairs(),
            pairs_to_map(self.pairs()) == self@,
    {
        &self.entries
    }

    /// The index of the pair named `name`, if any.
    fn find(&self, name: &String) -> (r: Option<usize>)
        ensures
            r.is_some() == self@.contains_key(name@),
            r.is_some() ==> r.unwrap() < self.pairs().len() && self.pairs()[r.unwrap() as int].0
                == name@,
    {
        proof {
            use_type_invariant(self);
            lemma_pairs_to_map_domain(self.pairs(), name@);
        }
        let mut i: usize = 0;
        while i < self.entries.len()
            invariant
                names_unique(self.pairs()),
                i <= self.entries@.len(),
                self.pairs().len() == self.entries@.len(),
                forall|j: int| 0 <= j < i ==> self.pairs()[j].0 != name@,
            decreases self.entries@.len() - i,
        {
            if self.entries[i].0 == *name {
                proof {
                    lemma_pairs_to_map_value(self.pairs(), i as int);
                }
                return Some(i);
            }
            i = i + 1;
        }
        None
    }

    /// The value of the variable `name`, if it is defined.
    pub fn get(&self, name: &String) -> (r: Option<&String>)
        ensures
            r.is_some() == self@.contains_key(name@),
            r.is_some() ==> r.unwrap()@ == self@[name@],
    {
        match self.find(name) {
            Some(i) => {
                proof {
                    use_type_invariant(self);
                    lemma_pairs_to_map_value(self.pairs(), i as int);
                }
                Some(&self.entries[i].1)
            },
            None => None,
        }
    }

    /// Defines `name` as `value`. A name that is already defined is left as
    /// it is and `false` is returned: names stay unique.
    pub fn insert(&mut self, name: String, value: String) -> (r: bool)
        ensures
            r == !old(self)@.contains_key(name@),
            r ==> final(self)@ == old(self)@.insert(name@, value@),
            !r ==> final(self)@ == old(self)@,
    {
        if self.find(&name).is_some() {
            return false;
        }
        proof {
            use_type_invariant(&*self);
            lemma_pairs_to_map_domain(self.pairs(), name@);
        }
        let ghost before = self.pairs();
        let mut entries = Vec::new();
        std::mem::swap(&mut entries, &mut self.entries);
        entries.push((name, value));
        let ghost after = entries@.map_values(|p: (String, String)| (p.0@, p.1@));
        assert(after =~= before.push((name@, value@)));
        assert(after.drop_last() =~= before);
        assert(names_unique(after));
        self.entries = entries;
        true
    }
}

} // verus!

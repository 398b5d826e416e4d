use vstd::prelude::*;

verus! {

/// Whether `t` is the view of one of the first `n` strings of `v`.
spec fn names_in(v: Seq<String>, n: int, t: Seq<char>) -> bool {
    exists|i: int| 0 <= i < n && #[trigger] v[i]@ == t
}

/// The set of target identifiers whose build is currently running.
pub struct InFlight {
    targets: Vec<String>,
}

impl View for InFlight {
    type V = Set<Seq<char>>;

    closed spec fn view(&self) -> Set<Seq<char>> {
        Set::new(|t: Seq<char>| names_in(self.targets@, self.targets@.len() as int, t))
    }
}

impl InFlight {
    /// An empty set: nothing is being built.
    pub fn new() -> (r: Self)
        ensures
            r@ == Set::<Seq<char>>::empty(),
    {
        let r = InFlight { targets: Vec::new() };
        assert(r@ =~= Set::<Seq<char>>::empty());
        r
    }

    /// Whether a build of `target` is running.
    pub fn contains(&self, target: &String) -> (r: bool)
        ensures
            r == self@.contains(target@),
    {
        let mut i: usize = 0;
        while i < self.targets.len()
            invariant
                i <= self.targets@.len(),
                forall|j: int| 0 <= j < i ==> #[trigger] self.targets@[j]@ != target@,
            decreases self.targets@.len() - i,
        {
            if self.targets[i] == *target {
                return true;
            }
            i = i + 1;
        }
        false
    }

    /// Claims `target` for a build. Succeeds, and records the claim, only when
    /// no build of `target` is running; otherwise the set is left unchanged.
    pub fn claim(&mut self, target: String) -> (r: bool)
        ensures
            r == !old(self)@.contains(target@),
            final(self)@ == old(self)@.insert(target@),
    {
        if self.contains(&target) {
            assert(old(self)@.insert(target@) =~= old(self)@);
            false
        } else {
            let ghost t = target@;
            self.targets.push(target);
            assert(self@ =~= old(self)@.insert(t)) by {
                assert(self.targets@[self.targets@.len() - 1]@ == t);
                assert forall|u: Seq<char>| #[trigger] old(self)@.contains(u) implies self@.contains(u) by {
                    let i = choose|i: int| 0 <= i < old(self).targets@.len() && #[trigger] old(self).targets@[i]@ == u;
                    assert(self.targets@[i] == old(self).targets@[i]);
                }
            }
            true
        }
    }

    /// Releases every claim on `target`; other targets keep theirs.
    pub fn release(&mut self, target: &String)
        ensures
            final(self)@ == old(self)@.remove(target@),
    {
        let mut kept: Vec<String> = Vec::new();
        let mut i: usize = 0;
        while i < self.targets.len()
            invariant
                i <= self.targets@.len(),
                self.targets == old(self).targets,
                forall|u: Seq<char>|
                    #![trigger names_in(kept@, kept@.len() as int, u)]
                    #![trigger names_in(self.targets@, i as int, u)]
                    names_in(kept@, kept@.len() as int, u) == (u != target@ && names_in(self.targets@, i as int, u)),
            decreases self.targets@.len() - i,
        {
            let ghost kept0 = kept@;
            if self.targets[i] != *target {
                kept.push(self.targets[i].clone());
            }
            proof {
                assert forall|u: Seq<char>|
                    #![trigger names_in(kept@, kept@.len() as int, u)]
                    #![trigger names_in(self.targets@, i + 1, u)]
                    names_in(kept@, kept@.len() as int, u) == (u != target@ && names_in(self.targets@, i + 1, u)) by {
                    if names_in(kept@, kept@.len() as int, u) {
                        let j = choose|j: int| 0 <= j < kept@.len() && #[trigger] kept@[j]@ == u;
                        if j < kept0.len() {
                            assert(kept0[j] == kept@[j]);
                            assert(names_in(kept0, kept0.len() as int, u));
                            let j2 = choose|j2: int| 0 <= j2 < i && #[trigger] self.targets@[j2]@ == u;
                            assert(names_in(self.targets@, i + 1, u));
                        } else {
                            assert(self.targets@[i as int]@ == u);
                            assert(names_in(self.targets@, i + 1, u));
                        }
                    }
                    if u != target@ && names_in(self.targets@, i + 1, u) {
                        let j = choose|j: int| 0 <= j < i + 1 && #[trigger] self.targets@[j]@ == u;
                        if j < i {
                            assert(names_in(self.targets@, i as int, u));
                            let j2 = choose|j2: int| 0 <= j2 < kept0.len() && #[trigger] kept0[j2]@ == u;
                            assert(kept@[j2] == kept0[j2]);
                        } else {
                            assert(kept@[kept@.len() - 1]@ == u);
                        }
                    }
                }
            }
            i = i + 1;
        }
        self.targets = kept;
        assert(self@ =~= old(self)@.remove(target@));
    }
}

} // verus!

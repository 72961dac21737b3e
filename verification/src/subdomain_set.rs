use vstd::prelude::*;

verus! {

/// The set of character sequences named by a sequence of strings.
pub open spec fn strings_set(s: Seq<String>) -> Set<Seq<char>> {
    Set::new(|x: Seq<char>| exists|i: int| 0 <= i < s.len() && s[i]@ == x)
}

/// Appending one string extends the named set by exactly that string.
pub proof fn lemma_strings_set_push(s: Seq<String>, x: String)
    ensures
        strings_set(s.push(x)) =~= strings_set(s).insert(x@),
{
    assert forall|y: Seq<char>|
        strings_set(s.push(x)).contains(y) == strings_set(s).insert(x@).contains(y) by {
        if strings_set(s.push(x)).contains(y) {
            let i = choose|i: int| 0 <= i < s.push(x).len() && #[trigger] s.push(x)[i]@ == y;
            if i < s.len() {
                assert(s[i]@ == y);
            }
        }
        if strings_set(s).contains(y) {
            let i = choose|i: int| 0 <= i < s.len() && #[trigger] s[i]@ == y;
            assert(s.push(x)[i]@ == y);
        }
        if y == x@ {
            assert(s.push(x)[s.len() as int]@ == y);
        }
    }
}

/// A set of distinct subdomain strings. Entries are kept exactly as a
/// provider emitted them (no normalization); the invariant is only that no
/// two entries spell the same string.
#[derive(Debug)]
pub struct SubdomainSet {
    pub items: Vec<String>,
}

impl SubdomainSet {
    /// No two entries are equal as character sequences.
    pub open spec fn wf(self) -> bool {
        forall|i: int, j: int|
            0 <= i < j < self.items@.len() ==> self.items@[i]@ != self.items@[j]@
    }

    /// The mathematical set of subdomains held.
    pub open spec fn set_view(self) -> Set<Seq<char>> {
        strings_set(self.items@)
    }

    /// The entries in insertion order, as character sequences.
    pub open spec fn seq_view(self) -> Seq<Seq<char>> {
        self.items@.map_values(|s: String| s@)
    }

    pub fn new() -> (r: SubdomainSet)
        ensures
            r.wf(),
            r.set_view() =~= Set::<Seq<char>>::empty(),
            r.items@.len() == 0,
    {
        SubdomainSet { items: Vec::new() }
    }

    pub fn len(&self) -> (r: usize)
        ensures
            r == self.items@.len(),
    {
        self.items.len()
    }

    pub fn contains(&self, s: &String) -> (r: bool)
        ensures
            r == self.set_view().contains(s@),
    {
        let n = self.items.len();
        let mut i: usize = 0;
        while i < n
            invariant
                n == self.items@.len(),
                i <= n,
                forall|j: int| 0 <= j < i ==> self.items@[j]@ != s@,
            decreases n - i,
        {
            if self.items[i] == *s {
                return true;
            }
            i += 1;
        }
        false
    }

    /// Adds one subdomain; a string already present is not duplicated.
    pub fn insert(&mut self, s: String)
        requires
            old(self).wf(),
        ensures
            final(self).wf(),
            final(self).set_view() =~= old(self).set_view().insert(s@),
    {
        if !self.contains(&s) {
            proof {
                lemma_strings_set_push(self.items@, s);
            }
            self.items.push(s);
        } else {
            proof {
                assert(old(self).set_view().insert(s@) =~= old(self).set_view());
            }
        }
    }

    /// Unions a whole list of strings in, deduplicating as it goes.
    pub fn insert_strings(&mut self, items: &Vec<String>)
        requires
            old(self).wf(),
        ensures
            final(self).wf(),
            final(self).set_view() =~= old(self).set_view().union(strings_set(items@)),
    {
        let n = items.len();
        let mut k: usize = 0;
        while k < n
            invariant
                n == items@.len(),
                k <= n,
                self.wf(),
                self.set_view() =~= old(self).set_view().union(strings_set(items@.take(k as int))),
            decreases n - k,
        {
            let s = items[k].clone();
            self.insert(s);
            proof {
                assert(items@.take(k + 1) =~= items@.take(k as int).push(items@[k as int]));
                lemma_strings_set_push(items@.take(k as int), items@[k as int]);
                assert(self.set_view() =~= old(self).set_view().union(
                    strings_set(items@.take(k + 1)),
                ));
            }
            k += 1;
        }
        proof {
            assert(items@.take(n as int) =~= items@);
        }
    }

    /// Unions another set's contents into this one.
    pub fn union_with(&mut self, other: &SubdomainSet)
        requires
            old(self).wf(),
        ensures
            final(self).wf(),
            final(self).set_view() =~= old(self).set_view().union(other.set_view()),
    {
        self.insert_strings(&other.items);
    }

    /// Builds a set from a list of strings, deduplicating exact repeats.
    pub fn from_items(items: Vec<String>) -> (r: SubdomainSet)
        ensures
            r.wf(),
            r.set_view() =~= strings_set(items@),
    {
        let mut r = SubdomainSet::new();
        r.insert_strings(&items);
        r
    }
}

} // verus!

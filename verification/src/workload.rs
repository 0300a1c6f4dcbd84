//! The workload snapshot the decision logic reads: identity, the declared
//! replica count, and the metadata annotations as a string-to-string mapping
//! with unique keys. Lookup returns the value of the first entry whose key
//! matches, which is the only one when keys are unique.

use vstd::prelude::*;

verus! {

/// First-match lookup of `key` in a sequence of (key, value) entries.
pub open spec fn lookup(anns: Seq<(Seq<char>, Seq<char>)>, key: Seq<char>) -> Option<Seq<char>>
    decreases anns.len(),
{
    if anns.len() == 0 {
        None
    } else if anns[0].0 == key {
        Some(anns[0].1)
    } else {
        lookup(anns.drop_first(), key)
    }
}

/// A workload's metadata annotations: string keys mapped to string values.
pub struct Annotations {
    entries: Vec<(String, String)>,
}

impl View for Annotations {
    type V = Seq<(Seq<char>, Seq<char>)>;

    closed spec fn view(&self) -> Self::V {
        Seq::new(self.entries@.len(), |i: int| (self.entries@[i].0@, self.entries@[i].1@))
    }
}

impl Annotations {
    /// An empty annotation mapping.
    pub fn new() -> (a: Annotations)
        ensures
            a@ == Seq::<(Seq<char>, Seq<char>)>::empty(),
    {
        let a = Annotations { entries: Vec::new() };
        proof {
            assert(a@ =~= Seq::<(Seq<char>, Seq<char>)>::empty());
        }
        a
    }

    /// Appends an entry. Callers keep keys unique by not repeating one.
    pub fn push(&mut self, key: String, value: String)
        ensures
            final(self)@ == old(self)@.push((key@, value@)),
    {
        let ghost k: Seq<char> = key@;
        let ghost v: Seq<char> = value@;
        self.entries.push((key, value));
        proof {
            assert(self@ =~= old(self)@.push((k, v)));
        }
    }

    /// The value under `key`, if any entry carries that key.
    pub fn get(&self, key: &String) -> (r: Option<&String>)
        ensures
            match r {
                Some(v) => lookup(self@, key@) == Some(v@),
                None => lookup(self@, key@) is None,
            },
    {
        let n: usize = self.entries.len();
        let mut i: usize = 0;
        proof {
            assert(self@.skip(0) =~= self@);
        }
        while i < n
            invariant
                0 <= i <= n,
                n == self.entries.len(),
                self@.len() == n,
                lookup(self@.skip(i as int), key@) == lookup(self@, key@),
            decreases n - i,
        {
            proof {
                assert(self@.skip(i as int)[0] == self@[i as int]);
                assert(self@.skip(i as int).drop_first() =~= self@.skip(i as int + 1));
            }
            if self.entries[i].0 == *key {
                return Some(&self.entries[i].1);
            }
            i = i + 1;
        }
        proof {
            assert(self@.skip(n as int) =~= Seq::<(Seq<char>, Seq<char>)>::empty());
        }
        None
    }
}

/// A workload snapshot: (namespace, name) identity reduced to the name the
/// patch is addressed to, the declared replica count if one is set, and the
/// metadata annotations.
pub struct Workload {
    pub name: String,
    pub replicas: Option<i32>,
    pub annotations: Annotations,
}

impl Workload {
    /// A declared replica count is never negative.
    pub open spec fn wf(&self) -> bool {
        match self.replicas {
            Some(r) => r >= 0,
            None => true,
        }
    }
}

/// The replica count a workload is currently at: an absent declaration means
/// no replicas are asked for, so it reads as zero.
pub open spec fn spec_current_replicas(w: &Workload) -> int {
    match w.replicas {
        Some(r) => r as int,
        None => 0,
    }
}

/// Reads the workload's current replica count, treating an absent
/// declaration as zero.
pub fn current_replicas(w: &Workload) -> (r: i32)
    ensures
        r as int == spec_current_replicas(w),
{
    match &w.replicas {
        Some(r) => *r,
        None => 0,
    }
}

} // verus!

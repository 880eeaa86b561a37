//! The code table that `walk` fills: a map from datum to bit-path.

use vstd::prelude::*;

verus! {

/// A mapping from payload datum to the bit-path string of the leaf that
/// carries it. Entries are kept as an association list whose keys are unique;
/// the table is viewed as a `Map<char, Seq<char>>`.
pub struct CodeTable {
    entries: Vec<(char, String)>,
}

impl CodeTable {
    /// The abstract map the entry list denotes: later entries win.
    spec fn map_of(s: Seq<(char, String)>) -> Map<char, Seq<char>>
        decreases s.len(),
    {
        if s.len() == 0 {
            Map::empty()
        } else {
            Self::map_of(s.drop_last()).insert(s.last().0, s.last().1@)
        }
    }

    /// No key occurs twice in the entry list.
    pub closed spec fn wf(self) -> bool {
        forall|i: int, j: int|
            0 <= i < j < self.entries@.len() ==> (#[trigger] self.entries@[i]).0 != (
            #[trigger] self.entries@[j]).0
    }

    /// Creates an empty table.
    pub fn new() -> (t: CodeTable)
        ensures
            t.wf(),
            t@ == Map::<char, Seq<char>>::empty(),
    {
        CodeTable { entries: Vec::new() }
    }

    proof fn lemma_map_of_push(s: Seq<(char, String)>, p: (char, String))
        ensures
            Self::map_of(s.push(p)) == Self::map_of(s).insert(p.0, p.1@),
    {
        assert(s.push(p).drop_last() =~= s);
        assert(s.push(p).last() == p);
    }

    proof fn lemma_map_of_absent(s: Seq<(char, String)>, k: char)
        requires
            forall|x: int| 0 <= x < s.len() ==> (#[trigger] s[x]).0 != k,
        ensures
            !Self::map_of(s).contains_key(k),
        decreases s.len(),
    {
        if s.len() > 0 {
            Self::lemma_map_of_absent(s.drop_last(), k);
        }
    }

    proof fn lemma_map_of_at(s: Seq<(char, String)>, i: int)
        requires
            0 <= i < s.len(),
            forall|x: int, y: int|
                0 <= x < y < s.len() ==> (#[trigger] s[x]).0 != (#[trigger] s[y]).0,
        ensures
            Self::map_of(s).contains_key(s[i].0),
            Self::map_of(s)[s[i].0] == s[i].1@,
        decreases s.len(),
    {
        if i < s.len() - 1 {
            Self::lemma_map_of_at(s.drop_last(), i);
        }
    }

    proof fn lemma_map_of_len(s: Seq<(char, String)>)
        requires
            forall|x: int, y: int|
                0 <= x < y < s.len() ==> (#[trigger] s[x]).0 != (#[trigger] s[y]).0,
        ensures
            Self::map_of(s).len() == s.len(),
            Self::map_of(s).dom().finite(),
        decreases s.len(),
    {
        if s.len() > 0 {
            Self::lemma_map_of_len(s.drop_last());
            Self::lemma_map_of_absent(s.drop_last(), s.last().0);
        }
    }

    proof fn lemma_map_of_update(s: Seq<(char, String)>, i: int, p: (char, String))
        requires
            0 <= i < s.len(),
            forall|x: int, y: int|
                0 <= x < y < s.len() ==> (#[trigger] s[x]).0 != (#[trigger] s[y]).0,
            p.0 == s[i].0,
        ensures
            Self::map_of(s.update(i, p)) == Self::map_of(s).insert(p.0, p.1@),
        decreases s.len(),
    {
        if i == s.len() - 1 {
            assert(s.update(i, p).drop_last() =~= s.drop_last());
            assert(s.update(i, p).last() == p);
            assert(Self::map_of(s.drop_last()).insert(p.0, p.1@) =~= Self::map_of(
                s.drop_last(),
            ).insert(s[i].0, s[i].1@).insert(p.0, p.1@));
        } else {
            let t = s.drop_last();
            assert(s.update(i, p).drop_last() =~= t.update(i, p));
            assert(s.update(i, p).last() == s.last());
            Self::lemma_map_of_update(t, i, p);
            assert(Self::map_of(t).insert(p.0, p.1@).insert(s.last().0, s.last().1@)
                =~= Self::map_of(t).insert(s.last().0, s.last().1@).insert(p.0, p.1@));
        }
    }

    /// Inserts the given datum/path pair, overwriting the path of a datum
    /// that is already present; entries for other data are untouched.
    pub fn insert(&mut self, k: char, v: String)
        requires
            old(self).wf(),
        ensures
            final(self).wf(),
            final(self)@ == old(self)@.insert(k, v@),
    {
        let ghost s = self.entries@;
        let mut i: usize = 0;
        while i < self.entries.len()
            invariant
                self == old(self),
                s == self.entries@,
                i <= s.len(),
                old(self).wf(),
                forall|x: int| 0 <= x < i ==> (#[trigger] s[x]).0 != k,
            decreases s.len() - i,
        {
            if self.entries[i].0 == k {
                proof {
                    Self::lemma_map_of_update(s, i as int, (k, v));
                }
                self.entries.set(i, (k, v));
                return ;
            }
            i += 1;
        }
        proof {
            Self::lemma_map_of_push(s, (k, v));
        }
        self.entries.push((k, v));
    }

    /// Looks up the path recorded for a datum, absent if none was inserted.
    pub fn get(&self, k: char) -> (r: Option<&String>)
        requires
            self.wf(),
        ensures
            match r {
                Some(v) => self@.contains_key(k) && v@ == self@[k],
                None => !self@.contains_key(k),
            },
    {
        let mut i: usize = 0;
        while i < self.entries.len()
            invariant
                i <= self.entries@.len(),
                self.wf(),
                forall|x: int| 0 <= x < i ==> (#[trigger] self.entries@[x]).0 != k,
            decreases self.entries@.len() - i,
        {
            if self.entries[i].0 == k {
                proof {
                    Self::lemma_map_of_at(self.entries@, i as int);
                }
                return Some(&self.entries[i].1);
            }
            i += 1;
        }
        proof {
            Self::lemma_map_of_absent(self.entries@, k);
        }
        None
    }

    /// The number of data recorded in the table.
    pub fn len(&self) -> (n: usize)
        requires
            self.wf(),
        ensures
            n == self@.len(),
    {
        proof {
            Self::lemma_map_of_len(self.entries@);
        }
        self.entries.len()
    }
}

impl View for CodeTable {
    type V = Map<char, Seq<char>>;

    closed spec fn view(&self) -> Map<char, Seq<char>> {
        Self::map_of(self.entries@)
    }
}

} // verus!

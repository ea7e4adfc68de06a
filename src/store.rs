use vstd::prelude::*;

verus! {

/// The store: an association list of keys to values, at most one entry per key.
pub struct KeyValueStore {
    data: Vec<(String, String)>,
    contents: Ghost<Map<Seq<char>, Seq<char>>>,
}

impl View for KeyValueStore {
    type V = Map<Seq<char>, Seq<char>>;

    closed spec fn view(&self) -> Map<Seq<char>, Seq<char>> {
        self.contents@
    }
}

impl KeyValueStore {
    /// Each key occurs once in the list, and the list and the mapping agree.
    pub closed spec fn well_formed(&self) -> bool {
        &&& forall|i: int, j: int|
            0 <= i < j < self.data@.len() ==> #[trigger] self.data@[i].0@ != #[trigger] self.data@[j].0@
        &&& forall|i: int|
            0 <= i < self.data@.len() ==> #[trigger] self.contents@.contains_key(self.data@[i].0@)
                && self.contents@[self.data@[i].0@] == self.data@[i].1@
        &&& forall|k: Seq<char>|
            #[trigger] self.contents@.contains_key(k) ==> exists|i: int|
                0 <= i < self.data@.len() && #[trigger] self.data@[i].0@ == k
    }

    /// An empty store.
    pub fn new() -> (s: Self)
        ensures
            s.well_formed(),
            s@ == Map::<Seq<char>, Seq<char>>::empty(),
    {
        KeyValueStore { data: Vec::new(), contents: Ghost(Map::empty()) }
    }

    /// The position of `key` in the list, if it is there.
    fn find(&self, key: &String) -> (r: Option<usize>)
        requires
            self.well_formed(),
        ensures
            match r {
                Some(i) => i < self.data@.len() && self.data@[i as int].0@ == key@,
                None => !self@.contains_key(key@),
            },
    {
        let mut i: usize = 0;
        while i < self.data.len()
            invariant
                self.well_formed(),
                i <= self.data@.len(),
                forall|j: int| 0 <= j < i ==> #[trigger] self.data@[j].0@ != key@,
            decreases self.data@.len() - i,
        {
            if self.data[i].0 == *key {
                return Some(i);
            }
            i = i + 1;
        }
        None
    }

    /// The value stored under `key`, or `None` where the key has none.
    pub fn get(&self, key: &str) -> (r: Option<&String>)
        requires
            self.well_formed(),
        ensures
            match r {
                Some(v) => self@.contains_key(key@) && v@ == self@[key@],
                None => !self@.contains_key(key@),
            },
    {
        let k = key.to_owned();
        match self.find(&k) {
            Some(i) => {
                assert(self@.contains_key(self.data@[i as int].0@));
                Some(&self.data[i].1)
            },
            None => None,
        }
    }

    /// Stores `value` under `key`, replacing what was there.
    pub fn put(&mut self, key: String, value: String)
        requires
            old(self).well_formed(),
        ensures
            final(self).well_formed(),
            final(self)@ == old(self)@.insert(key@, value@),
    {
        let ghost k = key@;
        let ghost v = value@;
        let ghost pre = self.data@;
        let ghost at: int;
        match self.find(&key) {
            Some(i) => {
                self.data.set(i, (key, value));
                proof { at = i as int; }
            },
            None => {
                self.data.push((key, value));
                proof { at = pre.len() as int; }
            },
        }
        self.contents = Ghost(self.contents@.insert(k, v));
        assert(self.data@[at].0@ == k);
        assert forall|kk: Seq<char>| #[trigger] self.contents@.contains_key(kk) implies exists|i: int|
            0 <= i < self.data@.len() && #[trigger] self.data@[i].0@ == kk by {
            if kk == k {
                assert(self.data@[at].0@ == kk);
            } else {
                let j = choose|j: int| 0 <= j < pre.len() && #[trigger] pre[j].0@ == kk;
                assert(self.data@[j].0@ == kk);
            }
        }
    }
}

} // verus!

use vstd::prelude::*;

verus! {

/// One key and the value stored under it.
pub struct Row<V> {
    pub key: String,
    pub val: V,
}

/// A map from string keys to values, kept as a list of rows with distinct
/// keys. Its view is the map those rows describe.
pub struct Table<V> {
    pub rows: Vec<Row<V>>,
    pub map: Ghost<Map<Seq<char>, V>>,
}

impl<V> View for Table<V> {
    type V = Map<Seq<char>, V>;

    open spec fn view(&self) -> Map<Seq<char>, V> {
        self.map@
    }
}

impl<V> Table<V> {
    /// The rows have distinct keys and describe exactly the view.
    pub open spec fn wf(&self) -> bool {
        &&& forall|i: int, j: int|
            0 <= i < j < self.rows@.len() ==> self.rows@[i].key@ != self.rows@[j].key@
        &&& forall|i: int|
            0 <= i < self.rows@.len() ==> #[trigger] self.map@.contains_key(self.rows@[i].key@)
                && self.map@[self.rows@[i].key@] == self.rows@[i].val
        &&& forall|k: Seq<char>|
            self.map@.contains_key(k) ==> exists|i: int|
                0 <= i < self.rows@.len() && #[trigger] self.rows@[i].key@ == k
    }

    pub fn new() -> (r: Self)
        ensures
            r.wf(),
            r@ == Map::<Seq<char>, V>::empty(),
    {
        Table { rows: Vec::new(), map: Ghost(Map::empty()) }
    }

    /// The position of the row holding `k`, if any.
    pub fn find(&self, k: &String) -> (r: Option<usize>)
        requires
            self.wf(),
        ensures
            r is None <==> !self@.contains_key(k@),
            r is Some ==> r->0 < self.rows@.len() && self.rows@[r->0 as int].key@ == k@,
    {
        let mut i: usize = 0;
        while i < self.rows.len()
            invariant
                self.wf(),
                i <= self.rows@.len(),
                forall|j: int| 0 <= j < i ==> self.rows@[j].key@ != k@,
            decreases self.rows@.len() - i,
        {
            if self.rows[i].key == *k {
                return Some(i);
            }
            i = i + 1;
        }
        None
    }

    pub fn get(&self, k: &String) -> (r: Option<&V>)
        requires
            self.wf(),
        ensures
            r is Some <==> self@.contains_key(k@),
            r is Some ==> *r->0 == self@[k@],
    {
        match self.find(k) {
            Some(i) => Some(&self.rows[i].val),
            None => None,
        }
    }

    pub fn contains(&self, k: &String) -> (r: bool)
        requires
            self.wf(),
        ensures
            r == self@.contains_key(k@),
    {
        self.find(k).is_some()
    }

    /// Stores `v` under `k`, replacing what was there.
    pub fn insert(&mut self, k: String, v: V)
        requires
            old(self).wf(),
        ensures
            final(self).wf(),
            final(self)@ == old(self)@.insert(k@, v),
    {
        let ghost kv = k@;
        let ghost vv = v;
        let ghost pos: int;
        match self.find(&k) {
            Some(i) => {
                self.rows.remove(i);
                self.rows.insert(i, Row { key: k, val: v });
                proof { pos = i as int; }
                assert(self.rows@ == old(self).rows@.update(i as int, Row { key: k, val: v }));
            },
            None => {
                self.rows.push(Row { key: k, val: v });
                proof { pos = old(self).rows@.len() as int; }
            },
        }
        self.map = Ghost(self.map@.insert(kv, vv));
        assert(self.rows@[pos].key@ == kv);
        assert forall|kk: Seq<char>| self.map@.contains_key(kk) implies exists|i: int|
            0 <= i < self.rows@.len() && #[trigger] self.rows@[i].key@ == kk by {
            if kk != kv {
                let j = choose|j: int| 0 <= j < old(self).rows@.len() && #[trigger] old(self).rows@[j].key@ == kk;
                assert(self.rows@[j].key@ == kk);
            } else {
                assert(self.rows@[pos].key@ == kk);
            }
        }
    }

    /// Takes out the row of `k`, returning its value.
    pub fn remove(&mut self, k: &String) -> (r: Option<V>)
        requires
            old(self).wf(),
        ensures
            final(self).wf(),
            final(self)@ == old(self)@.remove(k@),
            r is Some <==> old(self)@.contains_key(k@),
            r is Some ==> r->0 == old(self)@[k@],
    {
        match self.find(k) {
            Some(i) => {
                let row = self.rows.remove(i);
                self.map = Ghost(self.map@.remove(k@));
                assert forall|kk: Seq<char>| self.map@.contains_key(kk) implies exists|j: int|
                    0 <= j < self.rows@.len() && #[trigger] self.rows@[j].key@ == kk by {
                    let j = choose|j: int| 0 <= j < old(self).rows@.len() && #[trigger] old(self).rows@[j].key@ == kk;
                    if j < i {
                        assert(self.rows@[j].key@ == kk);
                    } else {
                        assert(self.rows@[j - 1].key@ == kk);
                    }
                }
                Some(row.val)
            },
            None => None,
        }
    }
}

} // verus!

//! The record of which products have already had their in-stock alert.

use vstd::prelude::*;

verus! {

/// The product ids held by a sequence of strings.
pub open spec fn ids_of(v: Seq<String>) -> Seq<Seq<char>> {
    v.map_values(|s: String| s@)
}

/// Products whose current in-stock streak has already been announced.
///
/// A product is present exactly while its latest observed count is positive
/// and the alert for that streak has been delivered.
pub struct NotificationState {
    alerted: Vec<String>,
}

impl View for NotificationState {
    type V = Set<Seq<char>>;

    closed spec fn view(&self) -> Set<Seq<char>> {
        ids_of(self.alerted@).to_set()
    }
}

impl NotificationState {
    /// Each product is held once.
    pub closed spec fn wf(&self) -> bool {
        ids_of(self.alerted@).no_duplicates()
    }

    /// An empty record: nothing has been announced yet.
    pub fn new() -> (r: Self)
        ensures
            r.wf(),
            r@ == Set::<Seq<char>>::empty(),
    {
        let r = NotificationState { alerted: Vec::new() };
        assert(ids_of(r.alerted@).to_set() =~= Set::<Seq<char>>::empty());
        r
    }

    /// Position of `id` in the record, if it is there.
    fn position(&self, id: &String) -> (r: Option<usize>)
        requires
            self.wf(),
        ensures
            match r {
                Some(i) => i < self.alerted@.len() && self.alerted@[i as int]@ == id@,
                None => !self@.contains(id@),
            },
    {
        let mut i: usize = 0;
        while i < self.alerted.len()
            invariant
                i <= self.alerted@.len(),
                forall|j: int| 0 <= j < i ==> self.alerted@[j]@ != id@,
            decreases self.alerted@.len() - i,
        {
            if self.alerted[i] == *id {
                return Some(i);
            }
            i = i + 1;
        }
        proof {
            if ids_of(self.alerted@).to_set().contains(id@) {
                let k = ids_of(self.alerted@).index_of(id@);
                assert(self.alerted@[k]@ == id@);
            }
        }
        None
    }

    /// Whether the alert for `id`'s current streak has been delivered.
    pub fn has_alerted(&self, id: &str) -> (r: bool)
        requires
            self.wf(),
        ensures
            r == self@.contains(id@),
    {
        let key = String::from_str(id);
        match self.position(&key) {
            Some(i) => {
                proof {
                    assert(ids_of(self.alerted@)[i as int] == id@);
                }
                true
            },
            None => false,
        }
    }

    /// Records that `id`'s alert was delivered; a second mark changes nothing.
    pub fn mark_alerted(&mut self, id: &str)
        requires
            old(self).wf(),
        ensures
            final(self).wf(),
            final(self)@ == old(self)@.insert(id@),
    {
        let key = String::from_str(id);
        match self.position(&key) {
            Some(i) => {
                proof {
                    assert(ids_of(self.alerted@)[i as int] == id@);
                    assert(self@.insert(id@) =~= self@);
                }
            },
            None => {
                let ghost before = self.alerted@;
                self.alerted.push(key);
                proof {
                    assert(ids_of(self.alerted@) =~= ids_of(before).push(id@));
                    assert(ids_of(self.alerted@).to_set() =~= ids_of(before).to_set().insert(
                        id@,
                    )) by {
                        assert forall|x: Seq<char>|
                            ids_of(self.alerted@).contains(x) <==> ids_of(before).contains(x)
                                || x == id@ by {
                            if ids_of(self.alerted@).contains(x) {
                                let k = ids_of(self.alerted@).index_of(x);
                                if k < before.len() {
                                    assert(ids_of(before)[k] == x);
                                }
                            }
                            if ids_of(before).contains(x) {
                                let k = ids_of(before).index_of(x);
                                assert(ids_of(self.alerted@)[k] == x);
                            }
                            if x == id@ {
                                assert(ids_of(self.alerted@)[before.len() as int] == x);
                            }
                        }
                    }
                }
            },
        }
    }

    /// Forgets `id`, so that its next in-stock observation alerts again.
    pub fn clear(&mut self, id: &str)
        requires
            old(self).wf(),
        ensures
            final(self).wf(),
            final(self)@ == old(self)@.remove(id@),
    {
        let key = String::from_str(id);
        match self.position(&key) {
            Some(i) => {
                let ghost before = self.alerted@;
                let _gone = self.alerted.remove(i);
                proof {
                    assert(ids_of(self.alerted@) =~= ids_of(before).remove(i as int));
                    assert(ids_of(before)[i as int] == id@);
                    assert forall|x: Seq<char>|
                        ids_of(self.alerted@).contains(x) <==> (ids_of(before).contains(x)
                            && x != id@) by {
                        if ids_of(self.alerted@).contains(x) {
                            let k = ids_of(self.alerted@).index_of(x);
                            if k < i {
                                assert(ids_of(before)[k] == x);
                            } else {
                                assert(ids_of(before)[k + 1] == x);
                            }
                        }
                        if ids_of(before).contains(x) && x != id@ {
                            let k = ids_of(before).index_of(x);
                            if k < i {
                                assert(ids_of(self.alerted@)[k] == x);
                            } else {
                                assert(ids_of(self.alerted@)[k - 1] == x);
                            }
                        }
                    }
                    assert(ids_of(self.alerted@).to_set() =~= ids_of(before).to_set().remove(
                        id@,
                    ));
                    assert(ids_of(self.alerted@).no_duplicates()) by {
                        assert forall|a: int, b: int|
                            0 <= a < b < ids_of(self.alerted@).len() implies ids_of(
                                self.alerted@,
                            )[a] != ids_of(self.alerted@)[b] by {
                            let a0 = if a < i { a } else { a + 1 };
                            let b0 = if b < i { b } else { b + 1 };
                            assert(ids_of(self.alerted@)[a] == ids_of(before)[a0]);
                            assert(ids_of(self.alerted@)[b] == ids_of(before)[b0]);
                        }
                    }
                }
            },
            None => {
                proof {
                    assert(self@.remove(id@) =~= self@);
                }
            },
        }
    }
}

} // verus!

use vstd::prelude::*;

use crate::has_id::HasId;

verus! {

/// No two entries of `s` carry the same identity.
pub open spec fn ids_distinct<T: HasId>(s: Seq<T>) -> bool {
    forall|i: int, j: int|
        0 <= i < j < s.len() ==> #[trigger] s[i].id_spec() != #[trigger] s[j].id_spec()
}

/// Some entry of `s` carries the identity `id`.
pub open spec fn seq_contains_id<T: HasId>(s: Seq<T>, id: u128) -> bool {
    exists|i: int| 0 <= i < s.len() && #[trigger] s[i].id_spec() == id
}

/// The position of the entry of `s` that carries the identity `id`;
/// meaningful only when such an entry exists, and unique when the
/// identities of `s` are distinct.
pub open spec fn seq_index_of<T: HasId>(s: Seq<T>, id: u128) -> int {
    choose|i: int| 0 <= i < s.len() && #[trigger] s[i].id_spec() == id
}

/// An identity-indexed FIFO container: it holds at most one entry per
/// identity, hands entries back in insertion order, and allows lookup
/// and removal of an arbitrary entry by identity.
///
/// Its view is the sequence of entries in FIFO order, oldest first;
/// every contract below is stated over that view.
pub struct LinkedHashmap<T: HasId> {
    items: Vec<T>,
}

impl<T: HasId> View for LinkedHashmap<T> {
    type V = Seq<T>;

    closed spec fn view(&self) -> Seq<T> {
        self.items@
    }
}

impl<T: HasId> LinkedHashmap<T> {
    /// Well-formedness: no identity appears twice.
    pub open spec fn wf(self) -> bool {
        ids_distinct(self@)
    }

    /// Whether some entry carries the identity `id`.
    pub open spec fn contains_id(self, id: u128) -> bool {
        seq_contains_id(self@, id)
    }

    /// An empty container.
    pub fn new() -> (r: Self)
        ensures
            r@ == Seq::<T>::empty(),
            r.wf(),
    {
        LinkedHashmap { items: Vec::new() }
    }

    /// How many entries the container holds.
    pub fn len(&self) -> (r: usize)
        ensures
            r == self@.len(),
    {
        self.items.len()
    }

    /// Whether the container holds no entry.
    pub fn is_empty(&self) -> (r: bool)
        ensures
            r == (self@.len() == 0),
    {
        self.items.len() == 0
    }

    /// Whether an entry with the identity `id` is present.
    pub fn contains(&self, id: &u128) -> (r: bool)
        ensures
            r == self.contains_id(*id),
    {
        let n = self.items.len();
        let mut i: usize = 0;
        while i < n
            invariant
                n == self.items@.len(),
                0 <= i <= n,
                forall|j: int| 0 <= j < i ==> #[trigger] self.items@[j].id_spec() != *id,
            decreases n - i,
        {
            if self.items[i].id() == *id {
                return true;
            }
            i = i + 1;
        }
        false
    }

    /// Append `value` at the tail. If an entry with the same identity is
    /// already present the call is a no-op: the stored entry is kept and
    /// `value` is discarded.
    pub fn push(&mut self, value: T)
        requires
            old(self).wf(),
        ensures
            final(self).wf(),
            old(self).contains_id(value.id_spec()) ==> final(self)@ == old(self)@,
            !old(self).contains_id(value.id_spec()) ==> final(self)@ == old(self)@.push(value),
    {
        let id = value.id();
        if self.contains(&id) {
            return ;
        }
        self.items.push(value);
    }

    /// Insert `value` at the head. If an entry with the same identity is
    /// already present the call is a no-op: the stored entry is kept and
    /// `value` is discarded.
    pub fn push_first(&mut self, value: T)
        requires
            old(self).wf(),
        ensures
            final(self).wf(),
            old(self).contains_id(value.id_spec()) ==> final(self)@ == old(self)@,
            !old(self).contains_id(value.id_spec()) ==> final(self)@ == old(self)@.insert(
                0,
                value,
            ),
    {
        let id = value.id();
        if self.contains(&id) {
            return ;
        }
        proof {
            lemma_insert_distinct(self@, 0, value);
        }
        self.items.insert(0, value);
    }

    /// Remove and return the oldest entry; the absent signal on an empty
    /// container, which is left empty.
    pub fn pop(&mut self) -> (r: Option<T>)
        requires
            old(self).wf(),
        ensures
            final(self).wf(),
            old(self)@.len() == 0 ==> r is None && final(self)@ == old(self)@,
            old(self)@.len() > 0 ==> r == Some(old(self)@[0]) && final(self)@ == old(self)@.drop_first() && !final(self).contains_id(old(self)@[0].id_spec()),
    {
        if self.items.len() == 0 {
            None
        } else {
            proof {
                lemma_remove_distinct(self@, 0);
                assert(self@.remove(0) =~= self@.drop_first());
            }
            let v = self.items.remove(0);
            Some(v)
        }
    }

    /// Remove and return the entry carrying the identity `id`, leaving
    /// the other entries in their FIFO order; the absent signal if no
    /// entry carries it.
    pub fn remove(&mut self, id: &u128) -> (r: Option<T>)
        requires
            old(self).wf(),
        ensures
            final(self).wf(),
            !old(self).contains_id(*id) ==> r is None && final(self)@ == old(self)@,
            old(self).contains_id(*id) ==> r == Some(
                old(self)@[seq_index_of(old(self)@, *id)],
            ) && final(self)@ == old(self)@.remove(seq_index_of(old(self)@, *id)) && final(self)@.len() == old(self)@.len() - 1 && !final(self).contains_id(*id),
    {
        match self.index_of(id) {
            Some(i) => {
                proof {
                    lemma_remove_distinct(self@, i as int);
                }
                let v = self.items.remove(i);
                Some(v)
            },
            None => None,
        }
    }

    /// Read the oldest entry without disturbing the container.
    pub fn peek(&self) -> (r: Option<&T>)
        ensures
            match r {
                Some(v) => self@.len() > 0 && *v == self@[0],
                None => self@.len() == 0,
            },
    {
        if self.items.len() == 0 {
            None
        } else {
            Some(&self.items[0])
        }
    }

    /// Read the newest entry without disturbing the container.
    pub fn peek_tail(&self) -> (r: Option<&T>)
        ensures
            match r {
                Some(v) => self@.len() > 0 && *v == self@[self@.len() - 1],
                None => self@.len() == 0,
            },
    {
        if self.items.len() == 0 {
            None
        } else {
            Some(&self.items[self.items.len() - 1])
        }
    }

    /// Read the entry carrying the identity `id`, if any.
    pub fn get(&self, id: &u128) -> (r: Option<&T>)
        requires
            self.wf(),
        ensures
            match r {
                Some(v) => self.contains_id(*id) && *v == self@[seq_index_of(self@, *id)],
                None => !self.contains_id(*id),
            },
    {
        match self.index_of(id) {
            Some(i) => Some(&self.items[i]),
            None => None,
        }
    }

    /// Borrow the entry carrying the identity `id` mutably, leaving its
    /// FIFO position untouched. As long as the caller keeps the entry's
    /// identity stable — which `HasId` demands — the container stays
    /// well-formed.
    pub fn get_mut(&mut self, id: &u128) -> (r: Option<&mut T>)
        requires
            old(self).wf(),
        ensures
            match r {
                Some(v) => old(self).contains_id(*id) && *v == old(self)@[seq_index_of(
                    old(self)@,
                    *id,
                )] && final(self)@ == old(self)@.update(
                    seq_index_of(old(self)@, *id),
                    *final(v),
                ) && (final(v).id_spec() == *id ==> final(self).wf()),
                None => !old(self).contains_id(*id) && final(self)@ == old(self)@ && final(self).wf(),
            },
    {
        match self.index_of(id) {
            Some(i) => {
                proof {
                    lemma_update_distinct_holds(self@, i as int);
                }
                Some(&mut self.items[i])
            },
            None => None,
        }
    }

    /// Discard every entry and reset the container to empty.
    pub fn clear(&mut self)
        ensures
            final(self)@ == Seq::<T>::empty(),
            final(self).wf(),
    {
        self.items.clear();
    }

    /// The position of the entry carrying `id`, if any.
    fn index_of(&self, id: &u128) -> (r: Option<usize>)
        requires
            self.wf(),
        ensures
            match r {
                Some(i) => self.contains_id(*id) && i < self@.len() && self@[i as int].id_spec()
                    == *id && i as int == seq_index_of(self@, *id),
                None => !self.contains_id(*id),
            },
    {
        let n = self.items.len();
        let mut i: usize = 0;
        while i < n
            invariant
                n == self.items@.len(),
                0 <= i <= n,
                self.wf(),
                forall|j: int| 0 <= j < i ==> #[trigger] self.items@[j].id_spec() != *id,
            decreases n - i,
        {
            if self.items[i].id() == *id {
                proof {
                    assert(seq_contains_id(self@, *id));
                    let j = seq_index_of(self@, *id);
                    assert(0 <= j < self@.len() && self@[j].id_spec() == *id);
                    assert(j == i as int);
                }
                return Some(i);
            }
            i = i + 1;
        }
        None
    }
}

impl<T: HasId> Default for LinkedHashmap<T> {
    /// An empty container.
    fn default() -> (r: Self)
        ensures
            r@ == Seq::<T>::empty(),
            r.wf(),
    {
        Self::new()
    }
}

/// Law: a removal deletes one entry and nothing else; any two entries
/// that survive it keep their values and their relative FIFO order.
/// `a` and `b` are the former positions of two surviving entries, in
/// order; after cutting out position `i` they stand at the shifted
/// positions, still in that order.
pub proof fn lemma_remove_keeps_relative_order<T: HasId>(s: Seq<T>, i: int, a: int, b: int)
    requires
        0 <= i < s.len(),
        0 <= a < b < s.len(),
        a != i,
        b != i,
    ensures
        (if a < i {
            s.remove(i)[a] == s[a]
        } else {
            s.remove(i)[a - 1] == s[a]
        }),
        (if b < i {
            s.remove(i)[b] == s[b]
        } else {
            s.remove(i)[b - 1] == s[b]
        }),
        (if a < i {
            a
        } else {
            a - 1
        }) < (if b < i {
            b
        } else {
            b - 1
        }),
{
}

/// The results of popping a container that holds the entries `s` in
/// FIFO order until it is empty: the oldest entry, then whatever
/// draining the rest yields.
pub open spec fn drained<T: HasId>(s: Seq<T>) -> Seq<T>
    decreases s.len(),
{
    if s.len() == 0 {
        Seq::empty()
    } else {
        seq![s[0]] + drained(s.drop_first())
    }
}

/// Law: pushing distinct entries and then popping until the container
/// is empty yields them in their insertion order. `push` appends each
/// fresh entry to the view, `pop` returns the first entry of the view
/// and drops it, and draining a view that way reproduces the view.
pub proof fn lemma_drain_in_insertion_order<T: HasId>(s: Seq<T>)
    ensures
        drained(s) == s,
    decreases s.len(),
{
    if s.len() == 0 {
        assert(drained(s) =~= s);
    } else {
        lemma_drain_in_insertion_order(s.drop_first());
        assert(drained(s) =~= s);
    }
}

/// Removing one entry of a sequence with pairwise distinct identities
/// leaves the identities pairwise distinct, and no entry left behind
/// carries the removed entry's identity.
proof fn lemma_remove_distinct<T: HasId>(s: Seq<T>, i: int)
    requires
        ids_distinct(s),
        0 <= i < s.len(),
    ensures
        ids_distinct(s.remove(i)),
        !seq_contains_id(s.remove(i), s[i].id_spec()),
{
    let t = s.remove(i);
    assert forall|a: int, b: int|
        0 <= a < b < t.len() implies #[trigger] t[a].id_spec() != #[trigger] t[b].id_spec() by {
        if a < i {
            assert(t[a] == s[a]);
        } else {
            assert(t[a] == s[a + 1]);
        }
        if b < i {
            assert(t[b] == s[b]);
        } else {
            assert(t[b] == s[b + 1]);
        }
    };
    assert forall|k: int| 0 <= k < t.len() implies #[trigger] t[k].id_spec() != s[i].id_spec() by {
        if k < i {
            assert(t[k] == s[k]);
        } else {
            assert(t[k] == s[k + 1]);
        }
    };
}

/// Inserting an entry whose identity is absent from a sequence with
/// pairwise distinct identities leaves the identities pairwise distinct.
proof fn lemma_insert_distinct<T: HasId>(s: Seq<T>, i: int, v: T)
    requires
        ids_distinct(s),
        !seq_contains_id(s, v.id_spec()),
        0 <= i <= s.len(),
    ensures
        ids_distinct(s.insert(i, v)),
{
    let t = s.insert(i, v);
    assert forall|a: int, b: int|
        0 <= a < b < t.len() implies #[trigger] t[a].id_spec() != #[trigger] t[b].id_spec() by {
        if a < i {
            assert(t[a] == s[a]);
        } else if a == i {
            assert(t[a] == v);
        } else {
            assert(t[a] == s[a - 1]);
        }
        if b < i {
            assert(t[b] == s[b]);
        } else if b == i {
            assert(t[b] == v);
        } else {
            assert(t[b] == s[b - 1]);
        }
    };
}

/// Overwriting one entry of a sequence with pairwise distinct identities
/// by an entry that keeps that identity leaves the identities pairwise
/// distinct, whatever the rest of the new entry holds.
proof fn lemma_update_distinct_holds<T: HasId>(s: Seq<T>, i: int)
    requires
        ids_distinct(s),
        0 <= i < s.len(),
    ensures
        forall|v: T|
            #[trigger] v.id_spec() == s[i].id_spec() ==> ids_distinct(s.update(i, v)),
{
    assert forall|v: T| #[trigger] v.id_spec() == s[i].id_spec() implies ids_distinct(
        s.update(i, v),
    ) by {
        let t = s.update(i, v);
        assert forall|a: int, b: int|
            0 <= a < b < t.len() implies #[trigger] t[a].id_spec() != #[trigger] t[b].id_spec() by {
            if a != i {
                assert(t[a] == s[a]);
            }
            if b != i {
                assert(t[b] == s[b]);
            }
        };
    };
}

} // verus!


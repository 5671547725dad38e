//! The interning pool: every repeated string across the dataset is collapsed
//! to a single pooled entry, and a handle carries the entry's index so that
//! equality of two pooled strings can be decided by comparing indices alone
//! (the analogue of pointer identity on shared strings).

use vstd::prelude::*;

verus! {

use crate::text::str_eq;

/// A shared, immutable string together with the index of its pool entry.
///
/// Two handles interned in the same pool have equal indices exactly when they
/// have equal contents (`lemma_interned_handle_eq`), so index comparison is a
/// legal fast path for equality.
pub struct InternedString {
    id: usize,
    text: String,
}

impl View for InternedString {
    type V = Seq<char>;

    closed spec fn view(&self) -> Seq<char> {
        self.text@
    }
}

impl DeepView for InternedString {
    type V = Seq<char>;

    open spec fn deep_view(&self) -> Seq<char> {
        self@
    }
}

impl InternedString {
    /// The pool index this handle claims; meaningful only for handles that
    /// `StringSet::is_interned` accepts.
    pub closed spec fn spec_id(&self) -> int {
        self.id as int
    }

    /// A fresh, not-yet-interned handle. Interning it later gives it a real index.
    pub fn new(text: String) -> (r: InternedString)
        ensures
            r@ == text@,
    {
        InternedString { id: usize::MAX, text }
    }

    pub fn as_str(&self) -> (r: &str)
        ensures
            r@ == self@,
    {
        self.text.as_str()
    }

    /// The pool index, as a value usable for keying joins.
    pub fn id(&self) -> (r: usize)
        ensures
            r as int == self.spec_id(),
    {
        self.id
    }

    /// Index comparison: the interning fast path for equality.
    pub fn ptr_eq(a: &InternedString, b: &InternedString) -> (r: bool)
        ensures
            r == (a.spec_id() == b.spec_id()),
    {
        a.id == b.id
    }
}

impl Clone for InternedString {
    fn clone(&self) -> (r: Self)
        ensures
            r == *self,
    {
        InternedString { id: self.id, text: self.text.clone() }
    }
}

/// The interning pool. Entry `i` holds the contents of every handle with
/// index `i`; `None` marks an entry reclaimed by `clean`. Indices are stable:
/// entries are never moved, only cleared.
pub struct StringSet {
    slots: Vec<Option<String>>,
}

impl View for StringSet {
    type V = Seq<Option<Seq<char>>>;

    closed spec fn view(&self) -> Seq<Option<Seq<char>>> {
        self.slots.deep_view()
    }
}

impl StringSet {
    /// No two live entries hold the same contents.
    #[verifier::type_invariant]
    pub closed spec fn inv(self) -> bool {
        forall|i: int, j: int|
            0 <= i < j < self@.len() && self@[i] is Some ==> self@[i] != self@[j]
    }

    /// A handle is backed by the pool: its index is in range and the entry
    /// there holds exactly its contents.
    pub open spec fn is_interned(self, h: InternedString) -> bool {
        &&& 0 <= h.spec_id() < self@.len()
        &&& self@[h.spec_id()] == Some(h@)
    }

    /// Some entry of the pool holds `t`.
    pub open spec fn contains_text(self, t: Seq<char>) -> bool {
        exists|i: int| 0 <= i < self@.len() && self@[i] == Some(t)
    }

    /// Every entry of `older` is unchanged in `self`; handles interned in
    /// `older` stay interned.
    pub open spec fn extends(self, older: StringSet) -> bool {
        &&& self@.len() >= older@.len()
        &&& forall|i: int| 0 <= i < older@.len() ==> self@[i] == older@[i]
    }

    pub fn with_capacity(capacity: usize) -> (r: StringSet)
        ensures
            r@ =~= Seq::<Option<Seq<char>>>::empty(),
    {
        let slots: Vec<Option<String>> = Vec::with_capacity(capacity);
        StringSet { slots }
    }

    /// The total number of entries, reclaimed ones included: the length a
    /// live mask for `clean` must have.
    pub fn slot_count(&self) -> (r: usize)
        ensures
            r == self@.len(),
    {
        self.slots.len()
    }

    /// The number of live (non-reclaimed) entries.
    pub closed spec fn spec_live_count(self) -> nat {
        Self::live_count_of(self@)
    }

    pub closed spec fn live_count_of(s: Seq<Option<Seq<char>>>) -> nat
        decreases s.len(),
    {
        if s.len() == 0 {
            0
        } else {
            Self::live_count_of(s.drop_last()) + (if s.last() is Some { 1nat } else { 0nat })
        }
    }

    pub fn live_count(&self) -> (r: usize)
        ensures
            r == self.spec_live_count(),
    {
        let mut count: usize = 0;
        let mut i: usize = 0;
        while i < self.slots.len()
            invariant
                i <= self@.len(),
                count <= i,
                count == Self::live_count_of(self@.take(i as int)),
                self@.len() == self.slots@.len(),
            decreases self@.len() - i,
        {
            proof {
                assert(self@.take(i + 1).drop_last() =~= self@.take(i as int));
                assert(self@.take(i + 1).last() == self@[i as int]);
            }
            if self.slots[i].is_some() {
                count = count + 1;
            }
            i = i + 1;
        }
        proof {
            assert(self@.take(self@.len() as int) =~= self@);
        }
        count
    }

    /// Linear scan for an entry holding `s`.
    fn find(&self, s: &str) -> (r: Option<usize>)
        ensures
            match r {
                Some(i) => 0 <= i < self@.len() && self@[i as int] == Some(s@),
                None => !self.contains_text(s@),
            },
    {
        let mut i: usize = 0;
        while i < self.slots.len()
            invariant
                i <= self@.len(),
                self@.len() == self.slots@.len(),
                forall|j: int| 0 <= j < i ==> self@[j] != Some(s@),
            decreases self@.len() - i,
        {
            match &self.slots[i] {
                Some(t) => {
                    if str_eq(t.as_str(), s) {
                        return Some(i);
                    }
                },
                None => {},
            }
            i = i + 1;
        }
        None
    }

    /// Look `s` up without interning it: the handle for its contents when
    /// they are pooled, and nothing otherwise.
    pub fn get(&self, s: &str) -> (r: Option<InternedString>)
        ensures
            match r {
                Some(h) => h@ == s@ && self.is_interned(h),
                None => !self.contains_text(s@),
            },
    {
        match self.find(s) {
            Some(i) => {
                let text = match &self.slots[i] {
                    Some(t) => t.clone(),
                    None => {
                        proof {
                            assert(false);
                        }
                        String::new()
                    },
                };
                Some(InternedString { id: i, text })
            },
            None => None,
        }
    }

    /// Intern `s`: return the existing handle when the contents are already
    /// pooled (leaving the pool untouched), otherwise append a new entry.
    pub fn intern(&mut self, s: &str) -> (h: InternedString)
        ensures
            h@ == s@,
            final(self).is_interned(h),
            final(self).extends(*old(self)),
            old(self).contains_text(s@) ==> final(self)@ == old(self)@,
            !old(self).contains_text(s@) ==> final(self)@ =~= old(self)@.push(Some(s@)),
    {
        match self.find(s) {
            Some(i) => {
                let text = match &self.slots[i] {
                    Some(t) => t.clone(),
                    None => {
                        proof {
                            assert(false);
                        }
                        String::new()
                    },
                };
                InternedString { id: i, text }
            },
            None => {
                proof {
                    use_type_invariant(&*self);
                }
                let mut slots: Vec<Option<String>> = Vec::new();
                core::mem::swap(&mut slots, &mut self.slots);
                let id = slots.len();
                slots.push(Some(s.to_owned()));
                proof {
                    assert(slots.deep_view() =~= old(self)@.push(Some(s@)));
                }
                self.slots = slots;
                InternedString { id, text: s.to_owned() }
            },
        }
    }

    /// Intern in place: replace `reference` with the pooled handle for its
    /// contents, preserving the contents themselves.
    pub fn dedupe_arc(&mut self, reference: &mut InternedString)
        ensures
            final(reference)@ == old(reference)@,
            final(self).is_interned(*final(reference)),
            final(self).extends(*old(self)),
            old(self).contains_text(old(reference)@) ==> final(self)@ == old(self)@,
            !old(self).contains_text(old(reference)@) ==> final(self)@ =~= old(self)@.push(
                Some(old(reference)@),
            ),
    {
        let h = self.intern(reference.as_str());
        *reference = h;
    }

    /// Intern every string field of `obj`: afterwards the record's contents
    /// are unchanged and its shared strings are backed by the pool, as the
    /// record type's own `deduped` states.
    pub fn dedupe_struct<T: Dedupe>(&mut self, obj: &mut T)
        ensures
            final(self).extends(*old(self)),
            T::deduped(*old(obj), *final(obj), *final(self)),
    {
        obj.dedupe(self);
    }

    /// Reclaim entries: entry `i` survives exactly when `live[i]` marks it as
    /// still referenced from outside the pool. Indices of surviving entries
    /// are unchanged.
    pub fn clean(&mut self, live: &Vec<bool>)
        requires
            live@.len() == old(self)@.len(),
        ensures
            final(self)@.len() == old(self)@.len(),
            forall|i: int|
                0 <= i < old(self)@.len() ==> final(self)@[i] == (if live@[i] {
                    old(self)@[i]
                } else {
                    None::<Seq<char>>
                }),
    {
        proof {
            use_type_invariant(&*self);
        }
        let mut slots: Vec<Option<String>> = Vec::new();
        core::mem::swap(&mut slots, &mut self.slots);
        let mut i: usize = 0;
        while i < slots.len()
            invariant
                i <= slots@.len(),
                slots@.len() == old(self)@.len(),
                live@.len() == old(self)@.len(),
                forall|j: int|
                    i <= j < slots@.len() ==> #[trigger] slots@[j].deep_view() == old(self)@[j],
                forall|j: int|
                    0 <= j < i ==> #[trigger] slots@[j].deep_view() == (if live@[j] {
                        old(self)@[j]
                    } else {
                        None::<Seq<char>>
                    }),
                old(self).inv(),
            decreases slots@.len() - i,
        {
            if !live[i] {
                slots.set(i, None);
            }
            i = i + 1;
        }
        proof {
            assert forall|a: int, b: int|
                0 <= a < b < slots.deep_view().len() && slots.deep_view()[a] is Some implies slots.deep_view()[a]
                != slots.deep_view()[b] by {
                assert(slots.deep_view()[a] == slots@[a].deep_view());
                assert(slots.deep_view()[b] == slots@[b].deep_view());
            }
        }
        self.slots = slots;
        proof {
            assert forall|j: int| 0 <= j < old(self)@.len() implies self@[j] == (if live@[j] {
                old(self)@[j]
            } else {
                None::<Seq<char>>
            }) by {
            assert(self@[j] == slots@[j].deep_view());
            }
        }
    }

    /// A snapshot's handles are canonical: an interned handle's contents are
    /// pooled, and interning those contents again can only answer with the
    /// same index, since no other entry holds them.
    pub proof fn lemma_intern_canonical(&self, h: InternedString)
        requires
            self.inv(),
            self.is_interned(h),
        ensures
            self.contains_text(h@),
            forall|h2: InternedString|
                self.is_interned(h2) && h2@ == h@ ==> #[trigger] h2.spec_id() == h.spec_id(),
    {
        assert(self@[h.spec_id()] == Some(h@));
        assert forall|h2: InternedString|
            self.is_interned(h2) && h2@ == h@ implies #[trigger] h2.spec_id() == h.spec_id() by {
            self.lemma_interned_handle_eq(h, h2);
        }
    }

    /// Two handles interned in the same pool have equal indices exactly when
    /// they have equal contents.
    pub proof fn lemma_interned_handle_eq(&self, a: InternedString, b: InternedString)
        requires
            self.inv(),
            self.is_interned(a),
            self.is_interned(b),
        ensures
            (a.spec_id() == b.spec_id()) <==> (a@ == b@),
    {
    }
}

impl Default for StringSet {
    fn default() -> (r: Self)
        ensures
            r@ =~= Seq::<Option<Seq<char>>>::empty(),
    {
        StringSet { slots: Vec::new() }
    }
}

impl Clone for StringSet {
    fn clone(&self) -> (r: Self)
        ensures
            r@ == self@,
    {
        proof {
            use_type_invariant(self);
        }
        let mut slots: Vec<Option<String>> = Vec::new();
        let mut i: usize = 0;
        while i < self.slots.len()
            invariant
                i <= self.slots@.len(),
                slots@.len() == i,
                forall|j: int| 0 <= j < i ==> #[trigger] slots@[j].deep_view() == self@[j],
                self@.len() == self.slots@.len(),
            decreases self.slots@.len() - i,
        {
            let entry: Option<String> = match &self.slots[i] {
                Some(t) => Some(t.clone()),
                None => None,
            };
            proof {
                assert(entry.deep_view() == self@[i as int]);
            }
            slots.push(entry);
            i = i + 1;
        }
        proof {
            assert forall|j: int| 0 <= j < slots.deep_view().len() implies slots.deep_view()[j]
                == self@[j] by {
                assert(slots.deep_view()[j] == slots@[j].deep_view());
            }
            assert(slots.deep_view() =~= self@);
        }
        StringSet { slots }
    }
}

/// A record whose string fields can be interned into the pool. Each
/// implementor says in `deduped` what one interning pass owes: contents
/// preserved, and every shared string backed by the grown pool.
pub trait Dedupe {
    spec fn deduped(self, updated: Self, set: StringSet) -> bool;

    fn dedupe(&mut self, set: &mut StringSet)
        ensures
            final(set).extends(*old(set)),
            old(self).deduped(*final(self), *final(set));
}

} // verus!

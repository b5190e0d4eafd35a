//! Fixed-capacity stack of held keys that backs last-note priority in mono mode.
//!
//! - Capacity 16: fifteen keys of a computer keyboard plus slack.
//! - On overflow the oldest entry is dropped, so the most recent key always stays.

use vstd::prelude::*;
use vstd::std_specs::cmp::PartialEqSpec;

verus! {

/// Capacity of the mono-mode hold stack.
pub const MAX_HELD: usize = 16;

/// `i` is the first position of `v` in `s`.
pub open spec fn is_first_pos<T>(s: Seq<T>, v: T, i: int) -> bool {
    &&& 0 <= i < s.len()
    &&& s[i] == v
    &&& forall|j: int| 0 <= j < i ==> s[j] != v
}

/// `s` with its first occurrence of `v` taken out (`s` itself when `v` does not occur).
pub open spec fn remove_first<T>(s: Seq<T>, v: T) -> Seq<T>
    decreases s.len(),
{
    if s.len() == 0 {
        s
    } else if s[0] == v {
        s.drop_first()
    } else {
        seq![s[0]] + remove_first(s.drop_first(), v)
    }
}

/// Removing the first occurrence is `Seq::remove` at its first position.
pub proof fn lemma_remove_first_at<T>(s: Seq<T>, v: T, i: int)
    requires
        is_first_pos(s, v, i),
    ensures
        remove_first(s, v) == s.remove(i),
    decreases s.len(),
{
    if s[0] == v {
        assert(i == 0);
        assert(s.drop_first() =~= s.remove(0));
    } else {
        assert(is_first_pos(s.drop_first(), v, i - 1));
        lemma_remove_first_at(s.drop_first(), v, i - 1);
        assert(seq![s[0]] + s.drop_first().remove(i - 1) =~= s.remove(i));
    }
}

/// Removing an absent value changes nothing.
pub proof fn lemma_remove_first_absent<T>(s: Seq<T>, v: T)
    requires
        !s.contains(v),
    ensures
        remove_first(s, v) == s,
    decreases s.len(),
{
    if s.len() > 0 {
        assert(s[0] != v);
        assert(!s.drop_first().contains(v)) by {
            if s.drop_first().contains(v) {
                let k = choose|k: int| 0 <= k < s.drop_first().len() && s.drop_first()[k] == v;
                assert(s[k + 1] == v);
            }
        }
        lemma_remove_first_absent(s.drop_first(), v);
        assert(seq![s[0]] + s.drop_first() =~= s);
    }
}

/// Removing from a sequence without duplicates leaves no occurrence of the value,
/// keeps the other elements, and keeps the sequence free of duplicates.
pub proof fn lemma_remove_first_no_duplicates<T>(s: Seq<T>, v: T)
    requires
        s.no_duplicates(),
    ensures
        !remove_first(s, v).contains(v),
        remove_first(s, v).no_duplicates(),
        forall|x: T| x != v ==> (remove_first(s, v).contains(x) <==> s.contains(x)),
        remove_first(s, v).len() == if s.contains(v) { s.len() - 1 } else { s.len() as int },
{
    if s.contains(v) {
        let i = choose|i: int| 0 <= i < s.len() && s[i] == v;
        assert(is_first_pos(s, v, i)) by {
            assert forall|j: int| 0 <= j < i implies s[j] != v by {
                if s[j] == v {
                    assert(s[j] == s[i]);
                }
            }
        }
        lemma_remove_first_at(s, v, i);
        let t = s.remove(i);
        assert forall|k: int| 0 <= k < t.len() implies t[k] != v by {
            if k < i {
                assert(t[k] == s[k]);
            } else {
                assert(t[k] == s[k + 1]);
            }
        }
        assert forall|x: T| x != v implies (t.contains(x) <==> s.contains(x)) by {
            if s.contains(x) {
                let k = choose|k: int| 0 <= k < s.len() && s[k] == x;
                if k < i {
                    assert(t[k] == x);
                } else {
                    assert(k != i);
                    assert(t[k - 1] == x);
                }
            }
            if t.contains(x) {
                let k = choose|k: int| 0 <= k < t.len() && t[k] == x;
                if k < i {
                    assert(s[k] == x);
                } else {
                    assert(s[k + 1] == x);
                }
            }
        }
        assert forall|a: int, b: int| 0 <= a < t.len() && 0 <= b < t.len() && a != b implies t[a]
            != t[b] by {
            let sa = if a < i { a } else { a + 1 };
            let sb = if b < i { b } else { b + 1 };
            assert(t[a] == s[sa]);
            assert(t[b] == s[sb]);
        }
    } else {
        lemma_remove_first_absent(s, v);
    }
}

/// The sequence that `push` leaves: `v` appended, and the oldest entry dropped
/// when the stack was already full.
pub open spec fn pushed<T>(s: Seq<T>, v: T, cap: nat) -> Seq<T> {
    if s.len() < cap {
        s.push(v)
    } else {
        s.drop_first().push(v)
    }
}

/// After a push the pushed value is on top, and the stack never grows past its
/// capacity; when it was full, exactly the oldest entry is lost.
pub proof fn lemma_push_top<T>(s: Seq<T>, v: T, cap: nat)
    requires
        s.len() <= cap,
        cap > 0,
    ensures
        pushed(s, v, cap).last() == v,
        pushed(s, v, cap).len() <= cap,
        pushed(s, v, cap).len() == if s.len() < cap { s.len() + 1 } else { cap },
        s.len() == cap ==> pushed(s, v, cap).drop_last() == s.drop_first(),
        s.len() < cap ==> pushed(s, v, cap).drop_last() == s,
{
    if s.len() < cap {
        assert(s.push(v).drop_last() =~= s);
    } else {
        assert(s.drop_first().push(v).drop_last() =~= s.drop_first());
    }
}

/// `push_unique` on a stack without repeated keys keeps it without repeated keys,
/// puts the key on top exactly once, and keeps every other key except, when the
/// stack was full and the key was new, the oldest one.
pub proof fn lemma_push_unique_distinct<T>(s: Seq<T>, v: T, cap: nat)
    requires
        s.no_duplicates(),
        s.len() <= cap,
        cap > 0,
    ensures
        pushed(remove_first(s, v), v, cap).no_duplicates(),
        pushed(remove_first(s, v), v, cap).last() == v,
        pushed(remove_first(s, v), v, cap).len() <= cap,
        forall|x: T|
            x != v && s.contains(x) && !(s.len() == cap && !s.contains(v) && x == s[0])
                ==> pushed(remove_first(s, v), v, cap).contains(x),
        forall|x: T| pushed(remove_first(s, v), v, cap).contains(x) ==> x == v || s.contains(x),
{
    lemma_remove_first_no_duplicates(s, v);
    let m = remove_first(s, v);
    let r = pushed(m, v, cap);
    lemma_push_top(m, v, cap);
    let base = if m.len() < cap { m } else { m.drop_first() };
    assert(r == base.push(v));
    assert forall|k: int| 0 <= k < base.len() implies base[k] != v && m.contains(base[k]) by {
        if m.len() < cap {
            assert(base[k] == m[k]);
        } else {
            assert(base[k] == m[k + 1]);
        }
    }
    assert forall|a: int, b: int| 0 <= a < r.len() && 0 <= b < r.len() && a != b implies r[a]
        != r[b] by {
        if a < base.len() && b < base.len() {
            if m.len() < cap {
                assert(r[a] == m[a] && r[b] == m[b]);
            } else {
                assert(r[a] == m[a + 1] && r[b] == m[b + 1]);
            }
        } else if a < base.len() {
            assert(r[b] == v);
        } else if b < base.len() {
            assert(r[a] == v);
        }
    }
    assert forall|x: T|
        x != v && s.contains(x) && !(s.len() == cap && !s.contains(v) && x == s[0]) implies r.contains(
        x,
    ) by {
        assert(m.contains(x));
        let k = choose|k: int| 0 <= k < m.len() && m[k] == x;
        if m.len() < cap {
            assert(r[k] == x);
        } else {
            assert(m.len() == cap);
            assert(!s.contains(v)) by {
                if s.contains(v) {
                    assert(m.len() == s.len() - 1);
                }
            }
            lemma_remove_first_absent(s, v);
            assert(k != 0);
            assert(r[k - 1] == x);
        }
    }
    assert forall|x: T| r.contains(x) implies x == v || s.contains(x) by {
        let k = choose|k: int| 0 <= k < r.len() && r[k] == x;
        if k < base.len() {
            assert(m.contains(x));
        }
    }
}

/// Fixed-capacity LIFO stack (`push`/`remove`/`top`/`clear`/`len`/`is_empty`).
/// - `push`: when full, drops the oldest entry, shifts everything down and appends.
/// - `remove`: deletes one occurrence of a value and closes the gap.
/// - `top`: the last pushed value, without popping it.
pub struct LinearStack<T: Copy + PartialEq, const N: usize> {
    items: [Option<T>; N],
    len: usize,
}

impl<T: Copy + PartialEq, const N: usize> LinearStack<T, N> {
    /// Stored entries, oldest first.
    pub closed spec fn view(&self) -> Seq<T> {
        Seq::new(self.len as nat, |i: int| self.items[i].unwrap())
    }

    /// Slots below `len` are filled, the others empty.
    pub closed spec fn wf(&self) -> bool {
        &&& self.len <= N
        &&& forall|i: int| 0 <= i < self.len ==> (#[trigger] self.items[i]).is_some()
        &&& forall|i: int| self.len <= i < N ==> (#[trigger] self.items[i]).is_none()
    }

    /// A well-formed stack holds at most `N` entries.
    pub proof fn lemma_len_bounded(&self)
        requires
            self.wf(),
        ensures
            self@.len() <= N,
    {
    }

    pub fn new() -> (s: Self)
        ensures
            s.wf(),
            s@ == Seq::<T>::empty(),
    {
        let s = Self { items: [None; N], len: 0 };
        assert(s@ =~= Seq::<T>::empty());
        s
    }

    pub fn push(&mut self, value: T)
        requires
            old(self).wf(),
            N > 0,
        ensures
            final(self).wf(),
            final(self)@ == pushed(old(self)@, value, N as nat),
    {
        let ghost before = self@;
        if self.len < N {
            self.items[self.len] = Some(value);
            self.len = self.len + 1;
            assert(self@ =~= before.push(value));
        } else {
            let mut i: usize = 0;
            while i < N - 1
                invariant
                    self.len == N,
                    N > 0,
                    0 <= i <= N - 1,
                    forall|j: int| 0 <= j < N ==> (#[trigger] self.items[j]).is_some(),
                    forall|j: int| 0 <= j < i ==> self.items[j].unwrap() == before[j + 1],
                    forall|j: int| i <= j < N ==> self.items[j].unwrap() == before[j],
                    before.len() == N,
                decreases N - 1 - i,
            {
                self.items[i] = self.items[i + 1];
                i = i + 1;
            }
            self.items[N - 1] = Some(value);
            assert(self@ =~= before.drop_first().push(value));
        }
    }

    /// Removes any earlier occurrence of `value`, then appends it (LRU style).
    /// A repeated note-on for a key that is still held keeps only its latest position.
    pub fn push_unique(&mut self, value: T)
        requires
            old(self).wf(),
            N > 0,
            vstd::laws_eq::obeys_concrete_eq::<T>(),
        ensures
            final(self).wf(),
            final(self)@ == pushed(remove_first(old(self)@, value), value, N as nat),
    {
        self.remove(value);
        self.push(value);
    }

    pub fn remove(&mut self, value: T)
        requires
            old(self).wf(),
            vstd::laws_eq::obeys_concrete_eq::<T>(),
        ensures
            final(self).wf(),
            final(self)@ == remove_first(old(self)@, value),
    {
        proof {
            reveal(vstd::laws_eq::obeys_concrete_eq);
        }
        let ghost before = self@;
        let mut found_at: Option<usize> = None;
        let mut i: usize = 0;
        while i < self.len
            invariant_except_break
                found_at.is_none(),
            invariant
                self.wf(),
                self@ == before,
                0 <= i <= self.len,
                forall|j: int| 0 <= j < i ==> before[j] != value,
                T::obeys_eq_spec(),
                forall|x: T, y: T| x.eq_spec(&y) <==> (x == y),
            ensures
                found_at matches Some(p) ==> is_first_pos(before, value, p as int),
                found_at is None ==> forall|j: int| 0 <= j < before.len() ==> before[j] != value,
            decreases self.len - i,
        {
            let item = self.items[i].unwrap();
            assert(item == before[i as int]);
            if item == value {
                found_at = Some(i);
                break;
            }
            i = i + 1;
        }
        if let Some(pos) = found_at {
            let mut k: usize = pos;
            while k < self.len - 1
                invariant
                    self.len == before.len(),
                    self.len <= N,
                    pos < self.len,
                    pos <= k <= self.len - 1,
                    forall|j: int| 0 <= j < self.len ==> (#[trigger] self.items[j]).is_some(),
                    forall|j: int| self.len <= j < N ==> (#[trigger] self.items[j]).is_none(),
                    forall|j: int| 0 <= j < pos ==> self.items[j].unwrap() == before[j],
                    forall|j: int| pos <= j < k ==> self.items[j].unwrap() == before[j + 1],
                    forall|j: int| k <= j < self.len ==> self.items[j].unwrap() == before[j],
                decreases self.len - 1 - k,
            {
                self.items[k] = self.items[k + 1];
                k = k + 1;
            }
            self.items[self.len - 1] = None;
            self.len = self.len - 1;
            assert(self@ =~= before.remove(pos as int));
            proof {
                lemma_remove_first_at(before, value, pos as int);
            }
        } else {
            assert(!before.contains(value)) by {
                if before.contains(value) {
                    let w = choose|w: int| 0 <= w < before.len() && before[w] == value;
                    assert(before[w] != value);
                }
            }
            proof {
                lemma_remove_first_absent(before, value);
            }
        }
    }

    pub fn top(&self) -> (r: Option<T>)
        requires
            self.wf(),
        ensures
            r == (if self@.len() == 0 { None } else { Some(self@.last()) }),
    {
        if self.len == 0 {
            None
        } else {
            self.items[self.len - 1]
        }
    }

    pub fn clear(&mut self)
        ensures
            final(self).wf(),
            final(self)@ == Seq::<T>::empty(),
    {
        self.items = [None; N];
        self.len = 0;
        assert(self@ =~= Seq::<T>::empty());
    }

    pub fn len(&self) -> (r: usize)
        ensures
            r == self@.len(),
    {
        self.len
    }

    pub fn is_empty(&self) -> (r: bool)
        ensures
            r == (self@.len() == 0),
    {
        self.len == 0
    }
}

impl<T: Copy + PartialEq, const N: usize> Default for LinearStack<T, N> {
    fn default() -> (s: Self)
        ensures
            s.wf(),
            s@ == Seq::<T>::empty(),
    {
        Self::new()
    }
}

/// Key history of the held notes in mono mode.
pub type HoldStack = LinearStack<u8, MAX_HELD>;

} // verus!

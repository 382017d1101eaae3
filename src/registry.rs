//! The client registry: an insertion-ordered list of (client, frame) pairs.
use vstd::arithmetic::div_mod::{lemma_mod_self_0, lemma_small_mod};
use vstd::prelude::*;

verus! {

/// Identifier the display server issues for a window.
pub type Window = u64;

/// True when some entry of `s` holds client `w`.
pub open spec fn has_client(s: Seq<(Window, Window)>, w: Window) -> bool {
    exists|i: int| 0 <= i < s.len() && #[trigger] s[i].0 == w
}

/// True when some entry of `s` holds frame `f`.
pub open spec fn has_frame(s: Seq<(Window, Window)>, f: Window) -> bool {
    exists|i: int| 0 <= i < s.len() && #[trigger] s[i].1 == f
}

/// No client and no frame occurs in two entries.
pub open spec fn distinct_entries(s: Seq<(Window, Window)>) -> bool {
    forall|i: int, j: int|
        0 <= i < s.len() && 0 <= j < s.len() && i != j ==> #[trigger] s[i].0 != #[trigger] s[j].0
            && s[i].1 != s[j].1
}

/// The index of the entry that holds client `w` (meaningful when `has_client(s, w)`).
pub open spec fn position(s: Seq<(Window, Window)>, w: Window) -> int {
    choose|i: int| 0 <= i < s.len() && #[trigger] s[i].0 == w
}

/// The frame that holds client `w`, if `w` is registered.
pub open spec fn frame_for(s: Seq<(Window, Window)>, w: Window) -> Option<Window> {
    if has_client(s, w) {
        Some(s[position(s, w)].1)
    } else {
        None
    }
}

/// The entry that follows the one of `w` in cycling order, wrapping round at the end.
pub open spec fn next_entry(s: Seq<(Window, Window)>, w: Window) -> Option<(Window, Window)> {
    if has_client(s, w) {
        Some(s[(position(s, w) + 1) % (s.len() as int)])
    } else {
        None
    }
}

/// `s` without the entry of client `w`.
pub open spec fn without_client(s: Seq<(Window, Window)>, w: Window) -> Seq<(Window, Window)> {
    if has_client(s, w) {
        s.remove(position(s, w))
    } else {
        s
    }
}

/// In a registry with distinct entries, the entry of a client is the only one that holds it.
pub proof fn lemma_position_unique(s: Seq<(Window, Window)>, w: Window, i: int)
    requires
        distinct_entries(s),
        0 <= i < s.len(),
        s[i].0 == w,
    ensures
        has_client(s, w),
        position(s, w) == i,
{
    assert(has_client(s, w));
    let p = position(s, w);
    assert(s[p].0 == w);
}

/// Removing an entry keeps clients and frames distinct.
pub proof fn lemma_remove_distinct(s: Seq<(Window, Window)>, k: int)
    requires
        distinct_entries(s),
        0 <= k < s.len(),
    ensures
        distinct_entries(s.remove(k)),
        forall|i: int| 0 <= i < s.len() && i != k ==> has_client(s.remove(k), #[trigger] s[i].0),
        !has_client(s.remove(k), s[k].0),
{
    let r = s.remove(k);
    assert forall|i: int, j: int|
        0 <= i < r.len() && 0 <= j < r.len() && i != j implies #[trigger] r[i].0 != #[trigger] r[j].0
            && r[i].1 != r[j].1 by {
        let a = if i < k { i } else { i + 1 };
        let b = if j < k { j } else { j + 1 };
        assert(r[i] == s[a]);
        assert(r[j] == s[b]);
    }
    assert forall|i: int| 0 <= i < s.len() && i != k implies has_client(r, #[trigger] s[i].0) by {
        let a = if i < k { i } else { i - 1 };
        assert(r[a] == s[i]);
    }
    if has_client(r, s[k].0) {
        let i = choose|i: int| 0 <= i < r.len() && #[trigger] r[i].0 == s[k].0;
        let a = if i < k { i } else { i + 1 };
        assert(r[i] == s[a]);
    }
}

/// Appending an entry with a new client and a new frame keeps clients and frames distinct.
pub proof fn lemma_push_distinct(s: Seq<(Window, Window)>, w: Window, f: Window)
    requires
        distinct_entries(s),
        !has_client(s, w),
        !has_frame(s, f),
    ensures
        distinct_entries(s.push((w, f))),
        has_client(s.push((w, f)), w),
        position(s.push((w, f)), w) == s.len(),
{
    let t = s.push((w, f));
    assert forall|i: int, j: int|
        0 <= i < t.len() && 0 <= j < t.len() && i != j implies #[trigger] t[i].0 != #[trigger] t[j].0
            && t[i].1 != t[j].1 by {
        if i < s.len() {
            assert(t[i] == s[i]);
        }
        if j < s.len() {
            assert(t[j] == s[j]);
        }
    }
    lemma_position_unique(t, w, s.len() as int);
}

/// The registry of managed clients, each with the frame the window manager made for it.
/// Entries keep the order in which they were added; that order is the cycling order.
pub struct ClientList {
    entries: Vec<(Window, Window)>,
}

impl View for ClientList {
    type V = Seq<(Window, Window)>;

    closed spec fn view(&self) -> Seq<(Window, Window)> {
        self.entries@
    }
}

impl ClientList {
    /// Clients and frames are each unique.
    pub open spec fn wf(&self) -> bool {
        distinct_entries(self@)
    }

    pub fn new() -> (r: Self)
        ensures
            r@ == Seq::<(Window, Window)>::empty(),
            r.wf(),
    {
        ClientList { entries: Vec::new() }
    }

    pub fn len(&self) -> (r: usize)
        ensures
            r == self@.len(),
    {
        self.entries.len()
    }

    pub fn contains(&self, w: &Window) -> (r: bool)
        ensures
            r == has_client(self@, *w),
    {
        match self.find(w) {
            Some(_) => true,
            None => false,
        }
    }

    /// Index of the entry of client `w`.
    pub fn find(&self, w: &Window) -> (r: Option<usize>)
        ensures
            match r {
                Some(i) => i < self@.len() && self@[i as int].0 == *w && (self.wf() ==> i
                    == position(self@, *w)),
                None => !has_client(self@, *w),
            },
    {
        let mut i: usize = 0;
        while i < self.entries.len()
            invariant
                i <= self.entries@.len(),
                forall|k: int| 0 <= k < i ==> #[trigger] self.entries@[k].0 != *w,
            decreases self.entries@.len() - i,
        {
            if self.entries[i].0 == *w {
                proof {
                    if self.wf() {
                        lemma_position_unique(self@, *w, i as int);
                    }
                }
                return Some(i);
            }
            i = i + 1;
        }
        None
    }

    /// The entry at index `i`, if there is one.
    pub fn index(&self, i: usize) -> (r: Option<(&Window, &Window)>)
        ensures
            match r {
                Some((w, f)) => i < self@.len() && (*w, *f) == self@[i as int],
                None => i >= self@.len(),
            },
    {
        if i < self.entries.len() {
            let e = &self.entries[i];
            Some((&e.0, &e.1))
        } else {
            None
        }
    }

    /// The frame of client `w`, if `w` is registered.
    pub fn get(&self, w: &Window) -> (r: Option<&Window>)
        requires
            self.wf(),
        ensures
            match r {
                Some(f) => frame_for(self@, *w) == Some(*f),
                None => frame_for(self@, *w) == None::<Window>,
            },
    {
        match self.find(w) {
            Some(i) => Some(&self.entries[i].1),
            None => None,
        }
    }

    /// Appends the pair (`w`, `f`).
    pub fn insert(&mut self, w: Window, f: Window)
        requires
            old(self).wf(),
            !has_client(old(self)@, w),
            !has_frame(old(self)@, f),
        ensures
            final(self)@ == old(self)@.push((w, f)),
            final(self).wf(),
            frame_for(final(self)@, w) == Some(f),
    {
        proof {
            lemma_push_distinct(self@, w, f);
        }
        self.entries.push((w, f));
    }

    /// Removes the entry of client `w`; nothing changes when `w` is not registered.
    pub fn remove(&mut self, w: &Window)
        requires
            old(self).wf(),
        ensures
            final(self)@ == without_client(old(self)@, *w),
            final(self).wf(),
            !has_client(final(self)@, *w),
    {
        if let Some(i) = self.find(w) {
            proof {
                lemma_remove_distinct(self@, i as int);
            }
            self.entries.remove(i);
        }
    }

    /// The entry after that of client `w`, wrapping round to the first.
    pub fn cycle_target(&self, w: &Window) -> (r: Option<(Window, Window)>)
        requires
            self.wf(),
        ensures
            r == next_entry(self@, *w),
    {
        match self.find(w) {
            Some(i) => {
                let n = self.entries.len();
                assert(i < n);
                let j = if i + 1 < n {
                    i + 1
                } else {
                    0
                };
                proof {
                    if i + 1 < n {
                        lemma_small_mod((i + 1) as nat, n as nat);
                    } else {
                        lemma_mod_self_0(n as int);
                    }
                }
                Some(self.entries[j])
            },
            None => None,
        }
    }
}

} // verus!

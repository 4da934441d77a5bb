//! The staging area for header mutations: an insertion-ordered mapping
//! from header name to raw byte value with last-write-wins updates.
//!
//! Interceptors stage header writes here; a flush moves the staged
//! entries into the real header object and leaves the buffer empty.

use vstd::prelude::*;

use crate::strutil::str_eq;

verus! {

/// One staged entry: a header name and its raw value.
pub type HeaderEntry = (Seq<char>, Seq<u8>);

/// Whether some entry of `s` carries the name `name`.
pub open spec fn hbuf_has_name(s: Seq<HeaderEntry>, name: Seq<char>) -> bool {
    exists|i: int| 0 <= i < s.len() && s[i].0 == name
}

/// The index of the entry carrying `name` (meaningful when names are
/// pairwise distinct and the name is present).
pub open spec fn hbuf_find(s: Seq<HeaderEntry>, name: Seq<char>) -> int {
    choose|i: int| 0 <= i < s.len() && s[i].0 == name
}

/// What inserting `name -> value` does to the staged entries: an entry
/// already carrying the name is overwritten in place, otherwise a new
/// entry is appended.
pub open spec fn hbuf_insert_spec(
    s: Seq<HeaderEntry>,
    name: Seq<char>,
    value: Seq<u8>,
) -> Seq<HeaderEntry> {
    if hbuf_has_name(s, name) {
        s.update(hbuf_find(s, name), (name, value))
    } else {
        s.push((name, value))
    }
}

/// The value staged under `name`, if any.
pub open spec fn hbuf_get_spec(s: Seq<HeaderEntry>, name: Seq<char>) -> Option<Seq<u8>> {
    if hbuf_has_name(s, name) {
        Some(s[hbuf_find(s, name)].1)
    } else {
        None
    }
}

/// Pairwise distinct names.
pub open spec fn hbuf_names_distinct(s: Seq<HeaderEntry>) -> bool {
    forall|i: int, j: int|
        0 <= i < j < s.len() ==> (#[trigger] s[i]).0 != (#[trigger] s[j]).0
}

/// An insertion-ordered header name to raw value mapping with
/// last-write-wins updates.
#[derive(Debug)]
pub struct HeaderBuffer {
    entries: Vec<(String, Vec<u8>)>,
}

impl View for HeaderBuffer {
    type V = Seq<HeaderEntry>;

    closed spec fn view(&self) -> Seq<HeaderEntry> {
        Seq::new(self.entries@.len(), |i: int| (self.entries@[i].0@, self.entries@[i].1@))
    }
}

impl HeaderBuffer {
    #[verifier::type_invariant]
    spec fn wf(self) -> bool {
        hbuf_names_distinct(self@)
    }

    /// An empty buffer.
    pub fn new() -> (r: HeaderBuffer)
        ensures
            r@ == Seq::<HeaderEntry>::empty(),
    {
        let r = HeaderBuffer { entries: Vec::new() };
        proof {
            assert(r@ =~= Seq::<HeaderEntry>::empty());
        }
        r
    }

    fn find_index(&self, name: &str) -> (r: Option<usize>)
        ensures
            match r {
                Some(i) => i < self@.len() && self@[i as int].0 == name@,
                None => !hbuf_has_name(self@, name@),
            },
    {
        let n = self.entries.len();
        let mut i: usize = 0;
        while i < n
            invariant
                n == self@.len(),
                n == self.entries@.len(),
                i <= n,
                forall|k: int| 0 <= k < i ==> (#[trigger] self@[k]).0 != name@,
            decreases n - i,
        {
            if str_eq(self.entries[i].0.as_str(), name) {
                return Some(i);
            }
            i += 1;
        }
        None
    }

    /// Stage `name -> value`.  An entry already staged under the same
    /// name keeps its position and takes the new value; otherwise the
    /// entry is appended.
    pub fn insert(&mut self, name: String, value: Vec<u8>)
        ensures
            final(self)@ == hbuf_insert_spec(old(self)@, name@, value@),
    {
        proof {
            use_type_invariant(&*self);
        }
        let idx = self.find_index(name.as_str());
        let ghost s_old = self@;
        let mut entries: Vec<(String, Vec<u8>)> = Vec::new();
        core::mem::swap(&mut entries, &mut self.entries);
        match idx {
            Some(i) => {
                proof {
                    assert(hbuf_has_name(s_old, name@));
                    let j = hbuf_find(s_old, name@);
                    assert(0 <= j < s_old.len() && s_old[j].0 == name@);
                    assert(j == i as int);
                }
                entries[i] = (name, value);
            },
            None => {
                entries.push((name, value));
            },
        }
        proof {
            let s_new = Seq::new(entries@.len(), |i: int| (entries@[i].0@, entries@[i].1@));
            assert(s_new =~= hbuf_insert_spec(s_old, name@, value@));
            assert(hbuf_names_distinct(s_new)) by {
                assert forall|i: int, j: int| 0 <= i < j < s_new.len() implies (
                #[trigger] s_new[i]).0 != (#[trigger] s_new[j]).0 by {
                    if hbuf_has_name(s_old, name@) {
                        let k = hbuf_find(s_old, name@);
                        assert(s_old[k].0 == name@);
                    }
                }
            }
        }
        core::mem::swap(&mut entries, &mut self.entries);
        proof {
            assert(self@ =~= hbuf_insert_spec(s_old, name@, value@));
        }
    }

    /// The value staged under `name`, if any.
    pub fn get(&self, name: &str) -> (r: Option<&Vec<u8>>)
        ensures
            match r {
                Some(v) => hbuf_get_spec(self@, name@) == Some(v@),
                None => hbuf_get_spec(self@, name@) is None,
            },
    {
        proof {
            use_type_invariant(&*self);
        }
        let idx = self.find_index(name);
        match idx {
            Some(i) => {
                proof {
                    let s = self@;
                    assert(hbuf_has_name(s, name@));
                    let j = hbuf_find(s, name@);
                    assert(0 <= j < s.len() && s[j].0 == name@);
                    assert(j == i as int);
                }
                Some(&self.entries[i].1)
            },
            None => None,
        }
    }

    /// How many entries are staged.
    pub fn len(&self) -> (n: usize)
        ensures
            n == self@.len(),
    {
        self.entries.len()
    }

    /// Whether nothing is staged.
    pub fn is_empty(&self) -> (r: bool)
        ensures
            r == (self@.len() == 0),
    {
        self.entries.len() == 0
    }

    /// The entry at position `i`, in insertion order.
    pub fn entry(&self, i: usize) -> (e: &(String, Vec<u8>))
        requires
            i < self@.len(),
        ensures
            (e.0@, e.1@) == self@[i as int],
    {
        &self.entries[i]
    }

    /// Empty the buffer, handing the staged entries out.
    pub fn drain(&mut self) -> (out: HeaderBuffer)
        ensures
            out@ == old(self)@,
            final(self)@ == Seq::<HeaderEntry>::empty(),
    {
        let mut out = HeaderBuffer::new();
        core::mem::swap(&mut out, self);
        out
    }

    /// The staged entries, in insertion order, consuming the buffer.
    pub fn into_entries(self) -> (r: Vec<(String, Vec<u8>)>)
        ensures
            r@.len() == self@.len(),
            forall|i: int|
                0 <= i < r@.len() ==> ((#[trigger] r@[i]).0@, r@[i].1@) == self@[i],
    {
        self.entries
    }
}

/// Inserting under a name and then inserting under the same name again
/// leaves exactly what a single insert of the most recent value leaves:
/// the buffer retains only the most recent value for a name.
pub proof fn lemma_insert_last_write_wins(
    s: Seq<HeaderEntry>,
    name: Seq<char>,
    v1: Seq<u8>,
    v2: Seq<u8>,
)
    requires
        hbuf_names_distinct(s),
    ensures
        hbuf_insert_spec(hbuf_insert_spec(s, name, v1), name, v2) == hbuf_insert_spec(
            s,
            name,
            v2,
        ),
        hbuf_get_spec(hbuf_insert_spec(hbuf_insert_spec(s, name, v1), name, v2), name)
            == Some(v2),
{
    let s1 = hbuf_insert_spec(s, name, v1);
    if hbuf_has_name(s, name) {
        let j = hbuf_find(s, name);
        assert(0 <= j < s.len() && s[j].0 == name);
        assert(s1 == s.update(j, (name, v1)));
        assert(hbuf_has_name(s1, name)) by {
            assert(s1[j].0 == name);
        }
        let j1 = hbuf_find(s1, name);
        assert(0 <= j1 < s1.len() && s1[j1].0 == name);
        assert(j1 == j) by {
            if j1 != j {
                assert(s[j1].0 == name);
            }
        }
        assert(hbuf_insert_spec(s1, name, v2) =~= s.update(j, (name, v2)));
        assert(hbuf_insert_spec(s1, name, v2)[j].1 == v2);
        let j2 = hbuf_find(hbuf_insert_spec(s1, name, v2), name);
        assert(j2 == j) by {
            assert(hbuf_insert_spec(s1, name, v2)[j].0 == name);
            if j2 != j {
                assert(s[j2].0 == name);
            }
        }
    } else {
        let n = s.len() as int;
        assert(s1 == s.push((name, v1)));
        assert(hbuf_has_name(s1, name)) by {
            assert(s1[n].0 == name);
        }
        let j1 = hbuf_find(s1, name);
        assert(0 <= j1 < s1.len() && s1[j1].0 == name);
        assert(j1 == n) by {
            if j1 != n {
                assert(s[j1].0 == name);
                assert(hbuf_has_name(s, name));
            }
        }
        assert(hbuf_insert_spec(s1, name, v2) =~= s.push((name, v2)));
        let s2 = hbuf_insert_spec(s1, name, v2);
        assert(s2[n].0 == name && s2[n].1 == v2);
        let j2 = hbuf_find(s2, name);
        assert(0 <= j2 < s2.len() && s2[j2].0 == name);
        assert(j2 == n) by {
            if j2 != n {
                assert(s[j2].0 == name);
                assert(hbuf_has_name(s, name));
            }
        }
    }
}

} // verus!

//! Hierarchical resource locations: the key type of the project namespace.
//!
//! A location such as `game::Struct::method` is an ordered sequence of name
//! segments. Its mathematical model is a `Seq<Seq<char>>`, one inner sequence
//! per segment, in order.

use vstd::prelude::*;
use vstd::string::*;

verus! {

/// An ordered, hierarchical identifier for a declared resource.
///
/// Equality is structural over the full ordered segment sequence, so a
/// location can serve as the unique key of the project-wide resource table.
#[derive(Debug, Hash)]
pub struct FireLocation {
    path: Vec<String>,
}

impl View for FireLocation {
    type V = Seq<Seq<char>>;

    closed spec fn view(&self) -> Seq<Seq<char>> {
        self.path.deep_view()
    }
}

impl FireLocation {
    /// The empty (root) location of a project.
    pub fn new() -> (r: FireLocation)
        ensures
            r@ == Seq::<Seq<char>>::empty(),
    {
        let r = FireLocation { path: Vec::new() };
        proof {
            assert(r@ =~= Seq::<Seq<char>>::empty());
        }
        r
    }

    /// A new location with one more segment appended; `self` is unchanged.
    pub fn with(&self, s: String) -> (r: FireLocation)
        ensures
            r@ == self@.push(s@),
    {
        let mut path = self.path.clone();
        proof {
            assert(path.deep_view() =~= self.path.deep_view());
        }
        path.push(s);
        let r = FireLocation { path };
        proof {
            assert(r@ =~= self@.push(s@));
        }
        r
    }

    /// The location with the last segment removed; the root is its own parent.
    pub fn parent(&self) -> (r: FireLocation)
        ensures
            self@.len() == 0 ==> r@ == self@,
            self@.len() > 0 ==> r@ == self@.drop_last(),
    {
        let mut path = self.path.clone();
        proof {
            assert(path.deep_view() =~= self.path.deep_view());
        }
        if path.len() > 0 {
            path.pop();
        }
        let r = FireLocation { path };
        proof {
            if self@.len() > 0 {
                assert(r@ =~= self@.drop_last());
            } else {
                assert(r@ =~= self@);
            }
        }
        r
    }

    /// Appends one segment in place.
    pub fn push(&mut self, s: String)
        ensures
            final(self)@ == old(self)@.push(s@),
    {
        self.path.push(s);
        proof {
            assert(self@ =~= old(self)@.push(s@));
        }
    }

    /// Removes the last segment in place; a root location is left unchanged.
    pub fn pop(&mut self)
        ensures
            old(self)@.len() == 0 ==> final(self)@ == old(self)@,
            old(self)@.len() > 0 ==> final(self)@ == old(self)@.drop_last(),
    {
        if self.path.len() > 0 {
            self.path.pop();
            proof {
                assert(self@ =~= old(self)@.drop_last());
            }
        }
    }

    /// The number of segments.
    pub fn len(&self) -> (n: usize)
        ensures
            n == self@.len(),
    {
        self.path.len()
    }
}

/// The text of a location: its segments joined by `::`.
pub open spec fn join_segments(l: Seq<Seq<char>>) -> Seq<char>
    decreases l.len(),
{
    if l.len() == 0 {
        Seq::empty()
    } else if l.len() == 1 {
        l[0]
    } else {
        join_segments(l.drop_last()) + "::"@ + l.last()
    }
}

impl FireLocation {
    /// Renders the location as text, segments joined by `::`.
    pub fn render(&self) -> (r: String)
        ensures
            r@ == join_segments(self@),
    {
        let mut s = String::new();
        let n = self.path.len();
        let mut i: usize = 0;
        proof {
            assert(s@ =~= join_segments(self@.subrange(0, 0)));
        }
        while i < n
            invariant
                n == self.path@.len(),
                0 <= i <= n,
                s@ == join_segments(self@.subrange(0, i as int)),
            decreases n - i,
        {
            proof {
                assert(self@[i as int] == self.path@[i as int]@);
            }
            if i > 0 {
                s.append("::");
            }
            s.append(self.path[i].as_str());
            proof {
                let pre = self@.subrange(0, i as int);
                let now = self@.subrange(0, i as int + 1);
                assert(now.drop_last() =~= pre);
                assert(now.last() == self@[i as int]);
                assert(s@ =~= join_segments(now));
            }
            i += 1;
        }
        proof {
            assert(self@.subrange(0, n as int) =~= self@);
        }
        s
    }
}

impl Clone for FireLocation {
    /// A clone has the very same segments.
    fn clone(&self) -> (r: FireLocation)
        ensures
            r@ == self@,
    {
        let path = self.path.clone();
        proof {
            assert(path.deep_view() =~= self.path.deep_view());
        }
        FireLocation { path }
    }
}

impl PartialEq for FireLocation {
    fn eq(&self, other: &FireLocation) -> (r: bool) {
        if self.path.len() != other.path.len() {
            proof {
                assert(self@.len() != other@.len());
            }
            return false;
        }
        let n = self.path.len();
        let mut i: usize = 0;
        while i < n
            invariant
                n == self.path.len() == other.path.len(),
                0 <= i <= n,
                forall|k: int| 0 <= k < i ==> self@[k] == other@[k],
            decreases n - i,
        {
            if self.path[i] != other.path[i] {
                proof {
                    assert(self@[i as int] != other@[i as int]);
                }
                return false;
            }
            i += 1;
        }
        proof {
            assert(self@ =~~= other@);
        }
        true
    }
}

impl Eq for FireLocation {}

impl vstd::std_specs::cmp::PartialEqSpecImpl for FireLocation {
    open spec fn obeys_eq_spec() -> bool {
        true
    }

    open spec fn eq_spec(&self, other: &FireLocation) -> bool {
        self@ == other@
    }
}

} // verus!

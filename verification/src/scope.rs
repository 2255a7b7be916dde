//! The chained, fork-able symbol table used while compiling.
//!
//! A [`SymTable`] is a sequence of scope frames, outermost first; the last
//! frame is the innermost, and it is the only one ever written.  Each frame is
//! a sequence of names, where a name's position in the frame is its slot
//! index.  `bind` appends to the innermost frame, `lookup` searches the
//! innermost frame outward (and within one frame prefers the most recent
//! binding, so a rebound name shadows the earlier slot), and `fork` returns a
//! new chain sharing the existing frames and carrying one fresh empty frame.
//! Because `fork` returns a separate value and never mutates its receiver,
//! bindings made through a fork are invisible to the chain it forked from.

use vstd::prelude::*;

verus! {

/// The slot of `name` in one frame: the index of its most recent binding,
/// or `None` if the frame does not bind it.
pub open spec fn frame_slot(frame: Seq<Seq<char>>, name: Seq<char>) -> Option<int>
    decreases frame.len(),
{
    if frame.len() == 0 {
        None
    } else if frame.last() == name {
        Some(frame.len() - 1)
    } else {
        frame_slot(frame.drop_last(), name)
    }
}

/// The coordinate of `name` in a chain of frames (outermost first): the
/// nearest enclosing binding as `(distance, slot)`, where distance 0 is the
/// innermost frame, or `None` if the name is free at every level.
pub open spec fn chain_lookup(frames: Seq<Seq<Seq<char>>>, name: Seq<char>) -> Option<(int, int)>
    decreases frames.len(),
{
    if frames.len() == 0 {
        None
    } else {
        match frame_slot(frames.last(), name) {
            Some(slot) => Some((0, slot)),
            None => add_distance(chain_lookup(frames.drop_last(), name), 1),
        }
    }
}

/// Shifts a coordinate one frame outward per unit of `d`.
pub open spec fn add_distance(c: Option<(int, int)>, d: int) -> Option<(int, int)> {
    match c {
        Some(c) => Some((c.0 + d, c.1)),
        None => None,
    }
}

/// A symbol table: a chain of scope frames, modelled by [`chain_lookup`]
/// over the sequence of frames its `chain` spec function exposes.
pub trait Scope: Sized {
    /// The chain of frames, outermost first, each frame its names in slot
    /// order.
    spec fn chain(&self) -> Seq<Seq<Seq<char>>>;

    /// Binds a name to the next free slot of the innermost frame and returns
    /// the `(frame, slot)` coordinate for it in the machine's environment.
    fn bind(&mut self, name: String) -> (r: (usize, usize))
        requires
            old(self).chain().len() > 0,
        ensures
            final(self).chain() =~~= old(self).chain().update(
                old(self).chain().len() - 1,
                old(self).chain().last().push(name@),
            ),
            r.0 == 0 && r.1 == old(self).chain().last().len(),
    ;

    /// Looks a name up against the chain and returns the coordinate of its
    /// nearest enclosing binding, or `None` if the name is unbound at every
    /// level.
    fn lookup(&self, name: &String) -> (r: Option<(usize, usize)>)
        ensures
            match r {
                Some(c) => chain_lookup(self.chain(), name@) == Some((c.0 as int, c.1 as int)),
                None => chain_lookup(self.chain(), name@) is None,
            },
    ;
}

/// The symbol table for bound names: a chain of scope frames mapping each
/// name to the `(frame, slot)` coordinate in the machine's environment that
/// stores the value bound to it.
pub struct SymTable {
    frames: Vec<Vec<String>>,
}

impl View for SymTable {
    type V = Seq<Seq<Seq<char>>>;

    closed spec fn view(&self) -> Seq<Seq<Seq<char>>> {
        self.frames.deep_view()
    }
}

impl SymTable {
    /// A chain is kept non-empty: there is always an innermost frame to bind
    /// into.
    pub open spec fn wf(&self) -> bool {
        self@.len() > 0
    }

    /// A fresh chain of one empty frame.
    pub fn new() -> (r: SymTable)
        ensures
            r.wf(),
            r@ =~~= seq![Seq::<Seq<char>>::empty()],
    {
        let mut frames: Vec<Vec<String>> = Vec::new();
        let empty: Vec<String> = Vec::new();
        frames.push(empty);
        SymTable { frames }
    }

}

impl Scope for SymTable {
    open spec fn chain(&self) -> Seq<Seq<Seq<char>>> {
        self@
    }

    /// Binds `name` to the next free slot of the innermost frame and returns
    /// its coordinate.  Rebinding a name already bound in the frame appends a
    /// second, later slot, which shadows the earlier one for later lookups.
    fn bind(&mut self, name: String) -> (r: (usize, usize)) {
        let mut frame = self.frames.pop().unwrap();
        let slot = frame.len();
        frame.push(name);
        self.frames.push(frame);
        (0, slot)
    }

    /// Looks `name` up against the chain, innermost frame first.  Distance 0
    /// means the innermost frame; `None` means the name is free everywhere.
    fn lookup(&self, name: &String) -> (r: Option<(usize, usize)>) {
        let n = self.frames.len();
        proof {
            assert(self@.subrange(0, n as int) =~= self@);
        }
        let mut d: usize = 0;
        while d < n
            invariant
                n == self@.len(),
                d <= n,
                chain_lookup(self@, name@) == add_distance(
                    chain_lookup(self@.subrange(0, n - d), name@),
                    d as int,
                ),
            decreases n - d,
        {
            let ghost prefix = self@.subrange(0, n - d);
            let fi = n - 1 - d;
            let frame = &self.frames[fi];
            let ghost fv = frame.deep_view();
            proof {
                assert(fv == self.frames@[fi as int].deep_view());
                assert(self@[fi as int] == self.frames@[fi as int].deep_view());
                assert(prefix.last() == self@[fi as int]);
                assert(fv.subrange(0, fv.len() as int) =~= fv);
            }
            let mut s: usize = frame.len();
            while s > 0
                invariant
                    n == self@.len(),
                    d < n,
                    prefix == self@.subrange(0, n - d),
                    chain_lookup(self@, name@) == add_distance(
                        chain_lookup(prefix, name@),
                        d as int,
                    ),
                    prefix.last() == fv,
                    fv == frame.deep_view(),
                    fv.len() == frame@.len(),
                    s <= fv.len(),
                    frame_slot(fv, name@) == frame_slot(fv.subrange(0, s as int), name@),
                decreases s,
            {
                let ghost pre = fv.subrange(0, s as int);
                s = s - 1;
                proof {
                    assert(pre.last() == fv[s as int]);
                    assert(pre.drop_last() =~= fv.subrange(0, s as int));
                    assert(fv[s as int] == frame@[s as int]@);
                }
                if string_eq(&frame[s], name) {
                    proof {
                        assert(frame_slot(fv, name@) == Some(s as int));
                        assert(chain_lookup(prefix, name@) == Some((0int, s as int)));
                    }
                    return Some((d, s));
                }
            }
            proof {
                assert(fv.subrange(0, 0) =~= Seq::<Seq<char>>::empty());
                assert(frame_slot(self@[fi as int], name@) is None);
                assert(prefix.drop_last() =~= self@.subrange(0, n - (d + 1)));
            }
            d = d + 1;
        }
        proof {
            assert(self@.subrange(0, 0) =~= Seq::<Seq<Seq<char>>>::empty());
        }
        None
    }
}

impl SymTable {
    /// A new chain sharing every existing frame and carrying one fresh empty
    /// innermost frame.  The receiver is left untouched and stays usable, so
    /// sibling subtrees can be compiled against independent forks.
    pub fn fork(&self) -> (r: SymTable)
        ensures
            r.wf(),
            r@ =~~= self@.push(Seq::<Seq<char>>::empty()),
    {
        let mut frames: Vec<Vec<String>> = Vec::new();
        let mut i: usize = 0;
        while i < self.frames.len()
            invariant
                i <= self.frames@.len(),
                frames.deep_view() == self@.subrange(0, i as int),
            decreases self.frames@.len() - i,
        {
            let ghost fd0 = frames.deep_view();
            let ghost fv0 = frames@;
            let c = clone_frame(&self.frames[i]);
            let ghost cd = c.deep_view();
            proof {
                assert(cd == self.frames@[i as int].deep_view());
                assert(self@[i as int] == self.frames@[i as int].deep_view());
            }
            frames.push(c);
            proof {
                assert(fd0.len() == fv0.len());
                assert(fv0.len() == i as int);
                assert(frames@ == fv0.push(c));
                assert forall|j: int| 0 <= j < i + 1 implies frames.deep_view()[j]
                    == self@.subrange(0, i + 1)[j] by {
                    if j < i {
                        assert(frames@[j] == fv0[j]);
                        assert(fd0[j] == self@.subrange(0, i as int)[j]);
                    } else {
                        assert(frames@[j] == c);
                    }
                }
                assert(frames.deep_view() =~= self@.subrange(0, i + 1));
            }
            i = i + 1;
        }
        proof {
            assert(self@.subrange(0, self@.len() as int) =~= self@);
        }
        let empty: Vec<String> = Vec::new();
        frames.push(empty);
        let r = SymTable { frames };
        proof {
            assert(r@ =~~= self@.push(Seq::<Seq<char>>::empty()));
        }
        r
    }
}

/// Exact string comparison, stated over the views.
pub fn string_eq(a: &String, b: &String) -> (r: bool)
    ensures
        r == (a@ == b@),
{
    String::eq(a, b)
}

fn clone_frame(f: &Vec<String>) -> (r: Vec<String>)
    ensures
        r.deep_view() == f.deep_view(),
{
    let mut r: Vec<String> = Vec::new();
    let mut i: usize = 0;
    while i < f.len()
        invariant
            i <= f@.len(),
            r.deep_view() == f.deep_view().subrange(0, i as int),
        decreases f@.len() - i,
    {
        let ghost rd0 = r.deep_view();
        let ghost rv0 = r@;
        let c = f[i].clone();
        proof {
            assert(c == f@[i as int]);
        }
        r.push(c);
        proof {
            assert(rd0.len() == rv0.len());
            assert(rv0.len() == i as int);
            assert(r@ == rv0.push(c));
            assert forall|j: int| 0 <= j < i + 1 implies r.deep_view()[j] == f.deep_view().subrange(
                0,
                i + 1,
            )[j] by {
                if j < i {
                    assert(r@[j] == rv0[j]);
                    assert(rd0[j] == f.deep_view().subrange(0, i as int)[j]);
                } else {
                    assert(r@[j] == c);
                }
            }
            assert(r.deep_view() =~= f.deep_view().subrange(0, i + 1));
        }
        i = i + 1;
    }
    proof {
        assert(f.deep_view().subrange(0, f@.len() as int) =~= f.deep_view());
    }
    r
}

/// The non-interference law of forking: when `name` is free in a chain,
/// forking the chain and binding `name` through the fork makes it visible
/// there, at distance 0 and slot 0 of the fresh frame, while the chain that
/// was forked from still does not resolve it — the fork never leaks a binding
/// into its parent.
pub proof fn lemma_fork_bind_isolated(frames: Seq<Seq<Seq<char>>>, name: Seq<char>)
    requires
        chain_lookup(frames, name) is None,
    ensures
        ({
            let child = frames.push(Seq::<Seq<char>>::empty());
            let bound = child.update(child.len() - 1, child.last().push(name));
            chain_lookup(bound, name) == Some((0int, 0int))
        }),
        chain_lookup(frames, name) is None,
{
    let child = frames.push(Seq::<Seq<char>>::empty());
    let bound = child.update(child.len() - 1, child.last().push(name));
    assert(bound.last() =~= seq![name]);
    assert(bound.last().last() == name);
    assert(frame_slot(bound.last(), name) == Some(0int));
}

} // verus!

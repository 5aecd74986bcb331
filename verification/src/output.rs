//! The outputs (monitors) that the compositor knows, by name.

use vstd::prelude::*;

use crate::text::str_eq;

verus! {

/// A display mode.
#[derive(Debug, Clone, Copy, PartialEq, Eq, Structural)]
pub struct Mode {
    pub width: u32,
    pub height: u32,
    pub refresh_rate: u32,
}

/// An output and its current mode, scale, position and physical size.
#[derive(Debug)]
pub struct Output {
    pub name: String,
    pub mode: Mode,
    pub scale: u32,
    pub position: (i32, i32),
    pub size: (u32, u32),
}

/// The known outputs, at most one per name.
pub struct OutputManager {
    outputs: Vec<Output>,
}

/// Some output in `outs` is called `name`.
pub open spec fn has_name(outs: Seq<Output>, name: Seq<char>) -> bool {
    exists|i: int| 0 <= i < outs.len() && #[trigger] outs[i].name@ == name
}

/// The position of the output called `name`.
pub open spec fn position_of(outs: Seq<Output>, name: Seq<char>) -> int {
    choose|i: int| 0 <= i < outs.len() && #[trigger] outs[i].name@ == name
}

/// No two outputs share a name.
pub open spec fn names_unique(outs: Seq<Output>) -> bool {
    forall|i: int, j: int|
        0 <= i < outs.len() && 0 <= j < outs.len() && i != j ==> #[trigger] outs[i].name@
            != #[trigger] outs[j].name@
}

/// The outputs by name.
pub open spec fn by_name(outs: Seq<Output>) -> Map<Seq<char>, Output> {
    Map::new(|name: Seq<char>| has_name(outs, name), |name: Seq<char>| outs[position_of(outs, name)])
}

/// The output that `add_output` records for `name`, `mode` and `scale`.
pub open spec fn new_output(name: Seq<char>, mode: Mode, scale: u32, o: Output) -> bool {
    &&& o.name@ == name
    &&& o.mode == mode
    &&& o.scale == scale
    &&& o.position == (0i32, 0i32)
    &&& o.size == (mode.width, mode.height)
}

impl View for OutputManager {
    type V = Map<Seq<char>, Output>;

    closed spec fn view(&self) -> Map<Seq<char>, Output> {
        by_name(self.outputs@)
    }
}

/// In a list without repeated names, the output at position `i` is the one
/// found under its name.
proof fn lemma_position_of(outs: Seq<Output>, i: int)
    requires
        names_unique(outs),
        0 <= i < outs.len(),
    ensures
        has_name(outs, outs[i].name@),
        position_of(outs, outs[i].name@) == i,
{
    assert(has_name(outs, outs[i].name@));
}

impl OutputManager {
    #[verifier::type_invariant]
    spec fn inv(self) -> bool {
        names_unique(self.outputs@)
    }

    /// A manager with no output.
    pub fn new() -> (m: Self)
        ensures
            m@ == Map::<Seq<char>, Output>::empty(),
    {
        let m = OutputManager { outputs: Vec::new() };
        assert(m@ =~= Map::<Seq<char>, Output>::empty());
        m
    }

    /// Records the output `name` with `mode` and `scale`, at the origin and
    /// with the mode's size; an output of the same name is replaced.
    pub fn add_output(&mut self, name: String, mode: Mode, scale: u32)
        ensures
            final(self)@.dom() == old(self)@.dom().insert(name@),
            new_output(name@, mode, scale, final(self)@[name@]),
            final(self)@.remove(name@) == old(self)@.remove(name@),
    {
        proof {
            use_type_invariant(&*self);
        }
        let size = (mode.width, mode.height);
        let output = Output { name: name.clone(), mode, scale, position: (0, 0), size };
        assert(output.name@ == name@);
        let ghost old_outs = self.outputs@;
        let mut i: usize = 0;
        while i < self.outputs.len()
            invariant
                0 <= i <= self.outputs@.len(),
                self.outputs@ == old_outs,
                old(self).outputs@ == old_outs,
                names_unique(old_outs),
                forall|j: int| 0 <= j < i ==> old_outs[j].name@ != name@,
                new_output(name@, mode, scale, output),
            decreases self.outputs@.len() - i,
        {
            if self.outputs[i].name == name {
                let mut outputs = Vec::new();
                std::mem::swap(&mut outputs, &mut self.outputs);
                outputs.set(i, output);
                proof {
                    let new_outs = outputs@;
                    assert(new_outs == old_outs.update(i as int, output));
                    assert(old_outs[i as int].name@ == name@);
                    assert forall|a: int, b: int|
                        0 <= a < new_outs.len() && 0 <= b < new_outs.len() && a != b implies #[trigger] new_outs[a].name@
                            != #[trigger] new_outs[b].name@ by {
                        if a == i {
                            assert(new_outs[a] == output);
                        }
                        if b == i {
                            assert(new_outs[b] == output);
                        }
                        assert(new_outs[a].name@ == old_outs[a].name@);
                        assert(new_outs[b].name@ == old_outs[b].name@);
                    }
                    assert(names_unique(new_outs));
                    lemma_position_of(new_outs, i as int);
                    assert forall|n: Seq<char>| has_name(new_outs, n) && n != name@ implies has_name(old_outs, n) && old_outs[position_of(old_outs, n)] == new_outs[position_of(new_outs, n)] by {
                        let k = position_of(new_outs, n);
                        assert(0 <= k < new_outs.len() && new_outs[k].name@ == n);
                        assert(k != i);
                        assert(old_outs[k] == new_outs[k]);
                        lemma_position_of(new_outs, k);
                        lemma_position_of(old_outs, k);
                    }
                    assert forall|n: Seq<char>| has_name(old_outs, n) implies has_name(new_outs, n) by {
                        let k = position_of(old_outs, n);
                        if k != i {
                            assert(new_outs[k].name@ == n);
                        } else {
                            assert(new_outs[i as int].name@ == n);
                        }
                    }
                    assert(by_name(new_outs).dom() =~= by_name(old_outs).dom().insert(name@));
                    assert(by_name(new_outs).remove(name@) =~= by_name(old_outs).remove(name@));
                }
                self.outputs = outputs;
                return;
            }
            i += 1;
        }
        let mut outputs = Vec::new();
        std::mem::swap(&mut outputs, &mut self.outputs);
        outputs.push(output);
        proof {
            let new_outs = outputs@;
            assert(new_outs == old_outs.push(output));
            assert(names_unique(new_outs));
            lemma_position_of(new_outs, old_outs.len() as int);
            assert forall|n: Seq<char>| has_name(new_outs, n) && n != name@ implies has_name(old_outs, n) && old_outs[position_of(old_outs, n)] == new_outs[position_of(new_outs, n)] by {
                let k = position_of(new_outs, n);
                lemma_position_of(new_outs, k);
                lemma_position_of(old_outs, k);
            }
            assert forall|n: Seq<char>| has_name(old_outs, n) implies has_name(new_outs, n) by {
                let k = position_of(old_outs, n);
                assert(new_outs[k].name@ == n);
            }
            assert(by_name(new_outs).dom() =~= by_name(old_outs).dom().insert(name@));
            assert(by_name(new_outs).remove(name@) =~= by_name(old_outs).remove(name@));
        }
        self.outputs = outputs;
    }

    /// Forgets the output called `name`, if there is one.
    pub fn remove_output(&mut self, name: &str)
        ensures
            final(self)@ == old(self)@.remove(name@),
    {
        proof {
            use_type_invariant(&*self);
        }
        let ghost old_outs = self.outputs@;
        let mut i: usize = 0;
        while i < self.outputs.len()
            invariant
                0 <= i <= self.outputs@.len(),
                self.outputs@ == old_outs,
                old(self).outputs@ == old_outs,
                names_unique(old_outs),
                forall|j: int| 0 <= j < i ==> old_outs[j].name@ != name@,
            decreases self.outputs@.len() - i,
        {
            if str_eq(self.outputs[i].name.as_str(), name) {
                let mut outputs = Vec::new();
                std::mem::swap(&mut outputs, &mut self.outputs);
                let _removed = outputs.remove(i);
                proof {
                    let new_outs = outputs@;
                    assert(new_outs == old_outs.remove(i as int));
                    assert forall|a: int, b: int|
                        0 <= a < new_outs.len() && 0 <= b < new_outs.len() && a != b implies #[trigger] new_outs[a].name@
                            != #[trigger] new_outs[b].name@ by {
                        let oa = if a < i { a } else { a + 1 };
                        let ob = if b < i { b } else { b + 1 };
                        assert(new_outs[a] == old_outs[oa]);
                        assert(new_outs[b] == old_outs[ob]);
                    }
                    assert forall|n: Seq<char>| has_name(new_outs, n) implies n != name@ && has_name(old_outs, n) && old_outs[position_of(old_outs, n)] == new_outs[position_of(new_outs, n)] by {
                        let k = position_of(new_outs, n);
                        let ok = if k < i { k } else { k + 1 };
                        assert(new_outs[k] == old_outs[ok]);
                        lemma_position_of(old_outs, ok);
                        lemma_position_of(old_outs, i as int);
                    }
                    assert forall|n: Seq<char>| has_name(old_outs, n) && n != name@ implies has_name(new_outs, n) by {
                        let k = position_of(old_outs, n);
                        assert(k != i);
                        let nk = if k < i { k } else { k - 1 };
                        assert(new_outs[nk] == old_outs[k]);
                    }
                    assert(by_name(new_outs) =~= by_name(old_outs).remove(name@));
                }
                self.outputs = outputs;
                return;
            }
            i += 1;
        }
        assert(by_name(old_outs) =~= by_name(old_outs).remove(name@));
    }

    /// Some known output, or none when there is none.
    pub fn get_primary_output(&self) -> (primary: Option<&Output>)
        ensures
            primary is None <==> self@.dom() == Set::<Seq<char>>::empty(),
            primary matches Some(o) ==> self@.dom().contains(o.name@) && self@[o.name@] == *o,
    {
        proof {
            use_type_invariant(self);
        }
        if self.outputs.len() == 0 {
            assert(self@.dom() =~= Set::<Seq<char>>::empty());
            None
        } else {
            proof {
                lemma_position_of(self.outputs@, 0);
                assert(self@.dom().contains(self.outputs@[0].name@));
            }
            Some(&self.outputs[0])
        }
    }
}

} // verus!

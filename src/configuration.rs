use vstd::prelude::*;

use crate::orbital::{Block, EnergyLevel, block_capacity};

verus! {

/// Electron counts of one energy level, block by block.
pub struct Occupancy {
    pub s: nat,
    pub p: nat,
    pub d: nat,
    pub f: nat,
}

impl Occupancy {
    /// A level with no electrons.
    pub open spec fn zero() -> Occupancy {
        Occupancy { s: 0, p: 0, d: 0, f: 0 }
    }

    pub open spec fn get(self, b: Block) -> nat {
        match b {
            Block::S => self.s,
            Block::P => self.p,
            Block::D => self.d,
            Block::F => self.f,
        }
    }

    /// The same counts, with block `b` holding `n` electrons.
    pub open spec fn with(self, b: Block, n: nat) -> Occupancy {
        match b {
            Block::S => Occupancy { s: n, ..self },
            Block::P => Occupancy { p: n, ..self },
            Block::D => Occupancy { d: n, ..self },
            Block::F => Occupancy { f: n, ..self },
        }
    }
}

/// The electron counts of level `l`.
pub open spec fn occupancy(l: EnergyLevel) -> Occupancy {
    Occupancy {
        s: l.count(Block::S),
        p: l.count(Block::P),
        d: l.count(Block::D),
        f: l.count(Block::F),
    }
}

/// Eight well-formed levels, level `i` belonging to shell `i + 1`.
pub open spec fn levels_in_order(levels: Seq<EnergyLevel>) -> bool {
    &&& levels.len() == 8
    &&& forall|i: int|
        0 <= i < 8 ==> (#[trigger] levels[i]).wf() && levels[i].spec_quantum_number() == i + 1
}

/// Electron counts of each level in `levels`.
pub open spec fn counts_of(levels: Seq<EnergyLevel>) -> Seq<Occupancy> {
    levels.map_values(|l: EnergyLevel| occupancy(l))
}

/// Levels in order are determined by their counts.
pub proof fn lemma_counts_determine(a: Seq<EnergyLevel>, b: Seq<EnergyLevel>)
    requires
        levels_in_order(a),
        levels_in_order(b),
        counts_of(a) == counts_of(b),
    ensures
        a == b,
{
    assert forall|i: int| 0 <= i < 8 implies a[i] == b[i] by {
        assert(occupancy(a[i]) == counts_of(a)[i]);
        assert(occupancy(b[i]) == counts_of(b)[i]);
        assert(a[i].count(Block::S) == b[i].count(Block::S));
        assert(a[i].count(Block::P) == b[i].count(Block::P));
        assert(a[i].count(Block::D) == b[i].count(Block::D));
        assert(a[i].count(Block::F) == b[i].count(Block::F));
        a[i].lemma_determined_by(&b[i]);
    }
    assert(a =~= b);
}

/// Number of leading levels that hold at least one electron.
pub open spec fn occupied_len(levels: Seq<EnergyLevel>) -> nat
    decreases levels.len(),
{
    if levels.len() == 0 || levels[0].is_vacant() {
        0
    } else {
        1 + occupied_len(levels.drop_first())
    }
}

/// The levels before the first one that holds no electron.
pub open spec fn occupied_levels(levels: Seq<EnergyLevel>) -> Seq<EnergyLevel> {
    levels.take(occupied_len(levels) as int)
}

/// `occupied_len` is the length of the run of non-vacant levels at the front.
pub proof fn lemma_occupied_len(levels: Seq<EnergyLevel>, n: nat)
    requires
        n <= levels.len(),
        forall|i: int| 0 <= i < n ==> !(#[trigger] levels[i]).is_vacant(),
        n < levels.len() ==> levels[n as int].is_vacant(),
    ensures
        occupied_len(levels) == n,
    decreases n,
{
    if n > 0 {
        assert(!levels[0].is_vacant());
        let rest = levels.drop_first();
        assert forall|i: int| 0 <= i < (n - 1) as nat implies !(#[trigger] rest[i]).is_vacant() by {
            assert(rest[i] == levels[i + 1]);
        }
        if n < levels.len() {
            assert(rest[(n - 1) as int] == levels[n as int]);
        }
        lemma_occupied_len(rest, (n - 1) as nat);
    }
}

/// The electron shells of an element: eight energy levels, level `i` holding
/// the suborbitals of shell `i + 1`.
#[derive(Clone, Copy, Debug, PartialEq, PartialOrd)]
pub struct ElectronConfiguration([EnergyLevel; 8]);

impl View for ElectronConfiguration {
    type V = Seq<EnergyLevel>;

    closed spec fn view(&self) -> Seq<EnergyLevel> {
        self.0@
    }
}

impl ElectronConfiguration {
    #[verifier::type_invariant]
    spec fn inv(self) -> bool {
        levels_in_order(self.0@)
    }

    /// Electron counts of the eight levels.
    pub open spec fn counts(&self) -> Seq<Occupancy> {
        counts_of(self@)
    }

    /// Configurations with the same levels are equal.
    pub proof fn lemma_view_determines(&self, other: &Self)
        requires
            self@ == other@,
        ensures
            *self == *other,
    {
        assert(self.0 =~= other.0);
    }

    /// A configuration from its eight levels.
    pub fn new(levels: [EnergyLevel; 8]) -> (r: Self)
        requires
            levels_in_order(levels@),
        ensures
            r@ == levels@,
    {
        ElectronConfiguration(levels)
    }

    /// Eight levels, numbered 1 to 8, with no electrons.
    pub fn new_empty() -> (r: Self)
        ensures
            levels_in_order(r@),
            forall|i: int| 0 <= i < 8 ==> (#[trigger] r.counts()[i]) == Occupancy::zero(),
    {
        let levels = [
            EnergyLevel::empty(1),
            EnergyLevel::empty(2),
            EnergyLevel::empty(3),
            EnergyLevel::empty(4),
            EnergyLevel::empty(5),
            EnergyLevel::empty(6),
            EnergyLevel::empty(7),
            EnergyLevel::empty(8),
        ];
        let r = ElectronConfiguration(levels);
        assert forall|i: int| 0 <= i < 8 implies (#[trigger] r.counts()[i]) == Occupancy::zero() by {
            assert(levels[i].count(Block::S) == 0);
            assert(levels[i].count(Block::P) == 0);
            assert(levels[i].count(Block::D) == 0);
            assert(levels[i].count(Block::F) == 0);
        }
        r
    }

    /// The occupied shells: the levels before the first level with no electron.
    pub fn shells(&self) -> (r: Vec<EnergyLevel>)
        ensures
            r@ == occupied_levels(self@),
            levels_in_order(self@),
    {
        proof {
            use_type_invariant(self);
        }
        let mut r: Vec<EnergyLevel> = Vec::new();
        let mut i: usize = 0;
        while i < 8 && !self.0[i].is_empty()
            invariant
                i <= 8,
                r@ == self@.take(i as int),
                forall|j: int| 0 <= j < i ==> !(#[trigger] self@[j]).is_vacant(),
            decreases 8 - i,
        {
            r.push(self.0[i]);
            i = i + 1;
            assert(r@ =~= self@.take(i as int));
        }
        proof {
            lemma_occupied_len(self@, i as nat);
        }
        r
    }

    /// Level `i` (shell `i + 1`).
    pub fn level(&self, i: usize) -> (r: EnergyLevel)
        requires
            i < 8,
        ensures
            r == self@[i as int],
    {
        self.0[i]
    }

    /// Replaces the electron count of block `b` in shell `shell`.
    pub(crate) fn set_electrons(&mut self, shell: u8, b: Block, electrons: u8)
        requires
            1 <= shell <= 8,
            electrons <= block_capacity(b),
        ensures
            levels_in_order(final(self)@),
            final(self).counts() == old(self).counts().update(
                shell - 1,
                old(self).counts()[shell - 1].with(b, electrons as nat),
            ),
    {
        proof {
            use_type_invariant(&*self);
        }
        let i = (shell - 1) as usize;
        let mut level = self.0[i];
        level.set_electrons(b, electrons);
        self.0[i] = level;
        assert(self.counts() =~= old(self).counts().update(
            shell - 1,
            old(self).counts()[shell - 1].with(b, electrons as nat),
        ));
    }
}

} // verus!

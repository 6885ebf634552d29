use core::ops::{Range, RangeInclusive};
use vstd::prelude::*;

use crate::error::{ElementError, ErrorView};

verus! {

/// One of the four suborbital blocks.
#[derive(Clone, Copy, Debug, PartialEq, Eq, Structural, Hash, PartialOrd, Ord)]
pub enum Block {
    S,
    P,
    D,
    F,
}

/// Number of electrons a suborbital of block `b` holds when full.
pub open spec fn block_capacity(b: Block) -> nat {
    match b {
        Block::S => 2,
        Block::P => 6,
        Block::D => 10,
        Block::F => 14,
    }
}

/// Azimuthal (angular momentum) quantum number of block `b`.
pub open spec fn block_angular_momentum(b: Block) -> nat {
    match b {
        Block::S => 0,
        Block::P => 1,
        Block::D => 2,
        Block::F => 3,
    }
}

/// The letter that names block `b` in configuration notation.
pub open spec fn block_letter(b: Block) -> char {
    match b {
        Block::S => 's',
        Block::P => 'p',
        Block::D => 'd',
        Block::F => 'f',
    }
}

/// The block named by letter `c`, if any.
pub open spec fn block_of_letter(c: char) -> Option<Block> {
    if c == 's' {
        Some(Block::S)
    } else if c == 'p' {
        Some(Block::P)
    } else if c == 'd' {
        Some(Block::D)
    } else if c == 'f' {
        Some(Block::F)
    } else {
        None
    }
}

impl Block {
    /// Electrons a suborbital of this block holds when full.
    pub fn capacity(self) -> (r: u8)
        ensures
            r == block_capacity(self),
    {
        match self {
            Block::S => 2,
            Block::P => 6,
            Block::D => 10,
            Block::F => 14,
        }
    }

    /// Azimuthal quantum number of this block.
    pub fn angular_momentum(self) -> (r: u8)
        ensures
            r == block_angular_momentum(self),
    {
        match self {
            Block::S => 0,
            Block::P => 1,
            Block::D => 2,
            Block::F => 3,
        }
    }

    /// The letter that names this block.
    pub fn letter(self) -> (r: char)
        ensures
            r == block_letter(self),
    {
        match self {
            Block::S => 's',
            Block::P => 'p',
            Block::D => 'd',
            Block::F => 'f',
        }
    }

    /// The block named by `c`, if `c` is one of `s`, `p`, `d`, `f`.
    pub fn from_letter(c: char) -> (r: Option<Block>)
        ensures
            r == block_of_letter(c),
    {
        if c == 's' {
            Some(Block::S)
        } else if c == 'p' {
            Some(Block::P)
        } else if c == 'd' {
            Some(Block::D)
        } else if c == 'f' {
            Some(Block::F)
        } else {
            None
        }
    }
}

/// Spin projection of the last electron placed in a suborbital:
/// `Up` is +1/2, `Down` is -1/2.
#[derive(Clone, Copy, Debug, PartialEq, Eq, Structural, Hash)]
pub enum Spin {
    Up,
    Down,
}

/// Electrons fill each orbital of a block singly before pairing, so the last
/// electron points up until the block is half full and down afterwards.
pub open spec fn spin_of(b: Block, electrons: nat) -> Spin {
    if electrons <= block_capacity(b) / 2 {
        Spin::Up
    } else {
        Spin::Down
    }
}

/// Magnetic quantum number of the orbital that holds the last electron.
pub open spec fn magnetic_quantum_number_of(b: Block, electrons: nat) -> int {
    (electrons % (block_capacity(b) / 2)) as int - block_angular_momentum(b) as int
}

/// Fullness, capacity and numbering of one suborbital.
pub trait SubOrbital: Sized {
    spec fn spec_block(&self) -> Block;

    spec fn spec_quantum_number(&self) -> u8;

    spec fn spec_electrons(&self) -> u8;

    /// Block of the suborbital.
    fn block(&self) -> (r: Block)
        ensures
            r == self.spec_block(),
    ;

    /// Number of the energy level.
    fn quantum_number(&self) -> (r: u8)
        ensures
            r == self.spec_quantum_number(),
            1 <= r <= 8,
    ;

    /// Number of electrons in the suborbital.
    fn electrons(&self) -> (r: u8)
        ensures
            r == self.spec_electrons(),
            r <= block_capacity(self.spec_block()),
    ;

    /// Replaces the electron count.
    fn set_electrons(&mut self, electrons: u8)
        requires
            electrons <= block_capacity(old(self).spec_block()),
        ensures
            final(self).spec_electrons() == electrons,
            final(self).spec_quantum_number() == old(self).spec_quantum_number(),
            final(self).spec_block() == old(self).spec_block(),
    ;

    /// Maximum number of electrons in the suborbital.
    fn capacity(&self) -> (r: u8)
        ensures
            r == block_capacity(self.spec_block()),
    {
        self.block().capacity()
    }

    /// Indicates which sublevel the suborbital is.
    fn angular_momentum(&self) -> (r: u8)
        ensures
            r == block_angular_momentum(self.spec_block()),
    {
        self.block().angular_momentum()
    }

    /// The orbital the last electron is contained in.
    fn magnetic_quantum_number(&self) -> (r: i8)
        ensures
            r == magnetic_quantum_number_of(self.spec_block(), self.spec_electrons() as nat),
    {
        let b = self.block();
        let half = b.capacity() / 2;
        let m = self.electrons() % half;
        m as i8 - b.angular_momentum() as i8
    }

    /// Spin of the last electron in the suborbital.
    fn magnetic_spin_number(&self) -> (r: Spin)
        ensures
            r == spin_of(self.spec_block(), self.spec_electrons() as nat),
    {
        if self.electrons() <= self.capacity() / 2 {
            Spin::Up
        } else {
            Spin::Down
        }
    }
}

/// Suborbital types whose block is fixed by the type.
pub trait CapSubOrbital: SubOrbital {
    const CAPACITY: u8;
    const ANGULAR_MOMENTUM: u8;
}

/// Suborbital containing up to 2 electrons.
///
/// S-block elements are in groups 1 and 2.
#[derive(Clone, Copy, Debug, Hash, PartialEq, Eq, PartialOrd, Ord)]
pub struct SOrbital(u8, u8);

/// Suborbital containing up to 6 electrons.
///
/// P-block elements are in groups 13-18.
#[derive(Clone, Copy, Debug, Hash, PartialEq, Eq, PartialOrd, Ord)]
pub struct POrbital(u8, u8);

/// Suborbital containing up to 10 electrons.
///
/// D-block elements are the transition metals (groups 3-12).
#[derive(Clone, Copy, Debug, Hash, PartialEq, Eq, PartialOrd, Ord)]
pub struct DOrbital(u8, u8);

/// Suborbital containing up to 14 electrons.
///
/// F-block elements are the lanthanides and actinides.
#[derive(Clone, Copy, Debug, Hash, PartialEq, Eq, PartialOrd, Ord)]
pub struct FOrbital(u8, u8);

/// The error a suborbital constructor reports for `electrons` in block `b`.
pub open spec fn overfull_view(b: Block, electrons: nat) -> ErrorView {
    ErrorView::CapacityExceeded {
        context: seq![block_letter(b)],
        limit: block_capacity(b),
        actual: electrons,
    }
}

fn overfull(b: Block, electrons: u8) -> (e: ElementError)
    ensures
        e@ == overfull_view(b, electrons as nat),
{
    let context = match b {
        Block::S => "s".to_owned(),
        Block::P => "p".to_owned(),
        Block::D => "d".to_owned(),
        Block::F => "f".to_owned(),
    };
    proof {
        reveal_strlit("s");
        reveal_strlit("p");
        reveal_strlit("d");
        reveal_strlit("f");
    }
    assert(context@ =~= seq![block_letter(b)]);
    ElementError::CapacityExceeded {
        context,
        limit: b.capacity() as usize,
        actual: electrons as usize,
    }
}

impl SOrbital {
    #[verifier::type_invariant]
    spec fn inv(self) -> bool {
        1 <= self.0 <= 8 && self.1 <= 2
    }

    /// A suborbital of shell `number` holding `fullness` electrons, or
    /// `CapacityExceeded` where `fullness` is more than it can hold.
    pub fn new(number: u8, fullness: u8) -> (r: Result<Self, ElementError>)
        requires
            1 <= number <= 8,
        ensures
            r is Ok <==> fullness <= 2,
            r matches Ok(o) ==> o.spec_quantum_number() == number && o.spec_electrons()
                == fullness,
            r matches Err(e) ==> e@ == overfull_view(Block::S, fullness as nat),
    {
        if fullness <= 2 {
            Ok(SOrbital(number, fullness))
        } else {
            Err(overfull(Block::S, fullness))
        }
    }

    pub fn is_empty(&self) -> (r: bool)
        ensures
            r == (self.spec_electrons() == 0),
    {
        self.1 == 0
    }
}

impl SOrbital {
    /// Suborbitals are equal when their shells and counts are.
    pub proof fn lemma_same_fields(&self, other: &Self)
        requires
            self.spec_quantum_number() == other.spec_quantum_number(),
            self.spec_electrons() == other.spec_electrons(),
        ensures
            *self == *other,
    {
    }
}

impl SubOrbital for SOrbital {
    closed spec fn spec_block(&self) -> Block {
        Block::S
    }

    closed spec fn spec_quantum_number(&self) -> u8 {
        self.0
    }

    closed spec fn spec_electrons(&self) -> u8 {
        self.1
    }

    fn block(&self) -> (r: Block) {
        Block::S
    }

    fn quantum_number(&self) -> (r: u8) {
        proof {
            use_type_invariant(self);
        }
        self.0
    }

    fn electrons(&self) -> (r: u8) {
        proof {
            use_type_invariant(self);
        }
        self.1
    }

    fn set_electrons(&mut self, electrons: u8) {
        proof {
            use_type_invariant(&*self);
        }
        self.1 = electrons;
    }
}

impl CapSubOrbital for SOrbital {
    const CAPACITY: u8 = 2;
    const ANGULAR_MOMENTUM: u8 = 0;
}

impl POrbital {
    #[verifier::type_invariant]
    spec fn inv(self) -> bool {
        1 <= self.0 <= 8 && self.1 <= 6
    }

    /// A suborbital of shell `number` holding `fullness` electrons, or
    /// `CapacityExceeded` where `fullness` is more than it can hold.
    pub fn new(number: u8, fullness: u8) -> (r: Result<Self, ElementError>)
        requires
            1 <= number <= 8,
        ensures
            r is Ok <==> fullness <= 6,
            r matches Ok(o) ==> o.spec_quantum_number() == number && o.spec_electrons()
                == fullness,
            r matches Err(e) ==> e@ == overfull_view(Block::P, fullness as nat),
    {
        if fullness <= 6 {
            Ok(POrbital(number, fullness))
        } else {
            Err(overfull(Block::P, fullness))
        }
    }

    pub fn is_empty(&self) -> (r: bool)
        ensures
            r == (self.spec_electrons() == 0),
    {
        self.1 == 0
    }
}

impl POrbital {
    /// Suborbitals are equal when their shells and counts are.
    pub proof fn lemma_same_fields(&self, other: &Self)
        requires
            self.spec_quantum_number() == other.spec_quantum_number(),
            self.spec_electrons() == other.spec_electrons(),
        ensures
            *self == *other,
    {
    }
}

impl SubOrbital for POrbital {
    closed spec fn spec_block(&self) -> Block {
        Block::P
    }

    closed spec fn spec_quantum_number(&self) -> u8 {
        self.0
    }

    closed spec fn spec_electrons(&self) -> u8 {
        self.1
    }

    fn block(&self) -> (r: Block) {
        Block::P
    }

    fn quantum_number(&self) -> (r: u8) {
        proof {
            use_type_invariant(self);
        }
        self.0
    }

    fn electrons(&self) -> (r: u8) {
        proof {
            use_type_invariant(self);
        }
        self.1
    }

    fn set_electrons(&mut self, electrons: u8) {
        proof {
            use_type_invariant(&*self);
        }
        self.1 = electrons;
    }
}

impl CapSubOrbital for POrbital {
    const CAPACITY: u8 = 6;
    const ANGULAR_MOMENTUM: u8 = 1;
}

impl DOrbital {
    #[verifier::type_invariant]
    spec fn inv(self) -> bool {
        1 <= self.0 <= 8 && self.1 <= 10
    }

    /// A suborbital of shell `number` holding `fullness` electrons, or
    /// `CapacityExceeded` where `fullness` is more than it can hold.
    pub fn new(number: u8, fullness: u8) -> (r: Result<Self, ElementError>)
        requires
            1 <= number <= 8,
        ensures
            r is Ok <==> fullness <= 10,
            r matches Ok(o) ==> o.spec_quantum_number() == number && o.spec_electrons()
                == fullness,
            r matches Err(e) ==> e@ == overfull_view(Block::D, fullness as nat),
    {
        if fullness <= 10 {
            Ok(DOrbital(number, fullness))
        } else {
            Err(overfull(Block::D, fullness))
        }
    }

    pub fn is_empty(&self) -> (r: bool)
        ensures
            r == (self.spec_electrons() == 0),
    {
        self.1 == 0
    }
}

impl DOrbital {
    /// Suborbitals are equal when their shells and counts are.
    pub proof fn lemma_same_fields(&self, other: &Self)
        requires
            self.spec_quantum_number() == other.spec_quantum_number(),
            self.spec_electrons() == other.spec_electrons(),
        ensures
            *self == *other,
    {
    }
}

impl SubOrbital for DOrbital {
    closed spec fn spec_block(&self) -> Block {
        Block::D
    }

    closed spec fn spec_quantum_number(&self) -> u8 {
        self.0
    }

    closed spec fn spec_electrons(&self) -> u8 {
        self.1
    }

    fn block(&self) -> (r: Block) {
        Block::D
    }

    fn quantum_number(&self) -> (r: u8) {
        proof {
            use_type_invariant(self);
        }
        self.0
    }

    fn electrons(&self) -> (r: u8) {
        proof {
            use_type_invariant(self);
        }
        self.1
    }

    fn set_electrons(&mut self, electrons: u8) {
        proof {
            use_type_invariant(&*self);
        }
        self.1 = electrons;
    }
}

impl CapSubOrbital for DOrbital {
    const CAPACITY: u8 = 10;
    const ANGULAR_MOMENTUM: u8 = 2;
}

impl FOrbital {
    #[verifier::type_invariant]
    spec fn inv(self) -> bool {
        1 <= self.0 <= 8 && self.1 <= 14
    }

    /// A suborbital of shell `number` holding `fullness` electrons, or
    /// `CapacityExceeded` where `fullness` is more than it can hold.
    pub fn new(number: u8, fullness: u8) -> (r: Result<Self, ElementError>)
        requires
            1 <= number <= 8,
        ensures
            r is Ok <==> fullness <= 14,
            r matches Ok(o) ==> o.spec_quantum_number() == number && o.spec_electrons()
                == fullness,
            r matches Err(e) ==> e@ == overfull_view(Block::F, fullness as nat),
    {
        if fullness <= 14 {
            Ok(FOrbital(number, fullness))
        } else {
            Err(overfull(Block::F, fullness))
        }
    }

    pub fn is_empty(&self) -> (r: bool)
        ensures
            r == (self.spec_electrons() == 0),
    {
        self.1 == 0
    }
}

impl FOrbital {
    /// Suborbitals are equal when their shells and counts are.
    pub proof fn lemma_same_fields(&self, other: &Self)
        requires
            self.spec_quantum_number() == other.spec_quantum_number(),
            self.spec_electrons() == other.spec_electrons(),
        ensures
            *self == *other,
    {
    }
}

impl SubOrbital for FOrbital {
    closed spec fn spec_block(&self) -> Block {
        Block::F
    }

    closed spec fn spec_quantum_number(&self) -> u8 {
        self.0
    }

    closed spec fn spec_electrons(&self) -> u8 {
        self.1
    }

    fn block(&self) -> (r: Block) {
        Block::F
    }

    fn quantum_number(&self) -> (r: u8) {
        proof {
            use_type_invariant(self);
        }
        self.0
    }

    fn electrons(&self) -> (r: u8) {
        proof {
            use_type_invariant(self);
        }
        self.1
    }

    fn set_electrons(&mut self, electrons: u8) {
        proof {
            use_type_invariant(&*self);
        }
        self.1 = electrons;
    }
}

impl CapSubOrbital for FOrbital {
    const CAPACITY: u8 = 14;
    const ANGULAR_MOMENTUM: u8 = 3;
}

/// A suborbital of any block, the block carried as data.
#[derive(Clone, Copy, Debug, Hash, PartialEq, Eq, PartialOrd, Ord)]
pub struct Suborbital {
    shell: u8,
    block: Block,
    electrons: u8,
}

impl Suborbital {
    #[verifier::type_invariant]
    spec fn inv(self) -> bool {
        1 <= self.shell <= 8 && self.electrons <= block_capacity(self.block)
    }

    /// A suborbital of block `block` in shell `shell` holding `electrons`
    /// electrons, or `CapacityExceeded` where the block cannot hold them.
    pub fn new(shell: u8, block: Block, electrons: u8) -> (r: Result<Self, ElementError>)
        requires
            1 <= shell <= 8,
        ensures
            r is Ok <==> electrons <= block_capacity(block),
            r matches Ok(o) ==> o.spec_quantum_number() == shell && o.spec_block() == block
                && o.spec_electrons() == electrons,
            r matches Err(e) ==> e@ == overfull_view(block, electrons as nat),
    {
        if electrons <= block.capacity() {
            Ok(Suborbital { shell, block, electrons })
        } else {
            Err(overfull(block, electrons))
        }
    }

    pub fn is_empty(&self) -> (r: bool)
        ensures
            r == (self.spec_electrons() == 0),
    {
        self.electrons == 0
    }
}

impl SubOrbital for Suborbital {
    closed spec fn spec_block(&self) -> Block {
        self.block
    }

    closed spec fn spec_quantum_number(&self) -> u8 {
        self.shell
    }

    closed spec fn spec_electrons(&self) -> u8 {
        self.electrons
    }

    fn block(&self) -> (r: Block) {
        self.block
    }

    fn quantum_number(&self) -> (r: u8) {
        proof {
            use_type_invariant(self);
        }
        self.shell
    }

    fn electrons(&self) -> (r: u8) {
        proof {
            use_type_invariant(self);
        }
        self.electrons
    }

    fn set_electrons(&mut self, electrons: u8) {
        proof {
            use_type_invariant(&*self);
        }
        self.electrons = electrons;
    }
}

/// The four suborbitals that share one principal quantum number.
#[derive(Clone, Copy, Debug, Hash, PartialEq, Eq, PartialOrd, Ord)]
pub struct EnergyLevel {
    pub s: SOrbital,
    pub p: POrbital,
    pub d: DOrbital,
    pub f: FOrbital,
}

impl EnergyLevel {
    /// All four suborbitals belong to the same shell.
    pub open spec fn wf(&self) -> bool {
        &&& self.p.spec_quantum_number() == self.s.spec_quantum_number()
        &&& self.d.spec_quantum_number() == self.s.spec_quantum_number()
        &&& self.f.spec_quantum_number() == self.s.spec_quantum_number()
    }

    /// The shell of the level (that of its s suborbital).
    pub open spec fn spec_quantum_number(&self) -> u8 {
        self.s.spec_quantum_number()
    }

    /// Electrons held in block `b` of this level.
    pub open spec fn count(&self, b: Block) -> nat {
        match b {
            Block::S => self.s.spec_electrons() as nat,
            Block::P => self.p.spec_electrons() as nat,
            Block::D => self.d.spec_electrons() as nat,
            Block::F => self.f.spec_electrons() as nat,
        }
    }

    /// No block of the level holds an electron.
    pub open spec fn is_vacant(&self) -> bool {
        &&& self.count(Block::S) == 0
        &&& self.count(Block::P) == 0
        &&& self.count(Block::D) == 0
        &&& self.count(Block::F) == 0
    }

    /// Two well-formed levels of one shell with the same counts are equal.
    pub proof fn lemma_determined_by(&self, other: &Self)
        requires
            self.wf(),
            other.wf(),
            self.spec_quantum_number() == other.spec_quantum_number(),
            forall|b: Block| self.count(b) == other.count(b),
        ensures
            *self == *other,
    {
        assert(self.count(Block::S) == other.count(Block::S));
        assert(self.count(Block::P) == other.count(Block::P));
        assert(self.count(Block::D) == other.count(Block::D));
        assert(self.count(Block::F) == other.count(Block::F));
        self.s.lemma_same_fields(&other.s);
        self.p.lemma_same_fields(&other.p);
        self.d.lemma_same_fields(&other.d);
        self.f.lemma_same_fields(&other.f);
    }

    /// The level of shell `number` with every suborbital empty.
    pub fn empty(number: u8) -> (r: Self)
        requires
            1 <= number <= 8,
        ensures
            r.wf(),
            r.spec_quantum_number() == number,
            forall|b: Block| r.count(b) == 0,
    {
        let s = SOrbital::new(number, 0).unwrap();
        let p = POrbital::new(number, 0).unwrap();
        let d = DOrbital::new(number, 0).unwrap();
        let f = FOrbital::new(number, 0).unwrap();
        EnergyLevel { s, p, d, f }
    }

    /// The principal quantum number shared by the four suborbitals.
    pub fn quantum_number(&self) -> (r: u8)
        requires
            self.wf(),
        ensures
            r == self.spec_quantum_number(),
            1 <= r <= 8,
    {
        self.s.quantum_number()
    }

    /// Angular momentum quantum numbers allowed in this level: `0..n`.
    pub fn possible_angular_momenta(&self) -> (r: Range<u8>)
        requires
            self.wf(),
        ensures
            r.start == 0,
            r.end == self.spec_quantum_number(),
    {
        0..self.quantum_number()
    }

    /// Magnetic quantum numbers allowed in this level: `-n..=n`.
    pub fn possible_magnetic_quantum_numbers(&self) -> (r: RangeInclusive<i8>)
        requires
            self.wf(),
        ensures
            r@.start == -(self.spec_quantum_number() as int),
            r@.end == self.spec_quantum_number() as int,
            !r@.exhausted,
    {
        let n = self.quantum_number() as i8;
        (-n)..=n
    }

    /// Electrons held in block `b`.
    pub fn electrons(&self, b: Block) -> (r: u8)
        ensures
            r == self.count(b),
            r <= block_capacity(b),
    {
        match b {
            Block::S => self.s.electrons(),
            Block::P => self.p.electrons(),
            Block::D => self.d.electrons(),
            Block::F => self.f.electrons(),
        }
    }

    /// Whether no block of the level holds an electron.
    pub fn is_empty(&self) -> (r: bool)
        ensures
            r == self.is_vacant(),
    {
        self.s.is_empty() && self.p.is_empty() && self.d.is_empty() && self.f.is_empty()
    }

    /// Replaces the electron count of block `b`, leaving the rest of the level unchanged.
    pub fn set_electrons(&mut self, b: Block, electrons: u8)
        requires
            electrons <= block_capacity(b),
        ensures
            final(self).count(b) == electrons,
            forall|c: Block| c != b ==> final(self).count(c) == old(self).count(c),
            final(self).s.spec_quantum_number() == old(self).s.spec_quantum_number(),
            final(self).p.spec_quantum_number() == old(self).p.spec_quantum_number(),
            final(self).d.spec_quantum_number() == old(self).d.spec_quantum_number(),
            final(self).f.spec_quantum_number() == old(self).f.spec_quantum_number(),
    {
        match b {
            Block::S => self.s.set_electrons(electrons),
            Block::P => self.p.set_electrons(electrons),
            Block::D => self.d.set_electrons(electrons),
            Block::F => self.f.set_electrons(electrons),
        }
    }
}

} // verus!

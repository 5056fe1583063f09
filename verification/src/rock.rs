//! Rocks, their three sizes, and how a rock breaks when it is hit.

use vstd::prelude::*;
use rand_xoshiro::Xoshiro256PlusPlus;
use crate::random::{draw_seed, drawn_seed};

verus! {

/// The size of a rock.
#[derive(Clone, Copy, Debug, PartialEq, Eq, Structural)]
pub enum RockSize {
    Big,
    Medium,
    Small,
}

impl RockSize {
    /// The points awarded for destroying a rock of this size.
    pub open spec fn score(self) -> nat {
        match self {
            RockSize::Big => 20,
            RockSize::Medium => 50,
            RockSize::Small => 100,
        }
    }

    /// Computes [`RockSize::score`].
    pub fn get_score(self: &Self) -> (points: usize)
        ensures
            points == self.score(),
    {
        match self {
            RockSize::Big => 20,
            RockSize::Medium => 50,
            RockSize::Small => 100,
        }
    }

    /// The size of the pieces that a rock of this size breaks into. The
    /// smallest rocks do not break.
    pub open spec fn piece(self) -> Option<RockSize> {
        match self {
            RockSize::Big => Some(RockSize::Medium),
            RockSize::Medium => Some(RockSize::Small),
            RockSize::Small => None,
        }
    }

    /// Computes [`RockSize::piece`].
    pub fn next_smaller(self: &Self) -> (piece: Option<RockSize>)
        ensures
            piece == self.piece(),
    {
        match self {
            RockSize::Big => Some(RockSize::Medium),
            RockSize::Medium => Some(RockSize::Small),
            RockSize::Small => None,
        }
    }

    /// Into how many pieces a rock of this size breaks: two, or none for the
    /// smallest size.
    pub fn piece_count(self: &Self) -> (count: usize)
        ensures
            count == piece_sizes(*self).len(),
            count == if *self == RockSize::Small {
                0usize
            } else {
                2usize
            },
    {
        match self {
            RockSize::Small => 0,
            _ => 2,
        }
    }
}

/// The most that one destroyed rock awards.
pub const TOP_AWARD: usize = 100;

/// A rock as the rules see it.
#[derive(Clone, Copy, Debug, PartialEq, Eq, Structural)]
pub struct Rock {
    pub size: RockSize,
    /// The number from which the rock's outline is derived.
    pub seed: u64,
    /// Set when the rock has been hit; such a rock leaves the session at the
    /// end of the frame.
    pub removed: bool,
}

impl Rock {
    /// A rock of size `size` in play, its outline seeded with `seed`.
    pub fn new(size: RockSize, seed: u64) -> (rock: Self)
        ensures
            rock == (Rock { size, seed, removed: false }),
    {
        Self { size, seed, removed: false }
    }
}

impl Default for Rock {
    /// A big rock with seed zero.
    fn default() -> (rock: Self)
        ensures
            rock == (Rock { size: RockSize::Big, seed: 0, removed: false }),
    {
        Self { size: RockSize::Big, seed: 0, removed: false }
    }
}

/// The pieces of a rock of size `size`, their outlines seeded with `first`
/// and `second`: two rocks one size down, or none for the smallest size.
pub open spec fn pieces(size: RockSize, first: u64, second: u64) -> Seq<Rock> {
    match size.piece() {
        Some(piece) => seq![
            Rock { size: piece, seed: first, removed: false },
            Rock { size: piece, seed: second, removed: false },
        ],
        None => Seq::empty(),
    }
}

/// The pieces of a rock of size `size` when their seeds are drawn from
/// `random`, the first piece's first, and the stream as the draws leave it. A
/// rock of the smallest size takes no draw.
pub open spec fn pieces_drawn(size: RockSize, random: Xoshiro256PlusPlus) -> (
    Seq<Rock>,
    Xoshiro256PlusPlus,
) {
    match size.piece() {
        Some(_) => {
            let first = drawn_seed(random);
            let second = drawn_seed(first.1);
            (pieces(size, first.0, second.0), second.1)
        },
        None => (Seq::empty(), random),
    }
}

/// The sizes of the pieces of a rock of size `size`.
pub open spec fn piece_sizes(size: RockSize) -> Seq<RockSize> {
    match size.piece() {
        Some(piece) => seq![piece, piece],
        None => Seq::empty(),
    }
}

/// Whether `rocks` are fresh rocks of the sizes `sizes`, in order, whatever
/// their seeds.
pub open spec fn fresh_rocks(rocks: Seq<Rock>, sizes: Seq<RockSize>) -> bool {
    &&& rocks.len() == sizes.len()
    &&& forall|k: int|
        0 <= k < rocks.len() ==> (#[trigger] rocks[k]).size == sizes[k] && !rocks[k].removed
}

/// Whether `broken` holds exactly two fresh rocks of size `size`.
pub open spec fn pair_of(broken: Option<Vec<Rock>>, size: RockSize) -> bool {
    &&& broken matches Some(rocks)
    &&& rocks@.len() == 2
    &&& rocks@[0].size == size
    &&& rocks@[1].size == size
    &&& !rocks@[0].removed
    &&& !rocks@[1].removed
}

/// Breaks a rock of size `size` with the seeds `first` and `second` for its
/// pieces. The smallest size yields `None`.
pub fn split_rock(size: RockSize, first: u64, second: u64) -> (broken: Option<Vec<Rock>>)
    ensures
        broken is None <==> size == RockSize::Small,
        broken matches Some(rocks) ==> rocks@ == pieces(size, first, second),
{
    match size.next_smaller() {
        None => None,
        Some(piece) => {
            let mut rocks: Vec<Rock> = Vec::new();
            rocks.push(Rock::new(piece, first));
            rocks.push(Rock::new(piece, second));
            Some(rocks)
        },
    }
}

/// Destroys `rock`: marks it removed and breaks it. A big rock leaves exactly
/// two medium rocks, a medium rock exactly two small ones, a small rock
/// nothing. The seeds of the pieces are the next two draws from `random`,
/// the first piece's first; a rock that does not break takes no draw.
pub fn hit_rock(rock: &mut Rock, random: &mut Xoshiro256PlusPlus) -> (broken: Option<Vec<Rock>>)
    ensures
        *final(rock) == (Rock { removed: true, ..*old(rock) }),
        broken is None <==> old(rock).size == RockSize::Small,
        broken is None ==> *final(random) == *old(random),
        broken matches Some(rocks) ==> rocks@ == pieces_drawn(old(rock).size, *old(random)).0,
        *final(random) == pieces_drawn(old(rock).size, *old(random)).1,
        broken matches Some(rocks) ==> fresh_rocks(rocks@, piece_sizes(old(rock).size)),
        old(rock).size == RockSize::Big ==> pair_of(broken, RockSize::Medium),
        old(rock).size == RockSize::Medium ==> pair_of(broken, RockSize::Small),
{
    rock.removed = true;
    match rock.size {
        RockSize::Small => None,
        _ => {
            let first: u64 = draw_seed(random);
            let second: u64 = draw_seed(random);
            split_rock(rock.size, first, second)
        },
    }
}

} // verus!

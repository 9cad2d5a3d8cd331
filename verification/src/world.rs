//! Spawn-point configuration of the active level.
//!
//! A level exposes a set of candidate spawn points; actor spawning is
//! gated on the set being non-empty, and a spawn picks one point uniformly
//! at random.

use vstd::prelude::*;

use crate::lobby::Position;

verus! {

/// The candidate spawn points of the active level.
#[derive(Debug, Clone, PartialEq)]
pub struct SpawnProperty(pub Vec<Position>);

impl View for SpawnProperty {
    type V = Seq<Position>;

    open spec fn view(&self) -> Seq<Position> {
        self.0@
    }
}

impl Default for SpawnProperty {
    /// No spawn points configured.
    fn default() -> (r: Self)
        ensures
            r@.len() == 0,
    {
        SpawnProperty(Vec::new())
    }
}

/// Conversion of one point or a tuple of points into a spawn-point list.
pub trait IntoVec3Vec: Sized {
    /// The points the value denotes, in order.
    spec fn spec_points(self) -> Seq<Position>;

    /// Builds the spawn-point list.
    fn into_vec3_vec(self) -> (r: Vec<Position>)
        ensures
            r@ == self.spec_points(),
    ;
}

impl IntoVec3Vec for Position {
    open spec fn spec_points(self) -> Seq<Position> {
        seq![self]
    }

    fn into_vec3_vec(self) -> (r: Vec<Position>) {
        let mut v: Vec<Position> = Vec::new();
        v.push(self);
        proof {
            assert(v@ =~= seq![self]);
        }
        v
    }
}

impl IntoVec3Vec for (Position, Position) {
    open spec fn spec_points(self) -> Seq<Position> {
        seq![self.0, self.1]
    }

    fn into_vec3_vec(self) -> (r: Vec<Position>) {
        let mut v: Vec<Position> = Vec::new();
        v.push(self.0);
        v.push(self.1);
        proof {
            assert(v@ =~= seq![self.0, self.1]);
        }
        v
    }
}

impl IntoVec3Vec for (Position, Position, Position) {
    open spec fn spec_points(self) -> Seq<Position> {
        seq![self.0, self.1, self.2]
    }

    fn into_vec3_vec(self) -> (r: Vec<Position>) {
        let mut v: Vec<Position> = Vec::new();
        v.push(self.0);
        v.push(self.1);
        v.push(self.2);
        proof {
            assert(v@ =~= seq![self.0, self.1, self.2]);
        }
        v
    }
}

/// Relies on `rand::thread_rng` and `Rng::gen_range`: the drawn index lies
/// below `len`; an empty range would make `gen_range` panic, so `len` must
/// be positive. Which index comes back is left open.
#[verifier::external_body]
fn random_index(len: usize) -> (r: usize)
    requires
        len > 0,
    ensures
        r < len,
{
    rand::Rng::gen_range(&mut rand::thread_rng(), 0..len)
}

impl SpawnProperty {
    /// A spawn-point set from one point or a tuple of points.
    pub fn new<T: IntoVec3Vec>(spawn_points: T) -> (r: Self)
        ensures
            r@ == spawn_points.spec_points(),
    {
        SpawnProperty(spawn_points.into_vec3_vec())
    }

    /// A set with no points.
    pub fn empty() -> (r: Self)
        ensures
            r@.len() == 0,
    {
        SpawnProperty(Vec::new())
    }

    /// Whether no point is configured.
    pub fn is_empty(&self) -> (r: bool)
        ensures
            r == (self@.len() == 0),
    {
        self.0.is_empty()
    }

    /// The configured points.
    pub fn points(&self) -> (r: &Vec<Position>)
        ensures
            r@ == self@,
    {
        &self.0
    }

    /// One of the configured points, drawn uniformly at random.
    pub fn random_point(&self) -> (r: Position)
        requires
            self@.len() > 0,
        ensures
            exists|i: int| 0 <= i < self@.len() && r == self@[i],
    {
        let index = random_index(self.0.len());
        self.0[index]
    }
}

} // verus!

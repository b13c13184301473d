//! Bookkeeping values for the non-player objects the engine host draws.
//!
//! The host owns sprites and rendering; what stands here is only what the
//! game rules read: identities, lifetimes in milliseconds, and the fixed
//! enemy rosters.

use vstd::prelude::*;

verus! {

/// How long an explosion stays on the board, in milliseconds.
pub const EXPLOSION_LIFETIME_MILLIS: u64 = 200;

/// One short-lived explosion: the id of its sprite and the time it was
/// created, in server milliseconds.
#[derive(Clone, Debug)]
pub struct Explosion {
    id: String,
    created_at: u64,
}

impl Explosion {
    /// The sprite id this explosion was created under.
    pub closed spec fn spec_id(&self) -> Seq<char> {
        self.id@
    }

    /// When this explosion was created, in server milliseconds.
    pub closed spec fn spec_created_at(&self) -> u64 {
        self.created_at
    }

    /// An explosion created at `created_at` under the sprite id `id`.
    pub fn new(id: String, created_at: u64) -> (e: Explosion)
        ensures
            e.spec_id() == id@,
            e.spec_created_at() == created_at,
    {
        Explosion { id, created_at }
    }

    /// The sprite id this explosion was created under.
    pub fn id(&self) -> (r: String)
        ensures
            r@ == self.spec_id(),
    {
        self.id.clone()
    }

    /// Whether the explosion has outlived its lifetime at time `now` and
    /// its sprite should be removed from the board.
    pub fn expired(&self, now: u64) -> (r: bool)
        requires
            now >= self.spec_created_at(),
        ensures
            r == (now - self.spec_created_at() > EXPLOSION_LIFETIME_MILLIS),
    {
        now - self.created_at > EXPLOSION_LIFETIME_MILLIS
    }
}

/// The enemy kinds a wave can hold.
#[derive(Clone, Copy, Debug, PartialEq, Eq, Structural)]
pub enum EnemyType {
    B2,
    TikiFly,
    Northrop,
}

impl EnemyType {
    /// The name of the illustration asset this enemy kind is drawn with.
    pub open spec fn spec_asset_name(&self) -> Seq<char> {
        match self {
            EnemyType::B2 => "b2"@,
            EnemyType::TikiFly => "tiki_fly"@,
            EnemyType::Northrop => "northrop"@,
        }
    }

    /// The name of the illustration asset this enemy kind is drawn with.
    pub fn asset_name(&self) -> (r: &'static str)
        ensures
            r@ == self.spec_asset_name(),
    {
        match self {
            EnemyType::B2 => "b2",
            EnemyType::TikiFly => "tiki_fly",
            EnemyType::Northrop => "northrop",
        }
    }
}

/// The formations a wave of enemies can take.
#[derive(Clone, Copy, Debug, PartialEq, Eq, Structural)]
pub enum EnemyPatterns {
    Star,
    Triangle,
    Circle,
}

impl EnemyPatterns {
    /// How many enemies the formation places on the board.
    pub open spec fn spec_enemy_count(&self) -> u64 {
        match self {
            EnemyPatterns::Star => 13,
            EnemyPatterns::Triangle => 10,
            EnemyPatterns::Circle => 11,
        }
    }

    /// How many enemies the formation places on the board.
    pub fn enemy_count(&self) -> (r: u64)
        ensures
            r == self.spec_enemy_count(),
    {
        match self {
            EnemyPatterns::Star => 13,
            EnemyPatterns::Triangle => 10,
            EnemyPatterns::Circle => 11,
        }
    }
}

} // verus!

//! Melds that a player has declared: claimed runs, triplets and quads, and
//! concealed and added quads.

pub mod an_gangzi;
pub mod daming_gangzi;
pub mod jia_gangzi;
pub mod mianzi;
pub mod ming_kezi;
pub mod ming_mianzi;
pub mod ming_shunzi;
pub mod tajia;

pub use an_gangzi::AnGangzi;
pub use daming_gangzi::DamingGangzi;
pub use jia_gangzi::JiaGangzi;
pub use mianzi::{Mianzi, MianziError};
pub use ming_kezi::MingKezi;
pub use ming_mianzi::MingMianzi;
pub use ming_shunzi::{ClaimedTilePosition, MingShunzi};
pub use tajia::Tajia;

use vstd::prelude::*;

verus! {

/// A meld made with another player's discard.
#[derive(Debug, Clone, Copy)]
pub enum ChiPengGangMianzi {
    MingShunzi(MingShunzi),
    MingKezi(MingKezi),
    DamingGangzi(DamingGangzi),
}

/// A quad declared on the player's own turn.
#[derive(Debug, Clone, Copy)]
pub enum AnGangJiaGangMianzi {
    AnGangzi(AnGangzi),
    JiaGangzi(JiaGangzi),
}

/// Any declared meld.
#[derive(Debug, Clone, Copy)]
pub enum FuluMianzi {
    MingShunzi(MingShunzi),
    MingKezi(MingKezi),
    DamingGangzi(DamingGangzi),
    JiaGangzi(JiaGangzi),
    AnGangzi(AnGangzi),
}

} // verus!

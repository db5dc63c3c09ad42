use crate::bipai::four_player::{initial_tiles, Bipai4p, HongbaopaiConfig};
use rand::rngs::StdRng;
use vstd::prelude::*;

verus! {

/// Hands out walls in random order.
#[derive(Debug, Clone, PartialEq, Eq)]
pub struct RandomBipaiProvider {
    rng: StdRng,
    config: HongbaopaiConfig,
}

impl RandomBipaiProvider {
    /// The configuration of the walls.
    pub closed spec fn config_spec(&self) -> HongbaopaiConfig {
        self.config
    }

    /// Makes a provider that draws on the generator `rng`.
    pub fn new(rng: StdRng, config: HongbaopaiConfig) -> (r: Self)
        ensures
            r.config_spec() == config,
    {
        Self { rng, config }
    }

    /// Hands out a wall in random order, with red fives as configured.
    pub fn provide_bipai(&mut self) -> (r: Result<Bipai4p, core::convert::Infallible>)
        ensures
            final(self).config_spec() == old(self).config_spec(),
            r matches Ok(wall) && wall.is_fresh() && wall.tiles_spec().to_multiset()
                == initial_tiles(
                old(self).config_spec()@.0,
                old(self).config_spec()@.1,
                old(self).config_spec()@.2,
            ).to_multiset(),
    {
        Ok(Bipai4p::new(&mut self.rng, &self.config))
    }
}

} // verus!

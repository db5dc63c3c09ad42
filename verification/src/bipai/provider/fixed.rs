use crate::bipai::four_player::{from_slice_error, ids_of, Bipai4p, Bipai4pError,
    HongbaopaiConfig};
use std::collections::VecDeque;
use vstd::prelude::*;

verus! {

/// Hands out walls that were fixed beforehand, in order.
#[derive(Debug, Clone, PartialEq, Eq)]
pub struct FixedBipaiProvider {
    bipai_list: VecDeque<Vec<u8>>,
    config: HongbaopaiConfig,
}

/// Why no wall was handed out.
#[derive(Debug, PartialEq, Eq)]
pub enum FixedBipaiProviderError {
    /// All walls have been handed out.
    Empty,
    /// The next tiles are no wall.
    Bipai(Bipai4pError),
}

impl FixedBipaiProvider {
    /// The walls that are still to be handed out, each as the ids of its tiles.
    pub closed spec fn walls(&self) -> Seq<Seq<u8>> {
        Seq::new(self.bipai_list@.len(), |i: int| self.bipai_list@[i]@)
    }

    /// The configuration that the walls must fit.
    pub closed spec fn config_spec(&self) -> HongbaopaiConfig {
        self.config
    }

    /// Makes a provider of the given walls for the given configuration.
    pub fn new(bipai_list: Vec<Vec<u8>>, config: HongbaopaiConfig) -> (r: Self)
        ensures
            r.walls() == Seq::new(bipai_list@.len(), |i: int| bipai_list@[i]@),
            r.config_spec() == config,
    {
        let mut list: VecDeque<Vec<u8>> = VecDeque::new();
        let mut bipai_list = bipai_list;
        let ghost all = Seq::new(bipai_list@.len(), |i: int| bipai_list@[i]@);
        let n: usize = bipai_list.len();
        let mut i: usize = 0;
        // The walls are taken from the end, so the list is filled from its front.
        while i < n
            invariant
                0 <= i <= n,
                n == all.len(),
                bipai_list@.len() == n - i,
                forall|k: int| 0 <= k < n - i ==> (#[trigger] bipai_list@[k])@ == all[k],
                list@.len() == i,
                forall|k: int| 0 <= k < i ==> (#[trigger] list@[k])@ == all[n - i + k],
            decreases n - i,
        {
            let ghost before = list@;
            match bipai_list.pop() {
                Some(wall) => {
                    list.push_front(wall);
                    proof {
                        assert forall|k: int| 0 <= k < i + 1 implies (#[trigger] list@[k])@
                            == all[n - (i + 1) + k] by {
                            if k > 0 {
                                assert(list@[k] == before[k - 1]);
                            }
                        }
                    }
                },
                None => {},
            }
            i = i + 1;
        }
        let r = Self { bipai_list: list, config };
        proof {
            assert(r.walls() =~= all);
        }
        r
    }

    /// Hands out the next wall.
    pub fn provide_bipai(&mut self) -> (r: Result<Bipai4p, FixedBipaiProviderError>)
        ensures
            final(self).config_spec() == old(self).config_spec(),
            old(self).walls().len() == 0 ==> r == Err::<Bipai4p, FixedBipaiProviderError>(
                FixedBipaiProviderError::Empty,
            ) && final(self).walls() == old(self).walls(),
            old(self).walls().len() > 0 ==> final(self).walls() == old(self).walls().drop_first()
                && match from_slice_error(old(self).walls()[0], old(self).config_spec()) {
                Some(e) => r == Err::<Bipai4p, FixedBipaiProviderError>(
                    FixedBipaiProviderError::Bipai(e),
                ),
                None => r matches Ok(wall) && wall.is_fresh() && ids_of(wall.tiles_spec()) == old(
                    self,
                ).walls()[0],
            },
    {
        let ghost before = self.bipai_list@;
        let bipai: Vec<u8> = match self.bipai_list.pop_front() {
            Some(bipai) => bipai,
            None => {
                return Err(FixedBipaiProviderError::Empty);
            },
        };
        proof {
            assert(self.walls() =~= old(self).walls().drop_first());
        }
        match Bipai4p::from_slice(bipai.as_slice(), &self.config) {
            Ok(wall) => Ok(wall),
            Err(e) => Err(FixedBipaiProviderError::Bipai(e)),
        }
    }
}

} // verus!

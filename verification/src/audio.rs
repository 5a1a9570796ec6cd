//! The sounds of the menus.

use crate::main_menu::Interaction;
use vstd::prelude::*;

verus! {

/// Whether the pointer has come over a button.
pub open spec fn is_hovered(interaction: Interaction) -> bool {
    interaction == Interaction::Hovered
}

/// How often the hover sound is to be played. `interaction` holds the
/// interactions that changed, of buttons: the sound is played once for each
/// button that the pointer has come over.
pub fn button_sounds(interaction: &Vec<Interaction>) -> (plays: usize)
    ensures
        plays == interaction@.filter(|pointer: Interaction| is_hovered(pointer)).len(),
{
    let mut plays: usize = 0;
    let mut i: usize = 0;
    while i < interaction.len()
        invariant
            i <= interaction@.len(),
            plays <= i,
            plays == interaction@.take(i as int).filter(
                |pointer: Interaction| is_hovered(pointer),
            ).len(),
        decreases interaction@.len() - i,
    {
        proof {
            reveal(Seq::filter);
            assert(interaction@.take(i + 1).drop_last() == interaction@.take(i as int));
        }
        if let Interaction::Hovered = interaction[i] {
            plays += 1;
        }
        i += 1;
    }
    proof {
        assert(interaction@.take(i as int) == interaction@);
    }
    plays
}

} // verus!

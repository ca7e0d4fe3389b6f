//! What the configured activation heights decide.

use crate::network::{
    check_block_template_supported, ConfiguredActivationHeights, Height, NetworkUpgrade,
    UnsupportedBlockTemplate,
};
use vstd::prelude::*;

verus! {

/// The height that is configured under the name of an upgrade. Genesis comes first, at zero.
pub open spec fn configured(
    heights: ConfiguredActivationHeights,
    upgrade: NetworkUpgrade,
) -> Option<u32> {
    match upgrade {
        NetworkUpgrade::Genesis => Some(0u32),
        NetworkUpgrade::BeforeOverwinter => heights.before_overwinter,
        NetworkUpgrade::Overwinter => heights.overwinter,
        NetworkUpgrade::Sapling => heights.sapling,
        NetworkUpgrade::Blossom => heights.blossom,
        NetworkUpgrade::Heartwood => heights.heartwood,
        NetworkUpgrade::Canopy => heights.canopy,
        NetworkUpgrade::Nu5 => heights.nu5,
        NetworkUpgrade::Nu6 => heights.nu6,
        NetworkUpgrade::Nu6_1 => heights.nu6_1,
        NetworkUpgrade::Nu7 => heights.nu7,
    }
}

/// The upgrades in the order in which they activate.
pub open spec fn upgrades() -> Seq<NetworkUpgrade> {
    seq![
        NetworkUpgrade::Genesis,
        NetworkUpgrade::BeforeOverwinter,
        NetworkUpgrade::Overwinter,
        NetworkUpgrade::Sapling,
        NetworkUpgrade::Blossom,
        NetworkUpgrade::Heartwood,
        NetworkUpgrade::Canopy,
        NetworkUpgrade::Nu5,
        NetworkUpgrade::Nu6,
        NetworkUpgrade::Nu6_1,
        NetworkUpgrade::Nu7,
    ]
}

/// Where Canopy has a height of its own, a template can be made exactly from there on, whatever
/// else is configured. A refusal names the height that was asked for.
pub proof fn law_templates_start_at_canopys_own_height(
    heights: ConfiguredActivationHeights,
    height: Height,
    checked: Result<(), UnsupportedBlockTemplate>,
    canopy: u32,
)
    requires
        call_ensures(check_block_template_supported, (&heights, height), checked),
        heights.canopy == Some(canopy),
    ensures
        checked is Ok <==> canopy <= height.0,
        checked matches Err(refusal) ==> refusal.height == height,
{
}

/// Where Canopy has no height of its own, templates start with the first later upgrade that has
/// one, and there are none where no later upgrade has one.
pub proof fn law_templates_start_with_a_later_upgrade(
    heights: ConfiguredActivationHeights,
    height: Height,
    checked: Result<(), UnsupportedBlockTemplate>,
)
    requires
        call_ensures(check_block_template_supported, (&heights, height), checked),
        heights.canopy is None,
    ensures
        checked is Ok <==> {
            match (heights.nu5, heights.nu6, heights.nu6_1, heights.nu7) {
                (Some(first), _, _, _) => first <= height.0,
                (None, Some(first), _, _) => first <= height.0,
                (None, None, Some(first), _) => first <= height.0,
                (None, None, None, Some(first)) => first <= height.0,
                (None, None, None, None) => false,
            }
        },
        checked matches Err(refusal) ==> refusal.height == height,
{
    reveal_with_fuel(ConfiguredActivationHeights::height_of, 6);
}

/// An upgrade activates at the height under its own name, and otherwise together with the next
/// one.
pub proof fn law_upgrades_activate_at_their_own_height(
    heights: ConfiguredActivationHeights,
    i: int,
    own: Option<Height>,
    next: Option<Height>,
)
    requires
        0 <= i < 11,
        call_ensures(NetworkUpgrade::activation_height, (upgrades()[i], &heights), own),
        i < 10 ==> call_ensures(
            NetworkUpgrade::activation_height,
            (upgrades()[i + 1], &heights),
            next,
        ),
    ensures
        configured(heights, upgrades()[i]) matches Some(height) ==> own == Some(Height(height)),
        configured(heights, upgrades()[i]) is None ==> own == if i < 10 {
            next
        } else {
            None
        },
{
}

/// The upgrade at a height is one that has been reached by the height under its own name, and no
/// later one has.
pub proof fn law_current_upgrade_is_the_latest_reached(
    heights: ConfiguredActivationHeights,
    height: Height,
    upgrade: NetworkUpgrade,
    i: int,
)
    requires
        call_ensures(NetworkUpgrade::current, (&heights, height), upgrade),
        0 <= i < 11,
        upgrades()[i] == upgrade,
    ensures
        configured(heights, upgrade) matches Some(own) && own <= height.0,
        forall|later: int|
            i < later < 11 ==> !(configured(heights, #[trigger] upgrades()[later]) matches Some(own)
                && own <= height.0),
{
    assert forall|later: int| i < later < 11 implies !(configured(
        heights,
        #[trigger] upgrades()[later],
    ) matches Some(own) && own <= height.0) by {
        assert(upgrades()[later] == upgrades()[later]);
    }
}

/// The upgrades follow each other in order, and nothing follows the last one.
pub proof fn law_upgrades_follow_each_other(i: int, next: Option<NetworkUpgrade>)
    requires
        0 <= i < 11,
        call_ensures(NetworkUpgrade::next_upgrade, (upgrades()[i],), next),
    ensures
        next == if i < 10 {
            Some(upgrades()[i + 1])
        } else {
            None
        },
{
}

/// The name of an upgrade is the one that it goes by.
pub proof fn law_upgrades_have_their_names(upgrade: NetworkUpgrade, name: &'static str)
    requires
        call_ensures(NetworkUpgrade::name, (upgrade,), name),
    ensures
        upgrade is Genesis <==> name@ == "Genesis"@,
        upgrade is BeforeOverwinter <==> name@ == "BeforeOverwinter"@,
        upgrade is Overwinter <==> name@ == "Overwinter"@,
        upgrade is Sapling <==> name@ == "Sapling"@,
        upgrade is Blossom <==> name@ == "Blossom"@,
        upgrade is Heartwood <==> name@ == "Heartwood"@,
        upgrade is Canopy <==> name@ == "Canopy"@,
        upgrade is Nu5 <==> name@ == "Nu5"@,
        upgrade is Nu6 <==> name@ == "Nu6"@,
        upgrade is Nu6_1 <==> name@ == "Nu6_1"@,
        upgrade is Nu7 <==> name@ == "Nu7"@,
{
    reveal_strlit("Genesis");
    reveal_strlit("BeforeOverwinter");
    reveal_strlit("Overwinter");
    reveal_strlit("Sapling");
    reveal_strlit("Blossom");
    reveal_strlit("Heartwood");
    reveal_strlit("Canopy");
    reveal_strlit("Nu5");
    reveal_strlit("Nu6");
    reveal_strlit("Nu6_1");
    reveal_strlit("Nu7");
    assert("Genesis"@[0] == 'G' && "BeforeOverwinter"@[0] == 'B' && "Overwinter"@[0] == 'O'
        && "Sapling"@[0] == 'S' && "Blossom"@[1] == 'l' && "BeforeOverwinter"@[1] == 'e');
    assert("Heartwood"@[0] == 'H' && "Canopy"@[0] == 'C' && "Nu5"@[0] == 'N' && "Nu6"@[0] == 'N'
        && "Nu6_1"@[0] == 'N' && "Nu7"@[0] == 'N' && "Blossom"@[0] == 'B');
    assert("Nu5"@[2] == '5' && "Nu6"@[2] == '6' && "Nu7"@[2] == '7' && "Nu6_1"@.len() == 5);
}

}

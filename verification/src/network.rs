//! Network upgrades, their configured activation heights, and the rules that depend on them.

use vstd::prelude::*;

verus! {

/// A block height.
#[derive(Clone, Copy, Debug, PartialEq, Eq, Structural)]
pub struct Height(pub u32);

/// A Zcash network upgrade, in activation order.
#[derive(Clone, Copy, Debug, PartialEq, Eq, Structural)]
pub enum NetworkUpgrade {
    Genesis,
    BeforeOverwinter,
    Overwinter,
    Sapling,
    Blossom,
    Heartwood,
    Canopy,
    Nu5,
    Nu6,
    Nu6_1,
    Nu7,
}

/// The kind of network that an address belongs to.
#[derive(Clone, Copy, Debug, PartialEq, Eq, Structural)]
pub enum NetworkKind {
    Mainnet,
    Testnet,
    Regtest,
}

/// The heights at which the upgrades of a test network activate.
///
/// An upgrade without a height of its own activates together with the next one that has one.
#[derive(Clone, Copy, Debug, PartialEq, Eq)]
pub struct ConfiguredActivationHeights {
    pub before_overwinter: Option<u32>,
    pub overwinter: Option<u32>,
    pub sapling: Option<u32>,
    pub blossom: Option<u32>,
    pub heartwood: Option<u32>,
    pub canopy: Option<u32>,
    pub nu5: Option<u32>,
    pub nu6: Option<u32>,
    pub nu6_1: Option<u32>,
    pub nu7: Option<u32>,
}

/// Heights that configure no upgrade.
pub open spec fn no_activation_heights() -> ConfiguredActivationHeights {
    ConfiguredActivationHeights {
        before_overwinter: None,
        overwinter: None,
        sapling: None,
        blossom: None,
        heartwood: None,
        canopy: None,
        nu5: None,
        nu6: None,
        nu6_1: None,
        nu7: None,
    }
}

impl Default for ConfiguredActivationHeights {
    fn default() -> (heights: Self)
        ensures
            heights == no_activation_heights(),
    {
        ConfiguredActivationHeights {
            before_overwinter: None,
            overwinter: None,
            sapling: None,
            blossom: None,
            heartwood: None,
            canopy: None,
            nu5: None,
            nu6: None,
            nu6_1: None,
            nu7: None,
        }
    }
}

/// The number of upgrades before `upgrade` in activation order.
pub open spec fn rank(upgrade: NetworkUpgrade) -> nat {
    match upgrade {
        NetworkUpgrade::Genesis => 0,
        NetworkUpgrade::BeforeOverwinter => 1,
        NetworkUpgrade::Overwinter => 2,
        NetworkUpgrade::Sapling => 3,
        NetworkUpgrade::Blossom => 4,
        NetworkUpgrade::Heartwood => 5,
        NetworkUpgrade::Canopy => 6,
        NetworkUpgrade::Nu5 => 7,
        NetworkUpgrade::Nu6 => 8,
        NetworkUpgrade::Nu6_1 => 9,
        NetworkUpgrade::Nu7 => 10,
    }
}

/// The upgrade right after `upgrade`, if there is one.
pub open spec fn successor(upgrade: NetworkUpgrade) -> Option<NetworkUpgrade> {
    match upgrade {
        NetworkUpgrade::Genesis => Some(NetworkUpgrade::BeforeOverwinter),
        NetworkUpgrade::BeforeOverwinter => Some(NetworkUpgrade::Overwinter),
        NetworkUpgrade::Overwinter => Some(NetworkUpgrade::Sapling),
        NetworkUpgrade::Sapling => Some(NetworkUpgrade::Blossom),
        NetworkUpgrade::Blossom => Some(NetworkUpgrade::Heartwood),
        NetworkUpgrade::Heartwood => Some(NetworkUpgrade::Canopy),
        NetworkUpgrade::Canopy => Some(NetworkUpgrade::Nu5),
        NetworkUpgrade::Nu5 => Some(NetworkUpgrade::Nu6),
        NetworkUpgrade::Nu6 => Some(NetworkUpgrade::Nu6_1),
        NetworkUpgrade::Nu6_1 => Some(NetworkUpgrade::Nu7),
        NetworkUpgrade::Nu7 => None,
    }
}

impl ConfiguredActivationHeights {
    /// The height that is configured for `upgrade` itself. Genesis is always at height 0.
    pub open spec fn own_height(self, upgrade: NetworkUpgrade) -> Option<u32> {
        match upgrade {
            NetworkUpgrade::Genesis => Some(0u32),
            NetworkUpgrade::BeforeOverwinter => self.before_overwinter,
            NetworkUpgrade::Overwinter => self.overwinter,
            NetworkUpgrade::Sapling => self.sapling,
            NetworkUpgrade::Blossom => self.blossom,
            NetworkUpgrade::Heartwood => self.heartwood,
            NetworkUpgrade::Canopy => self.canopy,
            NetworkUpgrade::Nu5 => self.nu5,
            NetworkUpgrade::Nu6 => self.nu6,
            NetworkUpgrade::Nu6_1 => self.nu6_1,
            NetworkUpgrade::Nu7 => self.nu7,
        }
    }

    /// Whether `upgrade` has a height of its own, and it is at most `height`.
    pub open spec fn reached(self, upgrade: NetworkUpgrade, height: Height) -> bool {
        self.own_height(upgrade) matches Some(own) && own <= height.0
    }

    /// Whether later upgrades have later heights, or the same.
    pub open spec fn in_order(self) -> bool {
        forall|a: NetworkUpgrade, b: NetworkUpgrade|
            rank(a) < rank(b) ==> (#[trigger] self.own_height(a) matches Some(x) ==> (
            #[trigger] self.own_height(b) matches Some(y) ==> x <= y))
    }

    /// The latest upgrade that `height` has reached.
    pub open spec fn upgrade_at(self, height: Height) -> NetworkUpgrade {
        if self.reached(NetworkUpgrade::Nu7, height) {
            NetworkUpgrade::Nu7
        } else if self.reached(NetworkUpgrade::Nu6_1, height) {
            NetworkUpgrade::Nu6_1
        } else if self.reached(NetworkUpgrade::Nu6, height) {
            NetworkUpgrade::Nu6
        } else if self.reached(NetworkUpgrade::Nu5, height) {
            NetworkUpgrade::Nu5
        } else if self.reached(NetworkUpgrade::Canopy, height) {
            NetworkUpgrade::Canopy
        } else if self.reached(NetworkUpgrade::Heartwood, height) {
            NetworkUpgrade::Heartwood
        } else if self.reached(NetworkUpgrade::Blossom, height) {
            NetworkUpgrade::Blossom
        } else if self.reached(NetworkUpgrade::Sapling, height) {
            NetworkUpgrade::Sapling
        } else if self.reached(NetworkUpgrade::Overwinter, height) {
            NetworkUpgrade::Overwinter
        } else if self.reached(NetworkUpgrade::BeforeOverwinter, height) {
            NetworkUpgrade::BeforeOverwinter
        } else {
            NetworkUpgrade::Genesis
        }
    }

    /// The height from which `upgrade` applies: its own, or that of the next upgrade that has
    /// one, or none where no such upgrade has one.
    pub open spec fn height_of(self, upgrade: NetworkUpgrade) -> Option<Height>
        decreases 10 - rank(upgrade),
    {
        match self.own_height(upgrade) {
            Some(own) => Some(Height(own)),
            None => match successor(upgrade) {
                Some(next) => self.height_of(next),
                None => None,
            },
        }
    }

    /// The height that is configured for `upgrade` itself.
    fn own(&self, upgrade: NetworkUpgrade) -> (height: Option<u32>)
        ensures
            height == self.own_height(upgrade),
    {
        match upgrade {
            NetworkUpgrade::Genesis => Some(0),
            NetworkUpgrade::BeforeOverwinter => self.before_overwinter,
            NetworkUpgrade::Overwinter => self.overwinter,
            NetworkUpgrade::Sapling => self.sapling,
            NetworkUpgrade::Blossom => self.blossom,
            NetworkUpgrade::Heartwood => self.heartwood,
            NetworkUpgrade::Canopy => self.canopy,
            NetworkUpgrade::Nu5 => self.nu5,
            NetworkUpgrade::Nu6 => self.nu6,
            NetworkUpgrade::Nu6_1 => self.nu6_1,
            NetworkUpgrade::Nu7 => self.nu7,
        }
    }
}

impl NetworkUpgrade {
    /// The upgrade right after this one, if there is one.
    pub fn next_upgrade(self) -> (next: Option<NetworkUpgrade>)
        ensures
            next == successor(self),
    {
        match self {
            NetworkUpgrade::Genesis => Some(NetworkUpgrade::BeforeOverwinter),
            NetworkUpgrade::BeforeOverwinter => Some(NetworkUpgrade::Overwinter),
            NetworkUpgrade::Overwinter => Some(NetworkUpgrade::Sapling),
            NetworkUpgrade::Sapling => Some(NetworkUpgrade::Blossom),
            NetworkUpgrade::Blossom => Some(NetworkUpgrade::Heartwood),
            NetworkUpgrade::Heartwood => Some(NetworkUpgrade::Canopy),
            NetworkUpgrade::Canopy => Some(NetworkUpgrade::Nu5),
            NetworkUpgrade::Nu5 => Some(NetworkUpgrade::Nu6),
            NetworkUpgrade::Nu6 => Some(NetworkUpgrade::Nu6_1),
            NetworkUpgrade::Nu6_1 => Some(NetworkUpgrade::Nu7),
            NetworkUpgrade::Nu7 => None,
        }
    }

    /// The upgrade that applies at `height`.
    pub fn current(heights: &ConfiguredActivationHeights, height: Height) -> (upgrade: NetworkUpgrade)
        ensures
            upgrade == heights.upgrade_at(height),
    {
        let mut latest = NetworkUpgrade::Genesis;
        let mut last_seen = NetworkUpgrade::Genesis;
        loop
            invariant
                heights.reached(latest, height),
                rank(latest) <= rank(last_seen),
                forall|u: NetworkUpgrade|
                    rank(latest) < rank(u) <= rank(last_seen) ==> !#[trigger] heights.reached(
                        u,
                        height,
                    ),
            decreases 10 - rank(last_seen),
        {
            match last_seen.next_upgrade() {
                Some(upgrade) => {
                    if let Some(own) = heights.own(upgrade) {
                        if own <= height.0 {
                            latest = upgrade;
                        }
                    }
                    last_seen = upgrade;
                },
                None => {
                    return latest;
                },
            }
        }
    }

    /// The height from which this upgrade applies, if there is one.
    pub fn activation_height(self, heights: &ConfiguredActivationHeights) -> (height: Option<Height>)
        ensures
            height == heights.height_of(self),
        decreases 10 - rank(self),
    {
        match heights.own(self) {
            Some(own) => Some(Height(own)),
            None => match self.next_upgrade() {
                Some(next) => next.activation_height(heights),
                None => None,
            },
        }
    }

    /// The name of this upgrade.
    pub fn name(self) -> (text: &'static str)
        ensures
            text@ == upgrade_name(self),
    {
        match self {
            NetworkUpgrade::Genesis => "Genesis",
            NetworkUpgrade::BeforeOverwinter => "BeforeOverwinter",
            NetworkUpgrade::Overwinter => "Overwinter",
            NetworkUpgrade::Sapling => "Sapling",
            NetworkUpgrade::Blossom => "Blossom",
            NetworkUpgrade::Heartwood => "Heartwood",
            NetworkUpgrade::Canopy => "Canopy",
            NetworkUpgrade::Nu5 => "Nu5",
            NetworkUpgrade::Nu6 => "Nu6",
            NetworkUpgrade::Nu6_1 => "Nu6_1",
            NetworkUpgrade::Nu7 => "Nu7",
        }
    }
}

/// The name of `upgrade`.
pub open spec fn upgrade_name(upgrade: NetworkUpgrade) -> Seq<char> {
    match upgrade {
        NetworkUpgrade::Genesis => "Genesis"@,
        NetworkUpgrade::BeforeOverwinter => "BeforeOverwinter"@,
        NetworkUpgrade::Overwinter => "Overwinter"@,
        NetworkUpgrade::Sapling => "Sapling"@,
        NetworkUpgrade::Blossom => "Blossom"@,
        NetworkUpgrade::Heartwood => "Heartwood"@,
        NetworkUpgrade::Canopy => "Canopy"@,
        NetworkUpgrade::Nu5 => "Nu5"@,
        NetworkUpgrade::Nu6 => "Nu6"@,
        NetworkUpgrade::Nu6_1 => "Nu6_1"@,
        NetworkUpgrade::Nu7 => "Nu7"@,
    }
}

/// A block template was asked for at a height before Canopy.
#[derive(Clone, Copy, Debug, PartialEq, Eq, Structural)]
pub struct UnsupportedBlockTemplate {
    /// The height of the block that the template was for.
    pub height: Height,
}

impl UnsupportedBlockTemplate {
    /// What went wrong, in words.
    pub fn message(&self) -> (text: String)
        ensures
            text@ == "block templates are supported from Canopy activation onward"@,
    {
        "block templates are supported from Canopy activation onward".to_owned()
    }
}

/// Checks that a block template can be made for the block at `height`: only from Canopy
/// activation onward.
pub fn check_block_template_supported(
    heights: &ConfiguredActivationHeights,
    height: Height,
) -> (checked: Result<(), UnsupportedBlockTemplate>)
    ensures
        match heights.height_of(NetworkUpgrade::Canopy) {
            Some(canopy) if canopy.0 <= height.0 => checked is Ok,
            _ => checked == Err::<(), UnsupportedBlockTemplate>(
                (UnsupportedBlockTemplate { height }),
            ),
        },
{
    match NetworkUpgrade::Canopy.activation_height(heights) {
        Some(canopy) if canopy.0 <= height.0 => Ok(()),
        _ => Err(UnsupportedBlockTemplate { height }),
    }
}

proof fn lemma_height_of(heights: ConfiguredActivationHeights, upgrade: NetworkUpgrade)
    ensures
        match heights.height_of(upgrade) {
            Some(height) => exists|u: NetworkUpgrade|
                rank(upgrade) <= rank(u) && #[trigger] heights.own_height(u) == Some(height.0)
                    && forall|v: NetworkUpgrade|
                    rank(upgrade) <= rank(v) < rank(u) ==> #[trigger] heights.own_height(v) is None,
            None => forall|u: NetworkUpgrade|
                rank(upgrade) <= rank(u) ==> #[trigger] heights.own_height(u) is None,
        },
    decreases 10 - rank(upgrade),
{
    if heights.own_height(upgrade) is None {
        if let Some(next) = successor(upgrade) {
            lemma_height_of(heights, next);
        }
    }
}

/// The upgrade at a height is the latest of those that the height has reached.
pub proof fn law_current_upgrade_is_the_latest(
    heights: ConfiguredActivationHeights,
    height: Height,
    upgrade: NetworkUpgrade,
)
    ensures
        heights.reached(heights.upgrade_at(height), height),
        heights.reached(upgrade, height) ==> rank(upgrade) <= rank(heights.upgrade_at(height)),
{
}

/// As a chain grows, its upgrade never falls back to an earlier one.
pub proof fn law_upgrades_only_advance(
    heights: ConfiguredActivationHeights,
    lower: Height,
    higher: Height,
)
    requires
        lower.0 <= higher.0,
    ensures
        rank(heights.upgrade_at(lower)) <= rank(heights.upgrade_at(higher)),
{
}

/// From its activation height on, and not before, an upgrade or a later one applies, where
/// the heights are in order.
pub proof fn law_upgrade_applies_from_its_activation_height(
    heights: ConfiguredActivationHeights,
    upgrade: NetworkUpgrade,
    height: Height,
)
    requires
        heights.in_order(),
    ensures
        (heights.height_of(upgrade) matches Some(first) && first.0 <= height.0) <==> rank(upgrade)
            <= rank(heights.upgrade_at(height)),
{
    lemma_height_of(heights, upgrade);
}

/// A block template can be made exactly at the heights where Canopy or a later upgrade
/// applies, where the heights are in order.
pub proof fn law_templates_from_canopy_on(heights: ConfiguredActivationHeights, height: Height)
    requires
        heights.in_order(),
    ensures
        (heights.height_of(NetworkUpgrade::Canopy) matches Some(canopy) && canopy.0 <= height.0)
            <==> rank(NetworkUpgrade::Canopy) <= rank(heights.upgrade_at(height)),
{
    law_upgrade_applies_from_its_activation_height(heights, NetworkUpgrade::Canopy, height);
}

}

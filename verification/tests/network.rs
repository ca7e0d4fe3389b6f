//! Tests for network upgrades and block templates.

use zebra_devkit::network::{
    check_block_template_supported, ConfiguredActivationHeights, Height, NetworkUpgrade,
};

#[test]
fn block_template_before_canopy_returns_error() {
    let network = ConfiguredActivationHeights {
        overwinter: Some(5),
        nu7: Some(5),
        ..Default::default()
    };

    let error = check_block_template_supported(&network, Height(4))
        .expect_err("pre-Canopy getblocktemplate should be rejected");

    assert!(
        error.message().contains("from Canopy activation onward"),
        "unexpected error message: {error:?}"
    );
    assert!(check_block_template_supported(&network, Height(5)).is_ok());
}

#[test]
fn block_templates_need_an_activation() {
    let heights = ConfiguredActivationHeights::default();
    let error = check_block_template_supported(&heights, Height(u32::MAX)).unwrap_err();
    assert_eq!(error.height, Height(u32::MAX));

    let before = ConfiguredActivationHeights { heartwood: Some(1), ..Default::default() };
    assert!(check_block_template_supported(&before, Height(9)).is_err());
    let canopy = ConfiguredActivationHeights { canopy: Some(9), ..before };
    assert!(check_block_template_supported(&canopy, Height(8)).is_err());
    assert!(check_block_template_supported(&canopy, Height(9)).is_ok());
}

#[test]
fn upgrades_follow_their_heights() {
    let heights = ConfiguredActivationHeights {
        overwinter: Some(2),
        sapling: Some(4),
        nu5: Some(6),
        ..Default::default()
    };
    let at = |height: u32| NetworkUpgrade::current(&heights, Height(height));
    assert_eq!(at(0), NetworkUpgrade::Genesis);
    assert_eq!(at(1), NetworkUpgrade::Genesis);
    assert_eq!(at(2), NetworkUpgrade::Overwinter);
    assert_eq!(at(3), NetworkUpgrade::Overwinter);
    assert_eq!(at(5), NetworkUpgrade::Sapling);
    assert_eq!(at(6), NetworkUpgrade::Nu5);
    assert_eq!(at(u32::MAX), NetworkUpgrade::Nu5);

    assert_eq!(NetworkUpgrade::Genesis.activation_height(&heights), Some(Height(0)));
    assert_eq!(NetworkUpgrade::BeforeOverwinter.activation_height(&heights), Some(Height(2)));
    assert_eq!(NetworkUpgrade::Blossom.activation_height(&heights), Some(Height(6)));
    assert_eq!(NetworkUpgrade::Nu6.activation_height(&heights), None);
    assert_eq!(NetworkUpgrade::Nu7.next_upgrade(), None);
    assert_eq!(NetworkUpgrade::Nu6_1.name(), "Nu6_1");
}

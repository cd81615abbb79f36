use ep_rs::coils::{DefrostControl, FrostControlType, HXType, HeatExchangerType};
use ep_rs::daylighting::{LightingControlType, SkyType};
use ep_rs::fans::FanOperatingMode;

#[test]
fn enum_defaults() {
    assert_eq!(DefrostControl::default(), DefrostControl::NoDefrost);
    assert_eq!(FrostControlType::default(), FrostControlType::NoFrostControl);
    assert_eq!(HXType::default(), HXType::Plate);
    assert_eq!(HeatExchangerType::default(), HeatExchangerType::CounterFlow);
    assert_eq!(LightingControlType::default(), LightingControlType::Continuous);
    assert_eq!(FanOperatingMode::default(), FanOperatingMode::Continuous);
}

#[test]
fn sky_types_index_in_declaration_order() {
    assert_eq!(SkyType::Clear as usize, 0);
    assert_eq!(SkyType::ClearTurbid as usize, 1);
    assert_eq!(SkyType::Intermediate as usize, 2);
    assert_eq!(SkyType::Overcast as usize, 3);
}

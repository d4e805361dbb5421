use steel_recipes::fuel_values::vanilla_fuel_values;
use steel_recipes::items::{COAL, CRIMSON_PLANKS, STICK};

#[test]
fn vanilla_fuels_respect_specific_values_and_non_flammable_wood_removal() {
    let fuels = vanilla_fuel_values();

    assert_eq!(fuels.burn_duration(COAL), 1600);
    assert_eq!(fuels.burn_duration(STICK), 100);
    assert_eq!(fuels.burn_duration(CRIMSON_PLANKS), 0);
}

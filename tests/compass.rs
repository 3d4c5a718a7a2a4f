use weather_data::{wind_direction_name, Decimal};

fn dec(mantissa: i64, scale: u32) -> Decimal {
    Decimal { mantissa, scale }
}

#[test]
fn compass_zero_is_north() {
    assert_eq!(wind_direction_name(dec(0, 0)), "N");
}

#[test]
fn compass_just_below_first_boundary_is_north() {
    assert_eq!(wind_direction_name(dec(112, 1)), "N");
}

#[test]
fn compass_just_above_first_boundary_is_nne() {
    assert_eq!(wind_direction_name(dec(113, 1)), "NNE");
}

#[test]
fn compass_boundary_itself_starts_next_sector() {
    assert_eq!(wind_direction_name(dec(1125, 2)), "NNE");
}

#[test]
fn compass_wraps_around_north() {
    assert_eq!(wind_direction_name(dec(349, 0)), "N");
    assert_eq!(wind_direction_name(dec(360, 0)), "N");
    assert_eq!(wind_direction_name(dec(34875, 2)), "N");
}

#[test]
fn compass_east_south_west() {
    assert_eq!(wind_direction_name(dec(90, 0)), "E");
    assert_eq!(wind_direction_name(dec(180, 0)), "S");
    assert_eq!(wind_direction_name(dec(270, 0)), "W");
    assert_eq!(wind_direction_name(dec(225, 0)), "SW");
}

#[test]
fn compass_negative_headings_normalise() {
    assert_eq!(wind_direction_name(dec(-90, 0)), "W");
    assert_eq!(wind_direction_name(dec(-1, 0)), "N");
    assert_eq!(wind_direction_name(dec(-450, 0)), "W");
}

use ipqs_db_reader::file_reader::record::{abuse_velocity, connection_type};

#[test]
fn ct_zero() {
    let c123: u8 = 0b1100_0000;
    let connection_type = connection_type(c123);
    assert_eq!(connection_type, "Unknown");
}

#[test]
fn ct_three() {
    // 001
    let c123: u8 = 0b1110_0000;
    let connection_type = connection_type(c123);
    assert_eq!(connection_type, "Residential");
}

#[test]
fn ct_two() {
    // 010
    let c123: u8 = 0b1101_0000;
    let connection_type = connection_type(c123);
    assert_eq!(connection_type, "Mobile");
}

#[test]
fn ct_two_and_three() {
    // 011
    let c123: u8 = 0b1111_0000;
    println!("{}", c123);
    let connection_type = connection_type(c123);
    assert_eq!(connection_type, "Corporate");
}

#[test]
fn ct_one() {
    // 100
    let c123: u8 = 0b1100_1000;
    let connection_type = connection_type(c123);
    assert_eq!(connection_type, "Data Center");
}

#[test]
fn ct_one_and_three() {
    // 101
    let c123: u8 = 0b1110_1000;
    let connection_type = connection_type(c123);
    assert_eq!(connection_type, "Education");
}

#[test]
fn ab_0() {
    let ab: u8 = 0b0011_1000;
    let abuse_velocity = abuse_velocity(ab);
    assert_eq!(abuse_velocity, "none");
}

#[test]
fn ab_one() {
    // 10
    let ab: u8 = 0b0111_1000;
    let abuse_velocity = abuse_velocity(ab);
    assert_eq!(abuse_velocity, "medium");
}

#[test]
fn ab_two() {
    // 01
    let ab: u8 = 0b1011_1000;
    let abuse_velocity = abuse_velocity(ab);
    assert_eq!(abuse_velocity, "low");
}

#[test]
fn ab_one_and_two() {
    // 11
    let ab: u8 = 0b1111_1000;
    let abuse_velocity = abuse_velocity(ab);
    assert_eq!(abuse_velocity, "high");
}

#[test]
fn connection_type_ignores_other_bits() {
    assert_eq!(connection_type(0b0000_0111 | 0b0011_0000), "Corporate");
    assert_eq!(connection_type(0b0011_1000), "Unknown");
    assert_eq!(connection_type(0), "Unknown");
}

#[test]
fn abuse_velocity_ignores_other_bits() {
    assert_eq!(abuse_velocity(0b0100_0000), "medium");
    assert_eq!(abuse_velocity(0b1000_0000), "low");
    assert_eq!(abuse_velocity(0b1100_0000), "high");
    assert_eq!(abuse_velocity(0b0011_1111), "none");
}

#[test]
fn binary_option_has() {
    let option = ipqs_db_reader::binary_option::BinaryOption { data: 0b1010_0001 };
    assert!(option.has(0x01));
    assert!(!option.has(0x02));
    assert!(option.has(0x80 | 0x02));
    assert!(!option.has(0));
}

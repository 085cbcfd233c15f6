use ipqs_db_reader::address::{Address, AddressBits};

fn address_from_u32(bits: u32) -> AddressBits {
    AddressBits::from_address(&Address::V4(bits))
}

#[test]
fn test_address_bits_position() {
    let ip = address_from_u32(0b00000000_00000000_00000000_00000000);
    for i in 0..32 {
        assert!(!ip.position(i), "position = {i}");
    }

    let ip = address_from_u32(0b11111111_11111111_11111111_11111111);
    for i in 0..32 {
        assert!(ip.position(i), "position = {i}");
    }

    let ip = address_from_u32(0b10000000_00000000_00000000_00000000);
    assert!(ip.position(0), "position = 0");
    for i in 1..32 {
        assert!(!ip.position(i), "position = {i}");
    }

    let ip = address_from_u32(0b00000000_00000000_00000000_00000001);
    for i in 0..31 {
        assert!(!ip.position(i), "position = {i}");
    }
    assert!(ip.position(31), "position = 31");
}

#[test]
fn test_address_try_backtrack() {
    let mut ip = address_from_u32(0b10000000_00000000_10000000_00000000);
    let expected = address_from_u32(0b10000000_00000000_01111111_11111111);
    let new_position = ip.try_backtrack(31);
    assert_eq!(ip, expected);
    assert_eq!(new_position, Some(16));

    let mut ip = address_from_u32(0b10000000_00000000_10000000_00000000);
    let expected = address_from_u32(0b10000000_00000000_01111111_11111111);
    let new_position = ip.try_backtrack(16);
    assert_eq!(ip, expected);
    assert_eq!(new_position, Some(16));

    let mut ip = address_from_u32(0b10000000_00000000_10000000_00000000);
    let expected = address_from_u32(0b01111111_11111111_11111111_11111111);
    let new_position = ip.try_backtrack(15);
    assert_eq!(ip, expected);
    assert_eq!(new_position, Some(0));

    let mut ip = address_from_u32(0b00000000_00000000_00000000_00000000);
    let expected = address_from_u32(0b00000000_00000000_00000000_00000000);
    let new_position = ip.try_backtrack(31);
    assert_eq!(ip, expected);
    assert_eq!(new_position, None);
}

#[test]
fn backtrack_to_first_bit_of_ipv6() {
    let mut ip = AddressBits::from_address(&Address::V6(1u128 << 127));
    assert_eq!(ip.try_backtrack(127), Some(0));
    assert_eq!(ip, AddressBits::from_address(&Address::V6(u128::MAX >> 1)));
}

#[test]
fn set_branch_and_find_previous_one() {
    let mut ip = address_from_u32(0b0100_0000_0000_0000_0000_0000_0000_0000);
    assert_eq!(ip.find_previous_one(0), None);
    assert_eq!(ip.find_previous_one(5), Some(1));
    ip.set_branch(1);
    assert_eq!(ip, address_from_u32(0b0011_1111_1111_1111_1111_1111_1111_1111));
    assert_eq!(ip.bit(31), 1);
    assert_eq!(ip.bit(0), 1 << 31);
}

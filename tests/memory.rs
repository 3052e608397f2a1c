use rust8::memory::{Memory, MEM_SIZE};

#[test]
fn retrieve_value_from_address_success() {
    let under_test = create_test_memory(0x200);

    let result = under_test.retrieve_value_from_address(0x201);

    assert!(result == 0x1);
}

#[test]
fn retrieve_range_begin() {
    let under_test = create_test_memory(0x0);

    let result = under_test.retrieve_range(0x0, 4);

    assert!(result.len() == 4);
    assert!(result[0] == 0x0);
    assert!(result[1] == 0x1);
    assert!(result[2] == 0x2);
    assert!(result[3] == 0x3);
}

#[test]
fn retrieve_range_end() {
    let under_test = create_test_memory(MEM_SIZE - 17);

    let result = under_test.retrieve_range((MEM_SIZE - 5) as u16, 4);

    println!("{}", result[0]);
    assert!(result.len() == 4);
    assert!(result[0] == 0xC);
    assert!(result[1] == 0xD);
    assert!(result[2] == 0xE);
    assert!(result[3] == 0xF);
}

#[test]
fn store_binary_representation_of_value_zero() {
    let mut under_test = create_test_memory(0x200);

    under_test.store_binary_representation_of_value(0, 0x300);

    let result1 = under_test.retrieve_value_from_address(0x302);
    let result10 = under_test.retrieve_value_from_address(0x301);
    let result100 = under_test.retrieve_value_from_address(0x300);

    assert!(result100 == 0);
    assert!(result10 == 0);
    assert!(result1 == 0);
}

#[test]
fn store_binary_representation_of_value_single_digit() {
    let mut under_test = create_test_memory(0x200);

    under_test.store_binary_representation_of_value(1, 0x300);

    let result1 = under_test.retrieve_value_from_address(0x302);
    let result10 = under_test.retrieve_value_from_address(0x301);
    let result100 = under_test.retrieve_value_from_address(0x300);

    assert!(result100 == 0);
    assert!(result10 == 0);
    assert!(result1 == 1);
}

#[test]
fn store_binary_representation_of_value_double_digit() {
    let mut under_test = create_test_memory(0x200);

    under_test.store_binary_representation_of_value(12, 0x300);

    let result1 = under_test.retrieve_value_from_address(0x302);
    let result10 = under_test.retrieve_value_from_address(0x301);
    let result100 = under_test.retrieve_value_from_address(0x300);

    assert!(result100 == 0);
    assert!(result10 == 1);
    assert!(result1 == 2);
}

#[test]
fn store_binary_representation_of_value_triple_digit() {
    let mut under_test = create_test_memory(0x200);

    under_test.store_binary_representation_of_value(123, 0x300);

    let result1 = under_test.retrieve_value_from_address(0x302);
    let result10 = under_test.retrieve_value_from_address(0x301);
    let result100 = under_test.retrieve_value_from_address(0x300);

    assert!(result100 == 1);
    assert!(result10 == 2);
    assert!(result1 == 3);
}

#[test]
fn store_from_address_on_success() {
    let mut under_test = create_test_memory(0x200);

    under_test.store_from_address_on(&vec![1, 2, 3, 4], 0x300);

    let result0 = under_test.retrieve_value_from_address(0x300);
    let result1 = under_test.retrieve_value_from_address(0x301);
    let result2 = under_test.retrieve_value_from_address(0x302);
    let result3 = under_test.retrieve_value_from_address(0x303);

    assert!(result0 == 1);
    assert!(result1 == 2);
    assert!(result2 == 3);
    assert!(result3 == 4);
}


fn create_test_memory(start: usize) -> Memory {
    Memory::new(start, vec![
        0x0, 0x1, 0x2, 0x3,
        0x4, 0x5, 0x6, 0x7,
        0x8, 0x9, 0xA, 0xB,
        0xC, 0xD, 0xE, 0xF,
    ])
}

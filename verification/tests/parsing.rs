use knapsack_cliff::Item;
use knapsack_cliff::Knapsack;
use knapsack_cliff::KnapsackError;

#[test]
fn parses_a_plain_description() {
    let text = b"5\n2 3\n3 4\n4 5\n".to_vec();
    let k = Knapsack::from_source(&text).unwrap();
    assert_eq!(k.capacity(), 5);
    assert_eq!(k.num_items(), 3);
    assert_eq!(k.item(0), Item::new(2, 3));
    assert_eq!(k.item(1), Item::new(3, 4));
    assert_eq!(k.item(2), Item::new(4, 5));
}

#[test]
fn item_order_follows_the_source_order() {
    let text = b"9\n1 100\n2 200\n3 300\n".to_vec();
    let k = Knapsack::from_source(&text).unwrap();
    assert_eq!(k.item(0).value, 100);
    assert_eq!(k.item(1).value, 200);
    assert_eq!(k.item(2).value, 300);
}

#[test]
fn tolerates_blank_lines_extra_blanks_and_no_final_line_break() {
    let text = b"\n  7 \n\n1 2\n\t3\t4".to_vec();
    let k = Knapsack::from_source(&text).unwrap();
    assert_eq!(k.capacity(), 7);
    assert_eq!(k.num_items(), 2);
    assert_eq!(k.item(1), Item::new(3, 4));
}

#[test]
fn accepts_windows_line_breaks() {
    let text = b"4\r\n1 2\r\n".to_vec();
    let k = Knapsack::from_source(&text).unwrap();
    assert_eq!(k.capacity(), 4);
    assert_eq!(k.num_items(), 1);
}

#[test]
fn zero_capacity_is_allowed() {
    let text = b"0\n1 1\n".to_vec();
    let k = Knapsack::from_source(&text).unwrap();
    assert_eq!(k.capacity(), 0);
}

#[test]
fn rejects_a_byte_that_is_not_part_of_the_format() {
    let text = b"5\n2 x\n".to_vec();
    assert_eq!(Knapsack::from_source(&text).unwrap_err(), KnapsackError::InvalidByte);
}

#[test]
fn rejects_a_numeral_that_exceeds_u64() {
    let text = b"18446744073709551616\n1 1\n".to_vec();
    assert_eq!(Knapsack::from_source(&text).unwrap_err(), KnapsackError::NumberTooLarge);
    let fits = b"18446744073709551615\n1 1\n".to_vec();
    assert_eq!(Knapsack::from_source(&fits).unwrap().capacity(), u64::MAX);
}

#[test]
fn rejects_a_description_with_no_numbers() {
    let text = b"\n \n\n".to_vec();
    assert_eq!(Knapsack::from_source(&text).unwrap_err(), KnapsackError::MissingCapacity);
    assert_eq!(Knapsack::from_source(&Vec::new()).unwrap_err(), KnapsackError::MissingCapacity);
}

#[test]
fn rejects_wrong_field_counts() {
    let two_on_capacity_line = b"5 5\n1 2\n".to_vec();
    assert_eq!(
        Knapsack::from_source(&two_on_capacity_line).unwrap_err(),
        KnapsackError::WrongFieldCount
    );
    let three_on_item_line = b"5\n1 2 3\n".to_vec();
    assert_eq!(
        Knapsack::from_source(&three_on_item_line).unwrap_err(),
        KnapsackError::WrongFieldCount
    );
    let one_on_item_line = b"5\n1\n".to_vec();
    assert_eq!(Knapsack::from_source(&one_on_item_line).unwrap_err(), KnapsackError::WrongFieldCount);
}

#[test]
fn rejects_a_capacity_with_no_items() {
    let text = b"5\n".to_vec();
    assert_eq!(Knapsack::from_source(&text).unwrap_err(), KnapsackError::NoItems);
}

#[test]
fn rejects_totals_that_do_not_fit_u64() {
    let heavy = b"5\n18446744073709551615 1\n1 1\n".to_vec();
    assert_eq!(Knapsack::from_source(&heavy).unwrap_err(), KnapsackError::TotalOverflow);
    let rich = b"5\n1 18446744073709551615\n1 1\n".to_vec();
    assert_eq!(Knapsack::from_source(&rich).unwrap_err(), KnapsackError::TotalOverflow);
}

#[test]
fn building_from_parts_rejects_empty_and_overflowing_collections() {
    assert_eq!(Knapsack::new(Vec::new(), 5).unwrap_err(), KnapsackError::NoItems);
    let overflowing = vec![Item::new(u64::MAX, 1), Item::new(1, 1)];
    assert_eq!(Knapsack::new(overflowing, 5).unwrap_err(), KnapsackError::TotalOverflow);
    let fine = vec![Item::new(1, 2)];
    let k = Knapsack::new(fine, 3).unwrap();
    assert_eq!(k.num_items(), 1);
    assert_eq!(k.capacity(), 3);
}

#[test]
fn clones_are_value_equal() {
    let text = b"5\n2 3\n3 4\n".to_vec();
    let k = Knapsack::from_source(&text).unwrap();
    let c = k.clone();
    assert_eq!(c.capacity(), k.capacity());
    assert_eq!(c.num_items(), k.num_items());
    for i in 0..k.num_items() {
        assert_eq!(c.item(i), k.item(i));
    }
}

use rekordcrate::pdb::bitfields::PackedRowCounts;

#[test]
fn counts_share_three_bytes() {
    let counts = PackedRowCounts::new().with_num_rows(0x1ABC).with_num_rows_valid(0x5DE);
    assert_eq!(counts.num_rows(), 0x1ABC);
    assert_eq!(counts.num_rows_valid(), 0x5DE);
    let packed: u32 = 0x1ABC | (0x5DE << 13);
    assert_eq!(
        counts.into_bytes(),
        [packed as u8, (packed >> 8) as u8, (packed >> 16) as u8]
    );
}

#[test]
fn all_bytes_survive() {
    for bytes in [[0, 0, 0], [255, 255, 255], [1, 2, 3], [0x23, 0x60, 0x04]] {
        let counts = PackedRowCounts::from_bytes(bytes);
        assert_eq!(counts.into_bytes(), bytes);
        let rebuilt = PackedRowCounts::new()
            .with_num_rows(counts.num_rows())
            .with_num_rows_valid(counts.num_rows_valid());
        assert_eq!(rebuilt, counts);
    }
    assert_eq!(PackedRowCounts::from_bytes([0x23, 0x60, 0x04]).num_rows(), 35);
    assert_eq!(PackedRowCounts::from_bytes([0x23, 0x60, 0x04]).num_rows_valid(), 35);
}

#[test]
fn a_fresh_page_has_no_rows() {
    assert_eq!(PackedRowCounts::default(), PackedRowCounts::new());
    assert_eq!(PackedRowCounts::default().into_bytes(), [0, 0, 0]);
    assert_eq!(PackedRowCounts::default().num_row_groups(), 0);
    assert_eq!(PackedRowCounts::default().last_row_index(), None);
}

#[test]
fn rows_fill_groups_of_sixteen() {
    for (rows, groups, last) in [
        (1, 1, (0, 0)),
        (16, 1, (0, 15)),
        (17, 2, (1, 0)),
        (35, 3, (2, 2)),
    ] {
        let counts = PackedRowCounts::from_all_valid(rows);
        assert_eq!(counts.num_rows() as usize, rows);
        assert_eq!(counts.num_rows_valid() as usize, rows);
        assert_eq!(counts.num_row_groups(), groups);
        assert_eq!(counts.last_row_index(), Some(last));
    }
    assert_eq!(PackedRowCounts::new().with_num_rows(8191).num_row_groups(), 512);
}

#[test]
fn adding_a_row_counts_it_twice() {
    let mut counts = PackedRowCounts::new().with_num_rows(20).with_num_rows_valid(18);
    counts.increment_rows();
    assert_eq!(counts.num_rows(), 21);
    assert_eq!(counts.num_rows_valid(), 19);
    counts.set_num_rows(5);
    counts.set_num_rows_valid(4);
    assert_eq!((counts.num_rows(), counts.num_rows_valid()), (5, 4));
}

//! Packed fields used in the pages of the device database.

use vstd::prelude::*;

verus! {

/// The number of rows that one row group of a page describes.
pub const MAX_ROW_COUNT: u16 = 16;

/// The largest number of row offsets that a page header can hold (13 bits).
pub const MAX_NUM_ROWS: u16 = 8191;

/// The largest number of valid rows that a page header can hold (11 bits).
pub const MAX_NUM_ROWS_VALID: u16 = 2047;

/// Packed field of the page header, three bytes in little-endian order:
/// - number of used row offsets in the page (the 13 low bits),
/// - number of valid rows in the page (the 11 high bits).
#[derive(Debug, PartialEq, Eq, Clone, Copy, Structural)]
pub struct PackedRowCounts {
    low: u8,
    middle: u8,
    high: u8,
}

/// The number that three bytes in little-endian order stand for.
pub open spec fn little_endian(bytes: Seq<u8>) -> int {
    bytes[0] + 256 * bytes[1] + 65536 * bytes[2]
}

impl PackedRowCounts {
    /// The three bytes of the field.
    pub closed spec fn bytes(&self) -> Seq<u8> {
        seq![self.low, self.middle, self.high]
    }

    /// The number of used row offsets.
    pub closed spec fn rows(&self) -> int {
        little_endian(self.bytes()) % 8192
    }

    /// The number of valid rows.
    pub closed spec fn valid(&self) -> int {
        little_endian(self.bytes()) / 8192
    }

    /// The field as one number.
    fn word(&self) -> (r: u32)
        ensures
            r == little_endian(self.bytes()),
            r < 0x100_0000,
    {
        self.low as u32 + 256 * self.middle as u32 + 65536 * self.high as u32
    }

    /// The field that holds the given 24-bit number.
    fn from_word(word: u32) -> (r: Self)
        requires
            word < 0x100_0000,
        ensures
            little_endian(r.bytes()) == word,
    {
        PackedRowCounts {
            low: (word % 256) as u8,
            middle: (word / 256 % 256) as u8,
            high: (word / 65536) as u8,
        }
    }

    /// A field with both counts zero.
    pub fn new() -> (r: Self)
        ensures
            r.rows() == 0,
            r.valid() == 0,
    {
        PackedRowCounts { low: 0, middle: 0, high: 0 }
    }

    /// Reads the field from its bytes.
    pub fn from_bytes(bytes: [u8; 3]) -> (r: Self)
        ensures
            r.bytes() == bytes@,
            r.rows() == little_endian(bytes@) % 8192,
            r.valid() == little_endian(bytes@) / 8192,
    {
        let r = PackedRowCounts { low: bytes[0], middle: bytes[1], high: bytes[2] };
        assert(r.bytes() =~= bytes@);
        r
    }

    /// The bytes of the field.
    pub fn into_bytes(self) -> (r: [u8; 3])
        ensures
            r@ == self.bytes(),
            little_endian(r@) == self.rows() + 8192 * self.valid(),
    {
        let r: [u8; 3] = [self.low, self.middle, self.high];
        assert(r@ =~= self.bytes());
        r
    }

    /// The number of used row offsets.
    pub fn num_rows(&self) -> (r: u16)
        ensures
            r == self.rows(),
            r <= MAX_NUM_ROWS,
    {
        (self.word() % 8192) as u16
    }

    /// The number of valid rows.
    pub fn num_rows_valid(&self) -> (r: u16)
        ensures
            r == self.valid(),
            r <= MAX_NUM_ROWS_VALID,
    {
        (self.word() / 8192) as u16
    }

    /// The same field with another number of used row offsets.
    pub fn with_num_rows(self, num_rows: u16) -> (r: Self)
        requires
            num_rows <= MAX_NUM_ROWS,
        ensures
            r.rows() == num_rows,
            r.valid() == self.valid(),
    {
        Self::from_word(self.word() / 8192 * 8192 + num_rows as u32)
    }

    /// The same field with another number of valid rows.
    pub fn with_num_rows_valid(self, num_rows_valid: u16) -> (r: Self)
        requires
            num_rows_valid <= MAX_NUM_ROWS_VALID,
        ensures
            r.rows() == self.rows(),
            r.valid() == num_rows_valid,
    {
        Self::from_word(self.word() % 8192 + num_rows_valid as u32 * 8192)
    }

    /// Replaces the number of used row offsets.
    pub fn set_num_rows(&mut self, num_rows: u16)
        requires
            num_rows <= MAX_NUM_ROWS,
        ensures
            final(self).rows() == num_rows,
            final(self).valid() == old(self).valid(),
    {
        *self = self.with_num_rows(num_rows);
    }

    /// Replaces the number of valid rows.
    pub fn set_num_rows_valid(&mut self, num_rows_valid: u16)
        requires
            num_rows_valid <= MAX_NUM_ROWS_VALID,
        ensures
            final(self).rows() == old(self).rows(),
            final(self).valid() == num_rows_valid,
    {
        *self = self.with_num_rows_valid(num_rows_valid);
    }

    /// The field of a page of `num_rows` rows that are all valid, such as a page that is written
    /// without any deleted rows. Only the 16 low bits of `num_rows` count.
    pub fn from_all_valid(num_rows: usize) -> (r: Self)
        requires
            num_rows % 65536 <= MAX_NUM_ROWS_VALID,
        ensures
            r.rows() == num_rows % 65536,
            r.valid() == num_rows % 65536,
    {
        let count: u16 = (num_rows % 65536) as u16;
        Self::new().with_num_rows(count).with_num_rows_valid(count)
    }

    /// The number of row groups in the page.
    pub fn num_row_groups(&self) -> (r: u16)
        ensures
            MAX_ROW_COUNT * (r - 1) < self.rows() <= MAX_ROW_COUNT * r,
    {
        (self.num_rows() + (MAX_ROW_COUNT - 1)) / MAX_ROW_COUNT
    }

    /// The index of the last row group in the page and the index of the last row in that group.
    pub fn last_row_index(&self) -> (r: Option<(u16, u16)>)
        ensures
            r is None <==> self.rows() == 0,
            r matches Some((group, row)) ==> {
                &&& row < MAX_ROW_COUNT
                &&& MAX_ROW_COUNT * group + row == self.rows() - 1
            },
    {
        let groups: u16 = self.num_row_groups();
        let rows: u16 = self.num_rows();
        if groups == 0 || rows == 0 {
            None
        } else {
            Some((groups - 1, (rows - 1) % MAX_ROW_COUNT))
        }
    }

    /// Counts one more row, which is valid, such as when a row is added to the page.
    pub fn increment_rows(&mut self)
        requires
            old(self).rows() < MAX_NUM_ROWS,
            old(self).valid() < MAX_NUM_ROWS_VALID,
        ensures
            final(self).rows() == old(self).rows() + 1,
            final(self).valid() == old(self).valid() + 1,
    {
        let rows: u16 = self.num_rows();
        self.set_num_rows(rows + 1);
        let valid: u16 = self.num_rows_valid();
        self.set_num_rows_valid(valid + 1);
    }
}

impl Default for PackedRowCounts {
    fn default() -> (r: Self)
        ensures
            r.rows() == 0,
            r.valid() == 0,
    {
        Self::new()
    }
}

/// The two counts determine the bytes of the field: two fields with the same counts are equal.
pub proof fn law_counts_determine_bytes(a: PackedRowCounts, b: PackedRowCounts)
    requires
        a.rows() == b.rows(),
        a.valid() == b.valid(),
    ensures
        a == b,
        a.bytes() == b.bytes(),
{
    assert(little_endian(a.bytes()) == little_endian(b.bytes()));
    assert(a.low == little_endian(a.bytes()) % 256);
    assert(b.low == little_endian(b.bytes()) % 256);
    assert(a.high == little_endian(a.bytes()) / 65536);
    assert(b.high == little_endian(b.bytes()) / 65536);
}

/// The field takes three bytes, and its two counts stay within 13 and 11 bits.
pub proof fn law_counts_fit(a: PackedRowCounts)
    ensures
        a.bytes().len() == 3,
        0 <= a.rows() <= MAX_NUM_ROWS,
        0 <= a.valid() <= MAX_NUM_ROWS_VALID,
        little_endian(a.bytes()) == a.rows() + 8192 * a.valid(),
{
}

/// The rows take the first byte and the five low bits of the second, the valid rows the three high
/// bits of the second and the third byte.
pub proof fn law_counts_from_bytes(a: PackedRowCounts)
    ensures
        a.rows() == a.bytes()[0] + 256 * (a.bytes()[1] % 32),
        a.valid() == a.bytes()[1] / 32 + 8 * a.bytes()[2],
{
}

} // verus!

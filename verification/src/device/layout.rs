//! On-disk layout of a Rekordbox device export: where the databases, the `*SETTING.DAT` files and
//! the `PIONEER`, `USBANLZ` and `Contents` directories live relative to the device root.

use std::path::PathBuf;

use vstd::prelude::*;
use vstd::string::*;

use crate::setting::SettingType;
use crate::text::{
    decimal, decimal_text, law_numerals_read_back, law_padding, law_padding_keeps_the_value, numeral,
    padded_hex, padded_numeral, value_of, zero_padded,
};

verus! {

/// Declares `std::path::PathBuf`, the type of a path of the host. Nothing is claimed of it: the
/// layout only carries the device root through.
#[verifier::external_type_specification]
#[verifier::external_body]
pub struct ExPathBuf(std::path::PathBuf);

/// Specifies `PathBuf::clone`: the copy is the path itself once more.
pub assume_specification[ <std::path::PathBuf as Clone>::clone ](path: &std::path::PathBuf) -> (r:
    std::path::PathBuf)
    ensures
        r == *path,
;

/// A place in a device export: the device root, and the names that lead down from it, outermost
/// first. Joining the names to the root one by one yields the path on the host.
#[derive(Debug)]
pub struct ExportPath<'a> {
    pub root: &'a PathBuf,
    pub names: Vec<String>,
}

/// The texts of a list of strings.
pub open spec fn texts(strings: Seq<String>) -> Seq<Seq<char>> {
    Seq::new(strings.len(), |i: int| strings[i]@)
}

impl<'a> ExportPath<'a> {
    /// The names below the root as texts.
    pub open spec fn parts(&self) -> Seq<Seq<char>> {
        texts(self.names@)
    }

    /// The place called `name` directly below this one.
    pub fn join(self, name: &str) -> (r: ExportPath<'a>)
        ensures
            r.root == self.root,
            r.parts() == self.parts().push(name@),
    {
        let mut names = self.names;
        names.push(String::from_str(name));
        let r = ExportPath { root: self.root, names };
        assert(r.parts() =~= self.parts().push(name@));
        r
    }
}

/// The `*SETTING.DAT` files in a device export, in the order Rekordbox writes them.
pub fn dat_files() -> (r: Vec<(&'static str, SettingType)>)
    ensures
        r.len() == 4,
        r[0].1 == SettingType::DevSetting,
        r[1].1 == SettingType::DJMMySetting,
        r[2].1 == SettingType::MySetting,
        r[3].1 == SettingType::MySetting2,
        forall|i: int| 0 <= i < 4 ==> (#[trigger] r[i]).0@ == r[i].1.file_name(),
{
    vec![
        ("DEVSETTING.DAT", SettingType::DevSetting),
        ("DJMMYSETTING.DAT", SettingType::DJMMySetting),
        ("MYSETTING.DAT", SettingType::MySetting),
        ("MYSETTING2.DAT", SettingType::MySetting2),
    ]
}

/// On-disk layout of a device export rooted at a directory. Derives all places from it on demand.
#[derive(Debug, PartialEq)]
pub struct Layout {
    root: PathBuf,
}

impl Clone for Layout {
    fn clone(&self) -> (r: Self)
        ensures
            r.root_dir() == self.root_dir(),
    {
        Layout { root: self.root.clone() }
    }
}

/// The names that lead from the device root to the analysis directory of an audio file.
pub open spec fn anlz_parts(audio_path: Seq<char>) -> Seq<Seq<char>> {
    let hash = hash_of(audio_path);
    seq![
        "PIONEER"@,
        "USBANLZ"@,
        "P"@ + padded_hex(scattered_bits(hash), 3),
        padded_hex(hash, 8),
    ]
}

/// The name of the folder that holds the artwork `id`: five digits, twenty images per folder.
pub open spec fn artwork_folder_name(id: nat) -> Seq<char> {
    zero_padded(decimal(id / 20 + 1), 5)
}

/// The name of an image of the artwork `id`.
pub open spec fn artwork_name(id: nat, ending: Seq<char>) -> Seq<char> {
    "a"@ + decimal(id) + ending
}

impl Layout {
    /// The device root directory.
    pub closed spec fn root_dir(&self) -> PathBuf {
        self.root
    }

    /// Wraps a device-export root directory.
    pub fn new(root: PathBuf) -> (r: Self)
        ensures
            r.root_dir() == root,
    {
        Layout { root }
    }

    /// The device root directory this layout was built from.
    pub fn root(&self) -> (r: &PathBuf)
        ensures
            *r == self.root_dir(),
    {
        &self.root
    }

    /// The device root as a place of the export.
    fn top(&self) -> (r: ExportPath<'_>)
        ensures
            *r.root == self.root_dir(),
            r.parts() == Seq::<Seq<char>>::empty(),
    {
        let r = ExportPath { root: &self.root, names: Vec::new() };
        assert(r.parts() =~= Seq::<Seq<char>>::empty());
        r
    }

    /// The `PIONEER` directory.
    pub fn pioneer_dir(&self) -> (r: ExportPath<'_>)
        ensures
            *r.root == self.root_dir(),
            r.parts() == seq!["PIONEER"@],
    {
        self.top().join("PIONEER")
    }

    /// The `PIONEER/rekordbox` directory holding the database files.
    pub fn rekordbox_dir(&self) -> (r: ExportPath<'_>)
        ensures
            *r.root == self.root_dir(),
            r.parts() == seq!["PIONEER"@, "rekordbox"@],
    {
        self.pioneer_dir().join("rekordbox")
    }

    /// The main database.
    pub fn export_pdb(&self) -> (r: ExportPath<'_>)
        ensures
            *r.root == self.root_dir(),
            r.parts() == seq!["PIONEER"@, "rekordbox"@, "export.pdb"@],
    {
        self.rekordbox_dir().join("export.pdb")
    }

    /// The extension database.
    pub fn export_ext_pdb(&self) -> (r: ExportPath<'_>)
        ensures
            *r.root == self.root_dir(),
            r.parts() == seq!["PIONEER"@, "rekordbox"@, "exportExt.pdb"@],
    {
        self.rekordbox_dir().join("exportExt.pdb")
    }

    /// The `PIONEER/USBANLZ` directory holding per-track analysis files.
    pub fn usbanlz_dir(&self) -> (r: ExportPath<'_>)
        ensures
            *r.root == self.root_dir(),
            r.parts() == seq!["PIONEER"@, "USBANLZ"@],
    {
        self.pioneer_dir().join("USBANLZ")
    }

    /// The `Contents` directory holding audio files.
    pub fn contents_dir(&self) -> (r: ExportPath<'_>)
        ensures
            *r.root == self.root_dir(),
            r.parts() == seq!["Contents"@],
    {
        self.top().join("Contents")
    }

    /// A `*SETTING.DAT` file by name, under `PIONEER`.
    pub fn dat_path(&self, filename: &str) -> (r: ExportPath<'_>)
        ensures
            *r.root == self.root_dir(),
            r.parts() == seq!["PIONEER"@, filename@],
    {
        self.pioneer_dir().join(filename)
    }

    /// The `PIONEER/Artwork` directory.
    pub fn artwork_dir(&self) -> (r: ExportPath<'_>)
        ensures
            *r.root == self.root_dir(),
            r.parts() == seq!["PIONEER"@, "Artwork"@],
    {
        self.pioneer_dir().join("Artwork")
    }

    /// The 80x80 thumbnail of the artwork `id`.
    pub fn artwork_file(&self, id: u32) -> (r: ExportPath<'_>)
        ensures
            *r.root == self.root_dir(),
            r.parts() == seq![
                "PIONEER"@,
                "Artwork"@,
                artwork_folder_name(id as nat),
                "a"@ + decimal(id as nat) + ".jpg"@,
            ],
            r.parts()[3] == artwork_name(id as nat, ".jpg"@),
    {
        let mut name: String = String::from_str("a");
        name.append(decimal_text(id).as_str());
        name.append(".jpg");
        self.artwork_dir().join(artwork_folder(id).as_str()).join(name.as_str())
    }

    /// The 240x240 image of the artwork `id`.
    pub fn artwork_m_file(&self, id: u32) -> (r: ExportPath<'_>)
        ensures
            *r.root == self.root_dir(),
            r.parts() == seq![
                "PIONEER"@,
                "Artwork"@,
                artwork_folder_name(id as nat),
                "a"@ + decimal(id as nat) + "_m.jpg"@,
            ],
            r.parts()[3] == artwork_name(id as nat, "_m.jpg"@),
    {
        let mut name: String = String::from_str("a");
        name.append(decimal_text(id).as_str());
        name.append("_m.jpg");
        self.artwork_dir().join(artwork_folder(id).as_str()).join(name.as_str())
    }

    /// The per-track analysis directory, keyed by the audio file's path on the device. Pioneer
    /// hardware recomputes this directory from the path, so it follows [`path_hash`].
    pub fn anlz_dir(&self, audio_path: &str) -> (r: ExportPath<'_>)
        ensures
            *r.root == self.root_dir(),
            r.parts() == anlz_parts(audio_path@),
    {
        let (p_value, hash) = path_hash(audio_path);
        let mut folder: String = String::from_str("P");
        folder.append(padded_numeral(p_value as u32, 16, 3).as_str());
        self.usbanlz_dir().join(folder.as_str()).join(padded_numeral(hash, 16, 8).as_str())
    }

    /// A track's `ANLZ0000.DAT` (base sections: beatgrid, cues, mono waveforms).
    pub fn anlz_dat_file(&self, audio_path: &str) -> (r: ExportPath<'_>)
        ensures
            *r.root == self.root_dir(),
            r.parts() == anlz_parts(audio_path@).push("ANLZ0000.DAT"@),
    {
        self.anlz_dir(audio_path).join("ANLZ0000.DAT")
    }

    /// A track's `ANLZ0000.EXT` (colored waveforms and song structure).
    pub fn anlz_ext_file(&self, audio_path: &str) -> (r: ExportPath<'_>)
        ensures
            *r.root == self.root_dir(),
            r.parts() == anlz_parts(audio_path@).push("ANLZ0000.EXT"@),
    {
        self.anlz_dir(audio_path).join("ANLZ0000.EXT")
    }

    /// A track's `ANLZ0000.2EX` (3-band waveforms and per-band calibration).
    pub fn anlz_2ex_file(&self, audio_path: &str) -> (r: ExportPath<'_>)
        ensures
            *r.root == self.root_dir(),
            r.parts() == anlz_parts(audio_path@).push("ANLZ0000.2EX"@),
    {
        self.anlz_dir(audio_path).join("ANLZ0000.2EX")
    }
}

/// Five-digit folder name for the artwork `id`.
pub fn artwork_folder(id: u32) -> (r: String)
    ensures
        r@ == artwork_folder_name(id as nat),
{
    padded_numeral(id / 20 + 1, 10, 5)
}

/// The path on the device of the `.DAT` analysis file of an audio file, as stored in the database.
pub fn anlz_device_path(audio_path: &str) -> (r: String)
    ensures
        r@ == "/PIONEER/USBANLZ/P"@ + padded_hex(scattered_bits(hash_of(audio_path@)), 3) + "/"@
            + padded_hex(hash_of(audio_path@), 8) + "/ANLZ0000.DAT"@,
        r@ == slashed(anlz_parts(audio_path@).push("ANLZ0000.DAT"@)),
{
    proof {
        law_device_path_names_dat_file(audio_path@);
    }
    let (p_value, hash) = path_hash(audio_path);
    let mut path: String = String::from_str("/PIONEER/USBANLZ/P");
    path.append(padded_numeral(p_value as u32, 16, 3).as_str());
    path.append("/");
    path.append(padded_numeral(hash, 16, 8).as_str());
    path.append("/ANLZ0000.DAT");
    path
}

/// The 16-bit code unit that a character contributes to the path hash. Characters outside the
/// basic plane contribute only their 16 low bits.
pub open spec fn code_unit(c: char) -> nat {
    (c as nat) % 0x10000
}

/// The rolling hash of a path, one step per character, in 32-bit arithmetic.
pub open spec fn rolling_hash(path: Seq<char>) -> nat
    decreases path.len(),
{
    if path.len() == 0 {
        0
    } else {
        let unit = code_unit(path.last());
        ((rolling_hash(path.drop_last()) * 0x5BC9 + unit) * 0x93B5 + unit) % 0x1_0000_0000
    }
}

/// The hash value of a path: the rolling hash modulo the prime 200003.
pub open spec fn hash_of(path: Seq<char>) -> nat {
    rolling_hash(path) % 200003
}

/// Bit number `i` of `n`, for a power of two `weight` of that bit.
pub open spec fn bit_at(n: nat, weight: nat) -> nat {
    n / weight % 2
}

/// The seven bits 0, 2, 6, 7, 9, 13 and 16 of a hash value, packed into one number.
pub open spec fn scattered_bits(hash: nat) -> nat {
    bit_at(hash, 1) + 2 * bit_at(hash, 4) + 4 * bit_at(hash, 64) + 8 * bit_at(hash, 128) + 16
        * bit_at(hash, 512) + 32 * bit_at(hash, 8192) + 64 * bit_at(hash, 65536)
}

/// The code unit of a character.
fn unit_of(c: char) -> (r: u32)
    ensures
        r == code_unit(c),
{
    let code: u32 = c as u32;
    assert(code & 0xFFFF == code % 0x10000) by (bit_vector);
    code & 0xFFFF
}

/// Reducing a number before it is multiplied and added to does not change what is left over.
proof fn lemma_inner_reduction(n: int, factor: int, unit: int, m: int)
    requires
        m > 0,
    ensures
        ((n % m) * factor + unit) % m == (n * factor + unit) % m,
{
    vstd::arithmetic::div_mod::lemma_mul_mod_noop_left(n, factor, m);
    vstd::arithmetic::div_mod::lemma_add_mod_noop((n % m) * factor, unit, m);
    vstd::arithmetic::div_mod::lemma_add_mod_noop(n * factor, unit, m);
}

/// Multiplies and adds in 32-bit arithmetic.
fn mixed_in(hash: u32, factor: u32, unit: u32) -> (r: u32)
    ensures
        r == (hash * factor + unit) % 0x1_0000_0000,
{
    let product: u32 = hash.wrapping_mul(factor);
    proof {
        lemma_inner_reduction(hash * factor, 1, unit as int, 0x1_0000_0000);
    }
    product.wrapping_add(unit)
}

/// One step of the rolling hash in machine arithmetic.
fn hash_step(hash: u32, unit: u32) -> (r: u32)
    ensures
        r == ((hash * 0x5BC9 + unit) * 0x93B5 + unit) % 0x1_0000_0000,
{
    let mixed: u32 = mixed_in(hash, 0x5BC9, unit);
    proof {
        lemma_inner_reduction(hash * 0x5BC9 + unit, 0x93B5, unit as int, 0x1_0000_0000);
    }
    mixed_in(mixed, 0x93B5, unit)
}

/// The Pioneer `(p_value, hash)` pair of an audio file's path on the device, which starts with a
/// slash and is relative to the drive root.
pub fn path_hash(audio_path: &str) -> (r: (u16, u32))
    ensures
        r.1 == hash_of(audio_path@),
        r.0 == scattered_bits(hash_of(audio_path@)),
{
    let mut hash: u32 = 0;
    for c in it: audio_path.chars()
        invariant
            it.seq() == audio_path@,
            hash == rolling_hash(audio_path@.take(it.index())),
    {
        let unit: u32 = unit_of(c);
        proof {
            let prefix = audio_path@.take(it.index() + 1);
            assert(prefix.drop_last() =~= audio_path@.take(it.index()));
            assert(prefix.last() == c);
        }
        hash = hash_step(hash, unit);
    }
    assert(audio_path@.take(audio_path@.len() as int) =~= audio_path@);
    let h: u32 = hash % 0x30D43;
    let p: u32 = (h & 1) | ((h >> 1) & 2) | ((h >> 4) & 4) | ((h >> 4) & 8) | ((h >> 5) & 0x10) | ((
    h >> 8) & 0x20) | ((h >> 10) & 0x40);
    assert(p == (h / 1) % 2 + 2 * ((h / 4) % 2) + 4 * ((h / 64) % 2) + 8 * ((h / 128) % 2) + 16 * ((
    h / 512) % 2) + 32 * ((h / 8192) % 2) + 64 * ((h / 65536) % 2)) by (bit_vector)
        requires
            p == (h & 1) | ((h >> 1) & 2) | ((h >> 4) & 4) | ((h >> 4) & 8) | ((h >> 5) & 0x10) | ((
            h >> 8) & 0x20) | ((h >> 10) & 0x40),
    ;
    (p as u16, h)
}

/// A chain of names as a path on the device, each name behind a slash.
pub open spec fn slashed(parts: Seq<Seq<char>>) -> Seq<char>
    decreases parts.len(),
{
    if parts.len() == 0 {
        Seq::empty()
    } else {
        slashed(parts.drop_last()) + "/"@ + parts.last()
    }
}

/// The analysis path stored in the database names the very file that the layout puts the base
/// sections in.
pub proof fn law_device_path_names_dat_file(audio_path: Seq<char>)
    ensures
        slashed(anlz_parts(audio_path).push("ANLZ0000.DAT"@)) == "/PIONEER/USBANLZ/P"@
            + padded_hex(scattered_bits(hash_of(audio_path)), 3) + "/"@ + padded_hex(
            hash_of(audio_path),
            8,
        ) + "/ANLZ0000.DAT"@,
{
    reveal_strlit("/");
    reveal_strlit("P");
    reveal_strlit("PIONEER");
    reveal_strlit("USBANLZ");
    reveal_strlit("ANLZ0000.DAT");
    reveal_strlit("/PIONEER/USBANLZ/P");
    reveal_strlit("/ANLZ0000.DAT");
    let parts = anlz_parts(audio_path);
    let all = parts.push("ANLZ0000.DAT"@);
    assert(all.drop_last() =~= parts);
    assert(parts.drop_last() =~= parts.take(3));
    assert(parts.take(3).drop_last() =~= parts.take(2));
    assert(parts.take(2).drop_last() =~= parts.take(1));
    assert(parts.take(1).drop_last() =~= Seq::empty());
    reveal_with_fuel(slashed, 6);
    assert(slashed(parts.take(1)) =~= "/"@ + "PIONEER"@);
    assert(slashed(parts.take(2)) + "/"@ + "P"@ =~= "/PIONEER/USBANLZ/P"@);
    assert("/"@ + "ANLZ0000.DAT"@ =~= "/ANLZ0000.DAT"@);
    assert(slashed(all) =~= "/PIONEER/USBANLZ/P"@ + padded_hex(
        scattered_bits(hash_of(audio_path)),
        3,
    ) + "/"@ + padded_hex(hash_of(audio_path), 8) + "/ANLZ0000.DAT"@);
}

/// The three analysis files of a track stand in one directory, and their names differ by the
/// extension only.
pub proof fn law_analysis_files_are_siblings(audio_path: Seq<char>)
    ensures
        anlz_parts(audio_path).push("ANLZ0000.DAT"@).drop_last() == anlz_parts(audio_path),
        anlz_parts(audio_path).push("ANLZ0000.EXT"@).drop_last() == anlz_parts(audio_path),
        anlz_parts(audio_path).push("ANLZ0000.2EX"@).drop_last() == anlz_parts(audio_path),
        "ANLZ0000.DAT"@ == "ANLZ0000."@ + "DAT"@,
        "ANLZ0000.EXT"@ == "ANLZ0000."@ + "EXT"@,
        "ANLZ0000.2EX"@ == "ANLZ0000."@ + "2EX"@,
{
    reveal_strlit("ANLZ0000.DAT");
    reveal_strlit("ANLZ0000.EXT");
    reveal_strlit("ANLZ0000.2EX");
    reveal_strlit("ANLZ0000.");
    reveal_strlit("DAT");
    reveal_strlit("EXT");
    reveal_strlit("2EX");
    let dir = anlz_parts(audio_path);
    assert(dir.push("ANLZ0000.DAT"@).drop_last() =~= dir);
    assert(dir.push("ANLZ0000.EXT"@).drop_last() =~= dir);
    assert(dir.push("ANLZ0000.2EX"@).drop_last() =~= dir);
    assert("ANLZ0000.DAT"@ =~= "ANLZ0000."@ + "DAT"@);
    assert("ANLZ0000.EXT"@ =~= "ANLZ0000."@ + "EXT"@);
    assert("ANLZ0000.2EX"@ =~= "ANLZ0000."@ + "2EX"@);
}

/// The hash stays below the modulus, and the P value takes seven bits.
pub proof fn law_hash_range(audio_path: Seq<char>)
    ensures
        hash_of(audio_path) < 200003,
        scattered_bits(hash_of(audio_path)) < 128,
{
}

/// Two paths whose characters agree in their 16 low bits share one analysis directory. So a path
/// with characters outside the basic plane collides with one inside it.
pub proof fn law_low_bits_decide(a: Seq<char>, b: Seq<char>)
    requires
        a.len() == b.len(),
        forall|i: int| 0 <= i < a.len() ==> code_unit(#[trigger] a[i]) == code_unit(b[i]),
    ensures
        hash_of(a) == hash_of(b),
        anlz_parts(a) == anlz_parts(b),
{
    lemma_same_units_same_hash(a, b);
}

proof fn lemma_same_units_same_hash(a: Seq<char>, b: Seq<char>)
    requires
        a.len() == b.len(),
        forall|i: int| 0 <= i < a.len() ==> code_unit(#[trigger] a[i]) == code_unit(b[i]),
    ensures
        rolling_hash(a) == rolling_hash(b),
    decreases a.len(),
{
    if a.len() > 0 {
        assert forall|i: int| 0 <= i < a.drop_last().len() implies code_unit(
            #[trigger] a.drop_last()[i],
        ) == code_unit(b.drop_last()[i]) by {
            assert(a.drop_last()[i] == a[i]);
        }
        lemma_same_units_same_hash(a.drop_last(), b.drop_last());
        assert(code_unit(a[a.len() - 1]) == code_unit(b[b.len() - 1]));
    }
}

/// A character of the basic plane enters the hash with its code point, so different ones enter
/// differently; a character above it enters with the 16 low bits of its code point.
pub proof fn law_characters_enter_with_their_code_points(c: char, d: char)
    ensures
        (c as int) < 0x10000 ==> code_unit(c) == c as int,
        c as int >= 0x10000 ==> code_unit(c) == c as int - 0x10000 * (c as int / 0x10000),
        c != d && (c as int) < 0x10000 && (d as int) < 0x10000 ==> code_unit(c) != code_unit(d),
{
}

/// The hash of one character of the basic plane is its code point times 37814.
pub proof fn law_hash_of_one_character(c: char)
    requires
        (c as int) < 0x10000,
    ensures
        rolling_hash(seq![c]) == 37814 * (c as int),
{
    assert(seq![c].drop_last() =~= Seq::empty());
    assert(rolling_hash(seq![c].drop_last()) == 0);
}

/// One more character multiplies the hash by 888492061 and adds 37814 times the 16 low bits of its
/// code point, in 32-bit arithmetic. The empty path has the hash zero.
pub proof fn law_hash_of_a_longer_path(path: Seq<char>, c: char)
    ensures
        rolling_hash(Seq::empty()) == 0,
        rolling_hash(path.push(c)) == (888492061 * rolling_hash(path) + 37814 * (c as int
            % 0x10000)) % 0x1_0000_0000,
        rolling_hash(path.push(c)) < 0x1_0000_0000,
{
    assert(path.push(c).drop_last() =~= path);
}

/// Two paths that differ only in their last character, both of the basic plane, have different
/// rolling hashes.
pub proof fn law_last_character_counts(path: Seq<char>, c: char, d: char)
    requires
        c != d,
        (c as int) < 0x10000,
        (d as int) < 0x10000,
    ensures
        rolling_hash(path.push(c)) != rolling_hash(path.push(d)),
{
    law_hash_of_a_longer_path(path, c);
    law_hash_of_a_longer_path(path, d);
    let start = 888492061 * rolling_hash(path);
    let x: int = start + 37814 * (c as int);
    let y: int = start + 37814 * (d as int);
    let m: int = 0x1_0000_0000;
    assert(x == m * (x / m) + x % m);
    assert(y == m * (y / m) + y % m);
    if x % m == y % m {
        let apart: int = x / m - y / m;
        assert(x - y == m * apart);
        assert(x - y == 37814 * (c as int - d as int));
        assert(-m < x - y < m);
        assert(apart == 0);
    }
}

/// The hash value is what the rolling hash leaves over when divided by the prime 200003.
pub proof fn law_hash_is_a_remainder(path: Seq<char>)
    ensures
        0 <= hash_of(path) < 200003,
        (rolling_hash(path) - hash_of(path)) % 200003 == 0,
{
}

/// Seven bits that are packed into a number can be read back one by one.
proof fn lemma_packed_bits(b: Seq<nat>, packed: nat)
    requires
        b.len() == 7,
        forall|i: int| 0 <= i < 7 ==> #[trigger] b[i] <= 1,
        packed == b[0] + 2 * b[1] + 4 * b[2] + 8 * b[3] + 16 * b[4] + 32 * b[5] + 64 * b[6],
    ensures
        packed < 128,
        packed % 2 == b[0],
        packed / 2 % 2 == b[1],
        packed / 4 % 2 == b[2],
        packed / 8 % 2 == b[3],
        packed / 16 % 2 == b[4],
        packed / 32 % 2 == b[5],
        packed / 64 % 2 == b[6],
{
    assert(packed / 2 == b[1] + 2 * b[2] + 4 * b[3] + 8 * b[4] + 16 * b[5] + 32 * b[6]);
    assert(packed / 4 == b[2] + 2 * b[3] + 4 * b[4] + 8 * b[5] + 16 * b[6]);
    assert(packed / 8 == b[3] + 2 * b[4] + 4 * b[5] + 8 * b[6]);
    assert(packed / 16 == b[4] + 2 * b[5] + 4 * b[6]);
    assert(packed / 32 == b[5] + 2 * b[6]);
    assert(packed / 64 == b[6]);
}

/// Bit for bit, the P value holds the bits 0, 2, 6, 7, 9, 13 and 16 of the hash, from the lowest up.
pub proof fn law_p_value_bits(hash: nat)
    ensures
        scattered_bits(hash) < 128,
        scattered_bits(hash) % 2 == hash % 2,
        scattered_bits(hash) / 2 % 2 == hash / 4 % 2,
        scattered_bits(hash) / 4 % 2 == hash / 64 % 2,
        scattered_bits(hash) / 8 % 2 == hash / 128 % 2,
        scattered_bits(hash) / 16 % 2 == hash / 512 % 2,
        scattered_bits(hash) / 32 % 2 == hash / 8192 % 2,
        scattered_bits(hash) / 64 % 2 == hash / 65536 % 2,
{
    let bits = seq![
        hash % 2,
        hash / 4 % 2,
        hash / 64 % 2,
        hash / 128 % 2,
        hash / 512 % 2,
        hash / 8192 % 2,
        hash / 65536 % 2,
    ];
    lemma_packed_bits(bits, scattered_bits(hash));
}

proof fn lemma_short_hex(n: nat)
    requires
        n < 0x100000,
    ensures
        numeral(n, 16).len() <= 5,
        n < 128 ==> numeral(n, 16).len() <= 2,
{
    lemma_hex_digit_more(n);
    lemma_hex_digit_more(n / 16);
    lemma_hex_digit_more(n / 16 / 16);
    lemma_hex_digit_more(n / 16 / 16 / 16);
    lemma_hex_digit_more(n / 16 / 16 / 16 / 16);
}

/// A number from sixteen on has one hexadecimal digit more than its sixteenth.
proof fn lemma_hex_digit_more(n: nat)
    ensures
        n < 16 ==> numeral(n, 16).len() == 1,
        n >= 16 ==> numeral(n, 16).len() == numeral(n / 16, 16).len() + 1,
{
}

/// The analysis directory lies in `PIONEER/USBANLZ`, and its two names can be read back: behind a
/// `P` three hexadecimal digits of the P value, and eight of the hash.
pub proof fn law_analysis_directory_reads_back(audio_path: Seq<char>)
    ensures
        anlz_parts(audio_path).len() == 4,
        anlz_parts(audio_path)[0] == "PIONEER"@,
        anlz_parts(audio_path)[1] == "USBANLZ"@,
        anlz_parts(audio_path)[2].len() == 4,
        anlz_parts(audio_path)[2][0] == 'P',
        value_of(anlz_parts(audio_path)[2].skip(1), 16) == scattered_bits(
            rolling_hash(audio_path) % 200003,
        ),
        anlz_parts(audio_path)[3].len() == 8,
        value_of(anlz_parts(audio_path)[3], 16) == rolling_hash(audio_path) % 200003,
{
    reveal_strlit("P");
    let hash = hash_of(audio_path);
    let p = scattered_bits(hash);
    law_p_value_bits(hash);
    lemma_short_hex(hash);
    lemma_short_hex(p);
    law_numerals_read_back(hash, 16);
    law_numerals_read_back(p, 16);
    law_padding(numeral(hash, 16), 8);
    law_padding(numeral(p, 16), 3);
    law_padding_keeps_the_value(numeral(hash, 16), 8, 16);
    law_padding_keeps_the_value(numeral(p, 16), 3, 16);
    assert(anlz_parts(audio_path)[2].skip(1) =~= padded_hex(p, 3));
}

/// The artwork folder can be read back: at least five digits, and one more than the image number
/// divided by twenty. So twenty images in a row share a folder.
pub proof fn law_artwork_folders(id: nat)
    ensures
        artwork_folder_name(id).len() >= 5,
        value_of(artwork_folder_name(id), 10) == id / 20 + 1,
{
    law_numerals_read_back(id / 20 + 1, 10);
    law_padding(decimal(id / 20 + 1), 5);
    law_padding_keeps_the_value(decimal(id / 20 + 1), 5, 10);
}

/// A path on the device is its names, each behind a slash: one more name goes behind the others.
pub proof fn law_slashed(parts: Seq<Seq<char>>, name: Seq<char>)
    ensures
        slashed(Seq::empty()) == Seq::<char>::empty(),
        slashed(parts.push(name)) == slashed(parts) + "/"@ + name,
{
    assert(parts.push(name).drop_last() =~= parts);
}

/// The name of an image starts with an `a`, ends with its ending, and has the number of the artwork
/// in between.
pub proof fn law_artwork_names(id: nat, ending: Seq<char>)
    ensures
        ({
            let name = artwork_name(id, ending);
            let end = name.len() - ending.len();
            &&& name[0] == 'a'
            &&& name.skip(end) == ending
            &&& value_of(name.subrange(1, end), 10) == id
        }),
{
    reveal_strlit("a");
    let name = artwork_name(id, ending);
    let end = name.len() - ending.len();
    law_numerals_read_back(id, 10);
    assert(name.skip(end) =~= ending);
    assert(name.subrange(1, end) =~= decimal(id));
}

/// The texts of a list of strings are those of its strings, one for one and in their order.
pub proof fn law_texts(strings: Seq<String>, i: int)
    ensures
        texts(strings).len() == strings.len(),
        0 <= i < strings.len() ==> texts(strings)[i] == strings[i]@,
{
}

} // verus!

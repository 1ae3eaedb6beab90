//! The names that audio files get on the device.

use vstd::prelude::*;
use vstd::string::*;

use crate::device::layout::texts;
use crate::text::{decimal, decimal_text, digit_char};

verus! {

/// Whether `c` is the lower-case letter `lower` or its capital.
pub open spec fn is_letter(c: char, lower: char) -> bool {
    c == lower || c as int == lower as int - 32
}

/// Whether a file extension is that of an MP3 file, in capitals or not.
pub open spec fn names_mp3(extension: Seq<char>) -> bool {
    extension.len() == 3 && is_letter(extension[0], 'm') && is_letter(extension[1], 'p')
        && extension[2] == '3'
}

/// Whether a file is taken for an MP3 file, by its extension.
pub fn is_mp3(extension: Option<&str>) -> (r: bool)
    ensures
        r == (extension is Some && names_mp3(extension->0@)),
{
    match extension {
        Some(text) => {
            if text.unicode_len() != 3 {
                return false;
            }
            let a: char = text.get_char(0);
            let b: char = text.get_char(1);
            (a == 'm' || a == 'M') && (b == 'p' || b == 'P') && text.get_char(2) == '3'
        },
        None => false,
    }
}

/// How often `stem` occurs among `stems`.
pub open spec fn occurrences(stems: Seq<Seq<char>>, stem: Seq<char>) -> nat
    decreases stems.len(),
{
    if stems.len() == 0 {
        0
    } else {
        occurrences(stems.drop_last(), stem) + if stems.last() == stem {
            1nat
        } else {
            0nat
        }
    }
}

/// A stem with an underscore and a number behind it.
pub open spec fn suffixed(stem: Seq<char>, n: nat) -> Seq<char> {
    stem + "_"@ + decimal(n)
}

/// The name of the `count`th file with the given stem.
pub open spec fn numbered(stem: Seq<char>, count: nat) -> Seq<char> {
    if count <= 1 {
        stem + ".mp3"@
    } else {
        suffixed(stem, count) + ".mp3"@
    }
}

/// The name of file number `i`: its stem, and a number where the stem came before.
pub open spec fn device_name(stems: Seq<Seq<char>>, i: int) -> Seq<char> {
    numbered(stems[i], occurrences(stems.take(i + 1), stems[i]))
}

proof fn lemma_occurrences_bound(stems: Seq<Seq<char>>, stem: Seq<char>)
    ensures
        occurrences(stems, stem) <= stems.len(),
    decreases stems.len(),
{
    if stems.len() > 0 {
        lemma_occurrences_bound(stems.drop_last(), stem);
    }
}

/// Counts how often the stem number `at` occurs up to there.
fn count_up_to(stems: &Vec<String>, at: usize) -> (r: u32)
    requires
        at < stems.len() <= u32::MAX,
    ensures
        r == occurrences(texts(stems@).take(at + 1), stems@[at as int]@),
{
    let mut count: u32 = 0;
    let mut i: usize = 0;
    let ghost all = texts(stems@);
    assert(all.take(0) =~= Seq::empty());
    while i <= at
        invariant
            i <= at + 1,
            at < stems.len() <= u32::MAX,
            all == texts(stems@),
            count == occurrences(all.take(i as int), stems@[at as int]@),
        decreases at + 1 - i,
    {
        proof {
            assert(all.take(i + 1).drop_last() =~= all.take(i as int));
            assert(all.take(i + 1).last() == stems@[i as int]@);
            lemma_occurrences_bound(all.take(i as int), stems@[at as int]@);
        }
        if stems[i] == stems[at] {
            count = count + 1;
        }
        i = i + 1;
    }
    count
}

/// The names that the files with the given stems get on the device. The first file of a stem keeps
/// it; the others get a number, counted from two.
pub fn device_names(stems: &Vec<String>) -> (r: Vec<String>)
    requires
        stems.len() <= u32::MAX,
    ensures
        r@.len() == stems@.len(),
        forall|i: int|
            0 <= i < r@.len() ==> (#[trigger] r@[i])@ == device_name(texts(stems@), i),
{
    let mut names: Vec<String> = Vec::new();
    let mut i: usize = 0;
    while i < stems.len()
        invariant
            i <= stems.len() <= u32::MAX,
            names@.len() == i,
            forall|k: int|
                0 <= k < i ==> (#[trigger] names@[k])@ == device_name(texts(stems@), k),
        decreases stems.len() - i,
    {
        let count: u32 = count_up_to(stems, i);
        let mut name: String = stems[i].clone();
        if count > 1 {
            name.append("_");
            name.append(decimal_text(count).as_str());
        }
        name.append(".mp3");
        assert(name@ =~= device_name(texts(stems@), i as int));
        names.push(name);
        i = i + 1;
    }
    names
}

/// Whether `c` is one of the characters of numerals.
pub open spec fn is_digit(c: char) -> bool {
    '0' <= c <= '9'
}

proof fn lemma_decimal_digits(n: nat)
    ensures
        decimal(n).len() > 0,
        forall|i: int| 0 <= i < decimal(n).len() ==> is_digit(#[trigger] decimal(n)[i]),
    decreases n,
{
    if n >= 10 {
        lemma_decimal_digits(n / 10);
        assert(decimal(n) == decimal(n / 10).push(digit_char(n % 10)));
    }
}

proof fn lemma_decimal_injective(a: nat, b: nat)
    requires
        decimal(a) == decimal(b),
    ensures
        a == b,
    decreases a,
{
    lemma_decimal_digits(a / 10);
    lemma_decimal_digits(b / 10);
    if a >= 10 {
        assert(decimal(a) == decimal(a / 10).push(digit_char(a % 10)));
    }
    if b >= 10 {
        assert(decimal(b) == decimal(b / 10).push(digit_char(b % 10)));
    }
    assert(decimal(a).last() == digit_char(a % 10));
    assert(decimal(b).last() == digit_char(b % 10));
    if a >= 10 && b >= 10 {
        assert(decimal(a).drop_last() =~= decimal(a / 10));
        assert(decimal(b).drop_last() =~= decimal(b / 10));
        lemma_decimal_injective(a / 10, b / 10);
    } else if a >= 10 {
        assert(decimal(b).len() == 1);
    } else if b >= 10 {
        assert(decimal(a).len() == 1);
    }
}

/// A stem and a number that are put together with an underscore can be told apart again.
proof fn lemma_number_is_readable(s: Seq<char>, a: nat, t: Seq<char>, b: nat)
    requires
        s + seq!['_'] + decimal(a) == t + seq!['_'] + decimal(b),
    ensures
        s == t,
        a == b,
{
    let x = s + seq!['_'] + decimal(a);
    let y = t + seq!['_'] + decimal(b);
    lemma_decimal_digits(a);
    lemma_decimal_digits(b);
    assert(x.len() == s.len() + 1 + decimal(a).len());
    assert(y.len() == t.len() + 1 + decimal(b).len());
    assert(x.len() == y.len());
    if s.len() < t.len() {
        assert(y[t.len() as int] == '_');
        assert(is_digit(decimal(a)[t.len() - s.len() - 1]));
    } else if t.len() < s.len() {
        assert(x[s.len() as int] == '_');
        assert(is_digit(decimal(b)[s.len() - t.len() - 1]));
    }
    assert(s =~= x.take(s.len() as int));
    assert(t =~= y.take(t.len() as int));
    assert(decimal(a) =~= x.skip(s.len() as int + 1));
    assert(decimal(b) =~= y.skip(t.len() as int + 1));
    lemma_decimal_injective(a, b);
}

proof fn lemma_occurrences_grow(stems: Seq<Seq<char>>, stem: Seq<char>, i: int, j: int)
    requires
        0 <= i <= j <= stems.len(),
    ensures
        occurrences(stems.take(i), stem) <= occurrences(stems.take(j), stem),
    decreases j - i,
{
    if i < j {
        lemma_occurrences_grow(stems, stem, i, j - 1);
        assert(stems.take(j).drop_last() =~= stems.take(j - 1));
    }
}

/// The later of two files with the same stem has the higher number.
proof fn lemma_later_counts_more(stems: Seq<Seq<char>>, i: int, j: int)
    requires
        0 <= i < j < stems.len(),
        stems[i] == stems[j],
    ensures
        1 <= occurrences(stems.take(i + 1), stems[i]) < occurrences(stems.take(j + 1), stems[j]),
{
    lemma_occurrences_grow(stems, stems[i], i + 1, j);
    assert(stems.take(i + 1).drop_last() =~= stems.take(i));
    assert(stems.take(j + 1).drop_last() =~= stems.take(j));
}

/// Files with the same stem get different names.
pub proof fn law_same_stem_different_names(stems: Seq<Seq<char>>, i: int, j: int)
    requires
        0 <= i < j < stems.len(),
        stems[i] == stems[j],
    ensures
        device_name(stems, i) != device_name(stems, j),
{
    if device_name(stems, i) == device_name(stems, j) {
        law_collisions(stems, i, j);
    }
}

/// Two files get the same name only where the stem of one of them is that of the other with an
/// underscore and a number behind it.
pub proof fn law_collisions(stems: Seq<Seq<char>>, i: int, j: int)
    requires
        0 <= i < j < stems.len(),
        device_name(stems, i) == device_name(stems, j),
    ensures
        stems[i] != stems[j],
        (exists|n: nat| n > 1 && stems[i] == #[trigger] suffixed(stems[j], n)) || (exists|n: nat|
            n > 1 && stems[j] == #[trigger] suffixed(stems[i], n)),
{
    reveal_strlit("_");
    reveal_strlit(".mp3");
    let a = occurrences(stems.take(i + 1), stems[i]);
    let b = occurrences(stems.take(j + 1), stems[j]);
    let x = device_name(stems, i);
    let core_i = if a <= 1 {
        stems[i]
    } else {
        suffixed(stems[i], a)
    };
    let core_j = if b <= 1 {
        stems[j]
    } else {
        suffixed(stems[j], b)
    };
    assert(x == core_i + ".mp3"@);
    assert(x == core_j + ".mp3"@);
    assert(core_i =~= x.take(x.len() - 4));
    assert(core_j =~= x.take(x.len() - 4));
    assert("_"@ =~= seq!['_']);
    if stems[i] == stems[j] {
        lemma_later_counts_more(stems, i, j);
        if a <= 1 {
            lemma_decimal_digits(b);
            assert(core_j.len() > core_i.len());
        } else {
            lemma_number_is_readable(stems[i], a, stems[j], b);
        }
    } else if a > 1 && b > 1 {
        lemma_number_is_readable(stems[i], a, stems[j], b);
    }
}

/// The extension of an MP3 file is written in one of four ways.
pub proof fn law_mp3_extensions(extension: Seq<char>)
    ensures
        names_mp3(extension) <==> extension == "mp3"@ || extension == "MP3"@ || extension == "Mp3"@
            || extension == "mP3"@,
{
    reveal_strlit("mp3");
    reveal_strlit("MP3");
    reveal_strlit("Mp3");
    reveal_strlit("mP3");
    if names_mp3(extension) {
        assert(extension =~= seq![extension[0], extension[1], extension[2]]);
        assert(extension =~= "mp3"@ || extension =~= "MP3"@ || extension =~= "Mp3"@ || extension
            =~= "mP3"@);
    }
}

/// One more stem counts once for itself and not at all for other stems.
pub proof fn law_occurrences(stems: Seq<Seq<char>>, last: Seq<char>, stem: Seq<char>)
    ensures
        occurrences(Seq::empty(), stem) == 0,
        occurrences(stems.push(last), last) == occurrences(stems, last) + 1,
        stem != last ==> occurrences(stems.push(last), stem) == occurrences(stems, stem),
{
    assert(stems.push(last).drop_last() =~= stems);
}

/// A file keeps its stem where no file before it has the same; otherwise the stem is followed by an
/// underscore and one more than the number of files before it that have it.
pub proof fn law_names_count_the_files_before(stems: Seq<Seq<char>>, i: int)
    requires
        0 <= i < stems.len(),
    ensures
        occurrences(stems.take(i), stems[i]) == 0 ==> device_name(stems, i) == stems[i] + ".mp3"@,
        occurrences(stems.take(i), stems[i]) > 0 ==> device_name(stems, i) == stems[i] + "_"@
            + decimal(occurrences(stems.take(i), stems[i]) + 1) + ".mp3"@,
{
    assert(stems.take(i + 1).drop_last() =~= stems.take(i));
    assert(stems.take(i + 1).last() == stems[i]);
}

} // verus!

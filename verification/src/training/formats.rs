//! Which reader a dataset file goes through, by its extension.

use vstd::prelude::*;

verus! {

/// The file formats datasets are read from.
#[derive(Debug, Clone, Copy, PartialEq, Eq, Structural)]
pub enum DataFormat {
    Parquet,
    Csv,
}

/// `c` with ASCII upper-case letters turned lower-case.
pub open spec fn ascii_lower(c: char) -> char {
    if 'A' <= c && c <= 'Z' {
        ((c as u32) + 32) as char
    } else {
        c
    }
}

/// `s` with ASCII upper-case letters turned lower-case.
pub open spec fn ascii_lowered(s: Seq<char>) -> Seq<char> {
    s.map_values(|c: char| ascii_lower(c))
}

fn lower_char(c: char) -> (r: char)
    ensures
        r == ascii_lower(c),
{
    if 'A' <= c && c <= 'Z' {
        let code = (c as u8) + 32;
        code as char
    } else {
        c
    }
}

/// Whether `s`, ASCII upper case lowered, reads `lowered`.
fn lowered_equals(s: &str, lowered: &str) -> (r: bool)
    ensures
        r == (ascii_lowered(s@) == lowered@),
{
    let n = s.unicode_len();
    let m = lowered.unicode_len();
    if n != m {
        proof {
            assert(ascii_lowered(s@).len() == s@.len());
        }
        return false;
    }
    let mut i: usize = 0;
    while i < n
        invariant
            n == s@.len(),
            m == lowered@.len(),
            n == m,
            0 <= i <= n,
            forall|j: int| 0 <= j < i ==> ascii_lower(#[trigger] s@[j]) == lowered@[j],
        decreases n - i,
    {
        if lower_char(s.get_char(i)) != lowered.get_char(i) {
            proof {
                assert(ascii_lowered(s@)[i as int] != lowered@[i as int]);
            }
            return false;
        }
        i = i + 1;
    }
    proof {
        assert(ascii_lowered(s@) =~= lowered@);
    }
    true
}

/// The format a dataset file with extension `extension` is read in.
pub open spec fn format_of_extension(extension: Seq<char>) -> Option<DataFormat> {
    if ascii_lowered(extension) == "parquet"@ {
        Some(DataFormat::Parquet)
    } else if ascii_lowered(extension) == "csv"@ {
        Some(DataFormat::Csv)
    } else {
        None::<DataFormat>
    }
}

/// `c` is an ASCII capital letter, `A` to `Z`.
pub open spec fn is_ascii_capital(c: char) -> bool {
    65 <= (c as u32) && (c as u32) <= 90
}

/// `c` and `d` are the same character, or the same ASCII letter in the two
/// cases (a capital's small letter lies 32 code points above it).
pub open spec fn same_letter(c: char, d: char) -> bool {
    ||| c == d
    ||| is_ascii_capital(c) && (d as u32) == (c as u32) + 32
    ||| is_ascii_capital(d) && (c as u32) == (d as u32) + 32
}

/// `a` and `b` spell the same text up to the case of ASCII letters.
pub open spec fn same_ignoring_ascii_case(a: Seq<char>, b: Seq<char>) -> bool {
    &&& a.len() == b.len()
    &&& forall|i: int| 0 <= i < a.len() ==> same_letter(#[trigger] a[i], b[i])
}

proof fn lemma_same_letter_lowers_alike(c: char, d: char)
    requires
        same_letter(c, d),
    ensures
        ascii_lower(c) == ascii_lower(d),
{
    if c != d {
        if is_ascii_capital(c) {
            assert(ascii_lower(c) == ((c as u32) + 32) as char);
            assert(((d as u32) as char) == d);
        } else {
            assert(ascii_lower(d) == ((d as u32) + 32) as char);
            assert(((c as u32) as char) == c);
        }
    }
}

/// Extensions are read without regard to the case of ASCII letters: two
/// extensions that differ only in letter case select the same format (so
/// "CSV", "Csv" and "csv" all select CSV).
pub proof fn lemma_format_ignores_ascii_case(a: Seq<char>, b: Seq<char>)
    requires
        same_ignoring_ascii_case(a, b),
    ensures
        format_of_extension(a) == format_of_extension(b),
{
    assert forall|i: int| 0 <= i < a.len() implies ascii_lowered(a)[i] == ascii_lowered(b)[i] by {
        lemma_same_letter_lowers_alike(a[i], b[i]);
    }
    assert(ascii_lowered(a) =~= ascii_lowered(b));
}

/// The format of a dataset file whose extension is `extension`, read
/// without regard to ASCII case: Parquet for "parquet", CSV for "csv", none
/// for any other.
pub fn data_format_for_extension(extension: &str) -> (r: Option<DataFormat>)
    ensures
        r == format_of_extension(extension@),
        r == if ascii_lowered(extension@) == "parquet"@ {
            Some(DataFormat::Parquet)
        } else if ascii_lowered(extension@) == "csv"@ {
            Some(DataFormat::Csv)
        } else {
            None::<DataFormat>
        },
{
    if lowered_equals(extension, "parquet") {
        Some(DataFormat::Parquet)
    } else if lowered_equals(extension, "csv") {
        Some(DataFormat::Csv)
    } else {
        None
    }
}

} // verus!

//! Anchors and URL segments derived from free text.

use vstd::prelude::*;
use crate::text::chars_of;
use crate::text::string_of;

verus! {

/// The lower-case form of a text, as `str::to_lowercase` gives it.
pub uninterp spec fn lowercased(text: Seq<char>) -> Seq<char>;

/// Whether a character is a letter or a digit, as `char::is_alphanumeric`
/// tells.
pub uninterp spec fn alphanumeric(c: char) -> bool;

/// `str::to_lowercase` returns the lower-case equivalent of the text as a
/// new string; the result depends on the text alone.
pub assume_specification[ str::to_lowercase ](text: &str) -> (lower: String)
    ensures
        lower@ == lowercased(text@),
;

/// `char::is_alphanumeric` tells whether the character is alphabetic or
/// numeric; the answer depends on the character alone.
pub assume_specification[ char::is_alphanumeric ](c: char) -> (b: bool)
    ensures
        b == alphanumeric(c),
;

/// The runs of kept characters among the first `n`, joined by single
/// hyphens. `keep` tells for each character whether it is kept.
///
/// A character that is not kept ends the current run. A hyphen is written
/// when the next run starts, and only if a run came before it, so the
/// result neither starts nor ends with a hyphen.
pub open spec fn joined_runs(chars: Seq<char>, keep: Seq<bool>, n: int) -> Seq<char>
    decreases n,
{
    if n <= 0 || n > chars.len() || n > keep.len() {
        Seq::empty()
    } else {
        let before = joined_runs(chars, keep, n - 1);
        if !keep[n - 1] {
            before
        } else if n >= 2 && !keep[n - 2] && before.len() > 0 {
            before.push('-').push(chars[n - 1])
        } else {
            before.push(chars[n - 1])
        }
    }
}

/// For each character, whether it is a letter or a digit.
pub open spec fn letters_and_digits(chars: Seq<char>) -> Seq<bool> {
    chars.map_values(|c: char| alphanumeric(c))
}

/// The slug of a text: the runs of letters and digits of its lower-case
/// form, joined by single hyphens.
pub open spec fn slug_of(text: Seq<char>) -> Seq<char> {
    let lower = lowercased(text);
    joined_runs(lower, letters_and_digits(lower), lower.len() as int)
}

/// Where no kept character is a hyphen, every hyphen of the result stands
/// between two characters that are no hyphens: the result neither starts
/// nor ends with a hyphen, and holds no two in a row.
pub proof fn lemma_joined_runs_shape(chars: Seq<char>, keep: Seq<bool>, n: int)
    requires
        0 <= n <= chars.len(),
        chars.len() == keep.len(),
        forall|i: int| 0 <= i < chars.len() && keep[i] ==> chars[i] != '-',
    ensures
        forall|i: int|
            0 <= i < joined_runs(chars, keep, n).len() ==> {
                let c = #[trigger] joined_runs(chars, keep, n)[i];
                c != '-' || (0 < i && i + 1 < joined_runs(chars, keep, n).len() && joined_runs(
                    chars,
                    keep,
                    n,
                )[i - 1] != '-' && joined_runs(chars, keep, n)[i + 1] != '-')
            },
        joined_runs(chars, keep, n).len() > 0 ==> joined_runs(chars, keep, n).last() != '-',
    decreases n,
{
    if n > 0 {
        lemma_joined_runs_shape(chars, keep, n - 1);
        let before = joined_runs(chars, keep, n - 1);
        let now = joined_runs(chars, keep, n);
        assert forall|i: int| 0 <= i < now.len() implies {
            let c = #[trigger] now[i];
            c != '-' || (0 < i && i + 1 < now.len() && now[i - 1] != '-' && now[i + 1] != '-')
        } by {
            if i < before.len() {
                assert(now[i] == before[i]);
                if i + 1 < before.len() {
                    assert(now[i + 1] == before[i + 1]);
                }
                if 0 < i {
                    assert(now[i - 1] == before[i - 1]);
                }
            }
        }
    }
}

/// Joins the runs of kept characters by single hyphens. `keep` tells for
/// each character whether it is kept; characters that are not kept are
/// dropped, and each stretch of them between two runs gives one hyphen.
pub fn join_runs(chars: &Vec<char>, keep: &Vec<bool>) -> (out: Vec<char>)
    requires
        chars.len() == keep.len(),
    ensures
        out@ == joined_runs(chars@, keep@, chars.len() as int),
{
    let mut out: Vec<char> = Vec::new();
    let mut i: usize = 0;
    while i < chars.len()
        invariant
            i <= chars.len(),
            chars.len() == keep.len(),
            out@ == joined_runs(chars@, keep@, i as int),
        decreases chars.len() - i,
    {
        if keep[i] {
            if i > 0 && !keep[i - 1] && out.len() > 0 {
                out.push('-');
            }
            out.push(chars[i]);
        }
        i += 1;
    }
    out
}

/// Turns a text into an anchor: lower case, every run of characters that
/// are neither letters nor digits collapsed, the remaining words joined by
/// hyphens.
pub fn slugify(text: &str) -> (slug: String)
    ensures
        slug@ == slug_of(text@),
{
    let lower = text.to_lowercase();
    let chars = chars_of(lower.as_str());
    let mut keep: Vec<bool> = Vec::new();
    let mut i: usize = 0;
    while i < chars.len()
        invariant
            i <= chars.len(),
            keep@ == letters_and_digits(chars@).take(i as int),
        decreases chars.len() - i,
    {
        keep.push(chars[i].is_alphanumeric());
        i += 1;
    }
    assert(keep@ == letters_and_digits(chars@));
    string_of(&join_runs(&chars, &keep))
}

} // verus!

//! Operations on text: small letters and trimming, which the standard
//! library computes, and searching, comparing and printing numbers,
//! which are computed here character by character.

use crate::seqs::{lemma_filter_empty, lemma_filter_step, lemma_position_is, position};
use vstd::prelude::*;

verus! {

/// The text that `str::to_lowercase` gives for a text.
pub uninterp spec fn lowercase_of(text: Seq<char>) -> Seq<char>;

/// The text that `str::trim` leaves of a text.
pub uninterp spec fn trim_of(text: Seq<char>) -> Seq<char>;

/// `needle` occurs in `hay` as a run of consecutive characters.
pub open spec fn occurs_in(hay: Seq<char>, needle: Seq<char>) -> bool {
    exists|i: int|
        0 <= i && i + needle.len() <= hay.len() && #[trigger] hay.subrange(i, i + needle.len())
            == needle
}

/// Calls `str::to_lowercase`. Trusted: the result is a function of the
/// text alone, named `lowercase_of`.
#[verifier::external_body]
pub(crate) fn lowercase(text: &str) -> (r: String)
    ensures
        r@ == lowercase_of(text@),
{
    text.to_lowercase()
}

/// Calls `str::trim`. Trusted: the result is a function of the text
/// alone, named `trim_of`.
#[verifier::external_body]
pub(crate) fn trim<'a>(text: &'a str) -> (r: &'a str)
    ensures
        r@ == trim_of(text@),
{
    text.trim()
}

/// Copies the characters of a text.
pub fn characters(text: &str) -> (r: Vec<char>)
    ensures
        r@ == text@,
{
    let n = text.unicode_len();
    let mut out: Vec<char> = Vec::new();
    let mut i: usize = 0;
    while i < n
        invariant
            i <= n,
            n == text@.len(),
            out@ == text@.take(i as int),
        decreases n - i,
    {
        out.push(text.get_char(i));
        i += 1;
        assert(out@ =~= text@.take(i as int));
    }
    assert(text@.take(n as int) =~= text@);
    out
}

/// Tells whether a run of characters stands in another at a given place.
fn stands_at(hay: &Vec<char>, needle: &Vec<char>, at: usize) -> (r: bool)
    requires
        at + needle.len() <= hay.len(),
    ensures
        r == (hay@.subrange(at as int, at + needle.len()) == needle@),
{
    let ghost part = hay@.subrange(at as int, at + needle.len());
    let mut k: usize = 0;
    while k < needle.len()
        invariant
            k <= needle.len(),
            at + needle.len() <= hay.len(),
            part == hay@.subrange(at as int, at + needle.len()),
            forall|j: int| 0 <= j < k ==> #[trigger] part[j] == needle@[j],
        decreases needle.len() - k,
    {
        if hay[at + k] != needle[k] {
            assert(part[k as int] != needle@[k as int]);
            return false;
        }
        k += 1;
    }
    assert(part =~= needle@);
    true
}

/// Tells whether a text holds another as a run of consecutive
/// characters.
pub fn contains(hay: &str, needle: &str) -> (r: bool)
    ensures
        r == occurs_in(hay@, needle@),
{
    let whole = characters(hay);
    let part = characters(needle);
    if part.len() > whole.len() {
        return false;
    }
    let last: usize = whole.len() - part.len();
    let mut i: usize = 0;
    while i < last
        invariant
            i <= last,
            last == whole.len() - part.len(),
            part.len() <= whole.len(),
            whole@ == hay@,
            part@ == needle@,
            forall|j: int| 0 <= j < i ==> #[trigger] hay@.subrange(j, j + needle@.len()) != needle@,
        decreases last - i,
    {
        if stands_at(&whole, &part, i) {
            return true;
        }
        i += 1;
    }
    stands_at(&whole, &part, last)
}

/// Tells whether a text stands in a list of texts.
pub fn list_contains(list: &Vec<String>, text: &String) -> (r: bool)
    ensures
        r == list.deep_view().contains(text@),
{
    let mut i: usize = 0;
    while i < list.len()
        invariant
            i <= list.len(),
            forall|j: int| 0 <= j < i ==> list.deep_view()[j] != text@,
        decreases list.len() - i,
    {
        if list[i] == *text {
            assert(list.deep_view()[i as int] == text@);
            return true;
        }
        i += 1;
    }
    false
}

/// Tells whether a text begins with another.
pub fn starts_with(text: &str, prefix: &str) -> (r: bool)
    ensures
        r == prefix@.is_prefix_of(text@),
{
    let whole = characters(text);
    let part = characters(prefix);
    if part.len() > whole.len() {
        return false;
    }
    stands_at(&whole, &part, 0)
}

/// Tells whether a text ends with another.
pub fn ends_with(text: &str, suffix: &str) -> (r: bool)
    ensures
        r == suffix@.is_suffix_of(text@),
{
    let whole = characters(text);
    let part = characters(suffix);
    if part.len() > whole.len() {
        return false;
    }
    stands_at(&whole, &part, whole.len() - part.len())
}

/// The character of a decimal digit.
pub open spec fn digit(d: nat) -> char {
    if d == 0 {
        '0'
    } else if d == 1 {
        '1'
    } else if d == 2 {
        '2'
    } else if d == 3 {
        '3'
    } else if d == 4 {
        '4'
    } else if d == 5 {
        '5'
    } else if d == 6 {
        '6'
    } else if d == 7 {
        '7'
    } else if d == 8 {
        '8'
    } else {
        '9'
    }
}

/// A number in decimal digits, without leading zeros.
pub open spec fn decimal(n: nat) -> Seq<char>
    decreases n,
{
    if n < 10 {
        seq![digit(n)]
    } else {
        decimal(n / 10).push(digit(n % 10))
    }
}

/// The text of a decimal digit.
fn digit_text(d: usize) -> (r: &'static str)
    requires
        d < 10,
    ensures
        r@ == seq![digit(d as nat)],
{
    proof {
        reveal_strlit("0");
        reveal_strlit("1");
        reveal_strlit("2");
        reveal_strlit("3");
        reveal_strlit("4");
        reveal_strlit("5");
        reveal_strlit("6");
        reveal_strlit("7");
        reveal_strlit("8");
        reveal_strlit("9");
    }
    let r = if d == 0 {
        "0"
    } else if d == 1 {
        "1"
    } else if d == 2 {
        "2"
    } else if d == 3 {
        "3"
    } else if d == 4 {
        "4"
    } else if d == 5 {
        "5"
    } else if d == 6 {
        "6"
    } else if d == 7 {
        "7"
    } else if d == 8 {
        "8"
    } else {
        "9"
    };
    assert(r@ =~= seq![digit(d as nat)]);
    r
}

/// Writes a number in decimal digits.
pub fn decimal_text(n: usize) -> (r: String)
    ensures
        r@ == decimal(n as nat),
    decreases n,
{
    if n < 10 {
        digit_text(n).to_owned()
    } else {
        let mut text = decimal_text(n / 10);
        text.append(digit_text(n % 10));
        assert(text@ =~= decimal(n as nat));
        text
    }
}

/// Tells whether a text is a given one.
pub fn is_text(text: &String, given: &str) -> (r: bool)
    ensures
        r == (text@ == given@),
{
    let owned = given.to_owned();
    *text == owned
}

/// Finds the first place at which a text stands in a list of texts.
pub fn find_text(list: &Vec<String>, text: &String) -> (r: Option<usize>)
    ensures
        match r {
            Some(i) => list.deep_view().contains(text@) && i == position(list.deep_view(), text@)
                && i < list.len() && list.deep_view()[i as int] == text@,
            None => !list.deep_view().contains(text@),
        },
{
    let mut i: usize = 0;
    while i < list.len()
        invariant
            i <= list.len(),
            forall|j: int| 0 <= j < i ==> #[trigger] list.deep_view()[j] != text@,
        decreases list.len() - i,
    {
        if list[i] == *text {
            proof {
                assert(list.deep_view()[i as int] == text@);
                lemma_position_is(list.deep_view(), text@, i as int);
            }
            return Some(i);
        }
        i += 1;
    }
    None
}

/// The texts of a list other than one given text, in their order.
pub open spec fn without(list: Seq<Seq<char>>, text: Seq<char>) -> Seq<Seq<char>> {
    list.filter(|s: Seq<char>| s != text)
}

/// Removes every occurrence of a text from a list of texts.
pub fn remove_text(list: &mut Vec<String>, text: &String)
    ensures
        final(list).deep_view() == without(old(list).deep_view(), text@),
{
    let mut kept: Vec<String> = Vec::new();
    let mut i: usize = 0;
    let ghost before = list.deep_view();
    let ghost keep = |s: Seq<char>| s != text@;
    proof {
        lemma_filter_empty(before.take(0), keep);
    }
    while i < list.len()
        invariant
            i <= list.len(),
            list.deep_view() == before,
            keep == |s: Seq<char>| s != text@,
            kept.deep_view() == before.take(i as int).filter(keep),
        decreases list.len() - i,
    {
        proof {
            lemma_filter_step(before, i as int, keep);
        }
        if list[i] != *text {
            let ghost shorter = kept.deep_view();
            kept.push(list[i].clone());
            assert(kept.deep_view() =~= shorter.push(list@[i as int]@));
        }
        i += 1;
    }
    assert(before.take(i as int) =~= before);
    *list = kept;
}

} // verus!

//! Small verified helpers on text: the tag character class, decimal numerals
//! and owned copies of string slices.

use vstd::prelude::*;
use vstd::string::*;

verus! {

/// A piece of text in contracts: the characters of a `String` or `&str`.
pub type Text = Seq<char>;

/// The characters a tag may be made of: `a`-`z`, `0`-`9` and the hyphen.
pub open spec fn is_tag_char(c: char) -> bool {
    ('a' <= c && c <= 'z') || ('0' <= c && c <= '9') || c == '-'
}

/// A tag is well formed when it is not empty and holds tag characters only.
pub open spec fn is_well_formed_tag(tag: Text) -> bool {
    tag.len() > 0 && forall|i: int| 0 <= i < tag.len() ==> is_tag_char(#[trigger] tag[i])
}

/// Decides whether `tag` is a non-empty run of lowercase ASCII letters,
/// ASCII digits and hyphens.
pub fn is_valid_tag(tag: &str) -> (ok: bool)
    ensures
        ok == is_well_formed_tag(tag@),
{
    let n: usize = tag.unicode_len();
    if n == 0 {
        return false;
    }
    let mut i: usize = 0;
    while i < n
        invariant
            n == tag@.len(),
            i <= n,
            forall|j: int| 0 <= j < i ==> is_tag_char(#[trigger] tag@[j]),
        decreases n - i,
    {
        let c: char = tag.get_char(i);
        let fits: bool = ('a' <= c && c <= 'z') || ('0' <= c && c <= '9') || c == '-';
        if !fits {
            return false;
        }
        i += 1;
    }
    true
}

/// The decimal digit that stands for `d`, for `d` below ten.
pub open spec fn digit_char(d: nat) -> char {
    if d == 0 { '0' }
    else if d == 1 { '1' }
    else if d == 2 { '2' }
    else if d == 3 { '3' }
    else if d == 4 { '4' }
    else if d == 5 { '5' }
    else if d == 6 { '6' }
    else if d == 7 { '7' }
    else if d == 8 { '8' }
    else { '9' }
}

/// The decimal numeral of `n`, without leading zeros; zero is written `0`.
pub open spec fn decimal(n: nat) -> Text
    decreases n,
{
    if n < 10 {
        seq![digit_char(n)]
    } else {
        decimal(n / 10).push(digit_char(n % 10))
    }
}

/// The one-character text of the decimal digit `d`.
pub(crate) fn digit_text(d: u64) -> (text: &'static str)
    requires
        d < 10,
    ensures
        text@ == seq![digit_char(d as nat)],
{
    proof {
        reveal_strlit("0");
        reveal_strlit("1");
        reveal_strlit("2");
        reveal_strlit("3");
        reveal_strlit("4");
        reveal_strlit("5");
        reveal_strlit("6");
        reveal_strlit("7");
        reveal_strlit("8");
        reveal_strlit("9");
    }
    let text: &'static str = if d == 0 {
        "0"
    } else if d == 1 {
        "1"
    } else if d == 2 {
        "2"
    } else if d == 3 {
        "3"
    } else if d == 4 {
        "4"
    } else if d == 5 {
        "5"
    } else if d == 6 {
        "6"
    } else if d == 7 {
        "7"
    } else if d == 8 {
        "8"
    } else {
        "9"
    };
    assert(text@ =~= seq![digit_char(d as nat)]);
    text
}

/// Writes `n` as a decimal numeral.
pub fn format_decimal(n: u64) -> (numeral: String)
    ensures
        numeral@ == decimal(n as nat),
    decreases n,
{
    if n < 10 {
        String::from_str(digit_text(n))
    } else {
        let mut numeral: String = format_decimal(n / 10);
        numeral.append(digit_text(n % 10));
        assert(numeral@ =~= decimal(n as nat));
        numeral
    }
}

} // verus!

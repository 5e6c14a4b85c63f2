//! Text: concatenation, numbers in decimal, and search.
use vstd::prelude::*;
use vstd::string::*;

verus! {

/// The digit that stands for a number below ten.
pub open spec fn digit(d: nat) -> char {
    if d == 0 {
        '0'
    } else if d == 1 {
        '1'
    } else if d == 2 {
        '2'
    } else if d == 3 {
        '3'
    } else if d == 4 {
        '4'
    } else if d == 5 {
        '5'
    } else if d == 6 {
        '6'
    } else if d == 7 {
        '7'
    } else if d == 8 {
        '8'
    } else {
        '9'
    }
}

/// A number in decimal, without leading zeros.
pub open spec fn decimal(n: nat) -> Seq<char>
    decreases n,
{
    if n < 10 {
        seq![digit(n)]
    } else {
        decimal(n / 10).push(digit(n % 10))
    }
}

/// `needle` stands somewhere in `text`.
pub open spec fn contains(text: Seq<char>, needle: Seq<char>) -> bool {
    exists|i: int|
        0 <= i <= text.len() - needle.len() && #[trigger] text.subrange(i, i + needle.len())
            == needle
}

fn digit_text(d: usize) -> (r: &'static str)
    requires
        d < 10,
    ensures
        r@ == seq![digit(d as nat)],
{
    proof {
        reveal_strlit("0");
        reveal_strlit("1");
        reveal_strlit("2");
        reveal_strlit("3");
        reveal_strlit("4");
        reveal_strlit("5");
        reveal_strlit("6");
        reveal_strlit("7");
        reveal_strlit("8");
        reveal_strlit("9");
    }
    if d == 0 {
        "0"
    } else if d == 1 {
        "1"
    } else if d == 2 {
        "2"
    } else if d == 3 {
        "3"
    } else if d == 4 {
        "4"
    } else if d == 5 {
        "5"
    } else if d == 6 {
        "6"
    } else if d == 7 {
        "7"
    } else if d == 8 {
        "8"
    } else {
        "9"
    }
}

/// Writes a number in decimal.
pub fn decimal_text(n: usize) -> (r: String)
    ensures
        r@ == decimal(n as nat),
    decreases n,
{
    if n < 10 {
        digit_text(n).to_owned()
    } else {
        let head = decimal_text(n / 10);
        head.concat(digit_text(n % 10))
    }
}

/// Joins two pieces of text.
pub fn join(a: &str, b: &str) -> (r: String)
    ensures
        r@ == a@ + b@,
{
    a.to_owned().concat(b)
}

/// `needle` stands in `text` at character `at`.
fn stands_at(text: &str, needle: &str, at: usize) -> (r: bool)
    requires
        at + needle@.len() <= text@.len(),
        text@.len() <= usize::MAX,
    ensures
        r == (text@.subrange(at as int, at + needle@.len()) == needle@),
{
    let n: usize = needle.unicode_len();
    let mut i: usize = 0;
    while i < n
        invariant
            n == needle@.len(),
            i <= n,
            at + n <= text@.len() <= usize::MAX,
            forall|j: int| 0 <= j < i ==> text@[at + j] == needle@[j],
        decreases n - i,
    {
        if text.get_char(at + i) != needle.get_char(i) {
            assert(text@.subrange(at as int, at + needle@.len())[i as int] == text@[at + i]);
            return false;
        }
        i = i + 1;
    }
    assert(text@.subrange(at as int, at + needle@.len()) =~= needle@);
    true
}

/// Searches `text` for `needle`.
pub fn contains_text(text: &str, needle: &str) -> (r: bool)
    ensures
        r == contains(text@, needle@),
{
    let len: usize = text.unicode_len();
    let n: usize = needle.unicode_len();
    if n > len {
        return false;
    }
    let mut at: usize = 0;
    while at <= len - n
        invariant
            len == text@.len(),
            n == needle@.len(),
            n <= len,
            at <= len - n + 1,
            forall|j: int|
                0 <= j < at ==> #[trigger] text@.subrange(j, j + needle@.len()) != needle@,
        decreases len - n + 1 - at,
    {
        if stands_at(text, needle, at) {
            return true;
        }
        if at == len - n {
            return false;
        }
        at = at + 1;
    }
    false
}

/// Every character of a number in decimal is the digit that the number has at its
/// place, counted from the right.
pub proof fn decimal_has_the_digits(n: nat, place: nat)
    requires
        place < decimal(n).len(),
    ensures
        decimal(n)[decimal(n).len() - 1 - place] as int == '0' as int + (n as int
            / vstd::arithmetic::power::pow(10, place)) % 10,
    decreases n,
{
    if place == 0 {
        vstd::arithmetic::power::lemma_pow0(10);
    } else {
        let head = (n / 10) as nat;
        let before = (place - 1) as nat;
        decimal_has_the_digits(head, before);
        let unit = vstd::arithmetic::power::pow(10, before);
        vstd::arithmetic::power::lemma_pow_positive(10, before);
        reveal(vstd::arithmetic::power::pow);
        assert(vstd::arithmetic::power::pow(10, place) == 10 * unit);
        vstd::arithmetic::div_mod::lemma_div_denominator(n as int, 10, unit);
    }
}

/// A number in decimal is as long as it has to be: it has a digit, and no leading zero
/// unless it is zero.
pub proof fn decimal_is_as_long_as_the_number(n: nat)
    ensures
        decimal(n).len() > 0,
        (n as int) < vstd::arithmetic::power::pow(10, decimal(n).len()),
        n > 0 ==> vstd::arithmetic::power::pow(10, (decimal(n).len() - 1) as nat) <= n,
        n == 0 ==> decimal(n).len() == 1,
    decreases n,
{
    reveal(vstd::arithmetic::power::pow);
    if n < 10 {
        vstd::arithmetic::power::lemma_pow0(10);
        vstd::arithmetic::power::lemma_pow1(10);
    } else {
        let head = (n / 10) as nat;
        decimal_is_as_long_as_the_number(head);
        let len = decimal(head).len();
        assert(vstd::arithmetic::power::pow(10, len + 1) == 10 * vstd::arithmetic::power::pow(
            10,
            len,
        ));
        assert(vstd::arithmetic::power::pow(10, len) == 10 * vstd::arithmetic::power::pow(
            10,
            (len - 1) as nat,
        ));
    }
}

/// Text is found exactly where it stands between two other pieces, which may be empty.
pub proof fn found_between_two_pieces(
    text: Seq<char>,
    before: Seq<char>,
    needle: Seq<char>,
    after: Seq<char>,
)
    ensures
        contains(before + needle + after, needle),
        contains(text, needle) ==> exists|at: int|
            0 <= at <= text.len() - needle.len() && text == #[trigger] text.take(at) + needle
                + text.skip(at + needle.len()),
{
    let whole = before + needle + after;
    let at = before.len() as int;
    assert(whole.subrange(at, at + needle.len()) =~= needle);
    if contains(text, needle) {
        let i = choose|i: int|
            0 <= i <= text.len() - needle.len() && #[trigger] text.subrange(i, i + needle.len())
                == needle;
        assert(text =~= text.take(i) + text.subrange(i, i + needle.len()) + text.skip(
            i + needle.len(),
        ));
    }
}

/// Different numbers are written differently.
pub proof fn decimal_tells_the_number(a: nat, b: nat)
    requires
        decimal(a) == decimal(b),
    ensures
        a == b,
    decreases a,
{
    decimal_is_as_long_as_the_number(a);
    decimal_is_as_long_as_the_number(b);
    decimal_has_the_digits(a, 0);
    decimal_has_the_digits(b, 0);
    vstd::arithmetic::power::lemma_pow0(10);
    if a >= 10 && b >= 10 {
        assert(decimal(a).drop_last() =~= decimal((a / 10) as nat));
        assert(decimal(b).drop_last() =~= decimal((b / 10) as nat));
        decimal_tells_the_number((a / 10) as nat, (b / 10) as nat);
    } else if a >= 10 {
        decimal_is_as_long_as_the_number((a / 10) as nat);
    } else if b >= 10 {
        decimal_is_as_long_as_the_number((b / 10) as nat);
    }
}

} // verus!

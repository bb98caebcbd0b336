//! Text: looking for a piece of text in another, and writing numbers.
use vstd::prelude::*;
use vstd::string::*;

verus! {

/// Whether `pattern` occurs in `text`.
pub open spec fn occurs_in(pattern: Seq<char>, text: Seq<char>) -> bool {
    exists|i: int| #[trigger] occurs_at(pattern, text, i)
}

/// Whether `pattern` stands in `text` at place `i`.
pub open spec fn occurs_at(pattern: Seq<char>, text: Seq<char>, i: int) -> bool {
    0 <= i && i + pattern.len() <= text.len() && text.subrange(i, i + pattern.len()) == pattern
}

/// The decimal digits of a number, without leading zeros.
pub open spec fn decimal(n: nat) -> Seq<char>
    decreases n,
{
    if n < 10 {
        seq![digit(n)]
    } else {
        decimal(n / 10).push(digit(n % 10))
    }
}

/// The decimal digit of a number below ten.
pub open spec fn digit(n: nat) -> char {
    (48 + n) as char
}

/// The number that a text of decimal digits stands for.
pub open spec fn number(digits: Seq<char>) -> int
    decreases digits.len(),
{
    if digits.len() == 0 {
        0
    } else {
        10 * number(digits.drop_last()) + (digits.last() as int - 48)
    }
}

/// The characters of a text.
pub fn chars_of(text: &str) -> (r: Vec<char>)
    ensures
        r@ == text@,
{
    let mut r: Vec<char> = Vec::new();
    for c in it: text.chars()
        invariant
            r@ == it.seq().take(it.index() as int),
            it.seq() == text@,
    {
        r.push(c);
    }
    r
}

/// Whether `p` stands in `t` at place `i`.
fn stands_at(t: &Vec<char>, p: &Vec<char>, i: usize) -> (r: bool)
    requires
        i + p@.len() <= t@.len(),
    ensures
        r == occurs_at(p@, t@, i as int),
{
    let len: usize = t.len();
    let mut k: usize = 0;
    while k < p.len()
        invariant
            k <= p@.len(),
            i + p@.len() <= len == t@.len(),
            forall|j: int| 0 <= j < k ==> t@[i + j] == p@[j],
        decreases p@.len() - k,
    {
        if t[i + k] != p[k] {
            assert(t@.subrange(i as int, i + p@.len())[k as int] != p@[k as int]);
            return false;
        }
        k = k + 1;
    }
    assert(t@.subrange(i as int, i + p@.len()) =~= p@);
    true
}

/// Whether `pattern` occurs in `text`.
pub fn contains(text: &str, pattern: &str) -> (r: bool)
    ensures
        r == occurs_in(pattern@, text@),
{
    let t = chars_of(text);
    let p = chars_of(pattern);
    if p.len() == 0 {
        assert(text@.subrange(0, 0) =~= pattern@);
        assert(occurs_at(pattern@, text@, 0));
        return true;
    }
    let mut i: usize = 0;
    while i < t.len() && t.len() - i >= p.len()
        invariant
            t@ == text@,
            p@ == pattern@,
            i <= t@.len(),
            forall|k: int| 0 <= k < i ==> !occurs_at(pattern@, text@, k),
        decreases t@.len() - i,
    {
        if stands_at(&t, &p, i) {
            return true;
        }
        i = i + 1;
    }
    false
}

/// The decimal digit of a number below ten.
fn digit_text(n: u16) -> (r: &'static str)
    requires
        n < 10,
    ensures
        r@ == seq![digit(n as nat)],
{
    proof {
        reveal_strlit("0");
        reveal_strlit("1");
        reveal_strlit("2");
        reveal_strlit("3");
        reveal_strlit("4");
        reveal_strlit("5");
        reveal_strlit("6");
        reveal_strlit("7");
        reveal_strlit("8");
        reveal_strlit("9");
    }
    let r = match n {
        0 => "0",
        1 => "1",
        2 => "2",
        3 => "3",
        4 => "4",
        5 => "5",
        6 => "6",
        7 => "7",
        8 => "8",
        _ => "9",
    };
    assert(r@ =~= seq![digit(n as nat)]);
    r
}

/// A number in decimal digits.
pub fn decimal_text(n: u16) -> (r: String)
    ensures
        r@ == decimal(n as nat),
    decreases n,
{
    if n < 10 {
        digit_text(n).to_string()
    } else {
        let mut r = decimal_text(n / 10);
        r.append(digit_text(n % 10));
        assert(r@ =~= decimal(n as nat));
        r
    }
}

/// The decimal digits of a number stand for that number, so no two numbers are written alike.
pub proof fn law_decimal_stands_for_number(n: nat)
    ensures
        number(decimal(n)) == n,
    decreases n,
{
    let all = decimal(n);
    if n < 10 {
        assert(all.drop_last() =~= Seq::empty());
        assert(number(all.drop_last()) == 0);
    } else {
        law_decimal_stands_for_number(n / 10);
        assert(all.drop_last() =~= decimal(n / 10));
    }
}

/// A text holds a pattern wherever the pattern stands with something before it and something after it,
/// and nowhere else.
pub proof fn law_occurrence_has_text_around_it(pattern: Seq<char>, text: Seq<char>)
    ensures
        occurs_in(pattern, text) <==> exists|before: Seq<char>, after: Seq<char>|
            #[trigger] (before + pattern + after) == text,
{
    if occurs_in(pattern, text) {
        let i = choose|i: int| #[trigger] occurs_at(pattern, text, i);
        let before = text.take(i);
        let after = text.skip(i + pattern.len());
        assert(before + pattern + after =~= text);
    }
    if exists|before: Seq<char>, after: Seq<char>| #[trigger] (before + pattern + after) == text {
        let (before, after) = choose|before: Seq<char>, after: Seq<char>| #[trigger]
            (before + pattern + after) == text;
        let i = before.len() as int;
        assert(text.subrange(i, i + pattern.len()) =~= pattern);
        assert(occurs_at(pattern, text, i));
    }
}

/// A number is written with the digits from `0` to `9`, the last of which is its remainder by ten, and
/// begins with `0` only where it is zero.
pub proof fn law_decimal_has_digits(n: nat, i: int)
    requires
        0 <= i < decimal(n).len(),
    ensures
        '0' <= decimal(n)[i] <= '9',
        decimal(n).last() as int == '0' as int + n % 10,
        decimal(n)[0] == '0' ==> n == 0,
    decreases n,
{
    if n >= 10 {
        law_decimal_has_digits(n / 10, 0);
        if i < decimal(n / 10).len() {
            law_decimal_has_digits(n / 10, i);
        }
        lemma_decimal_len(n / 10);
    }
}

proof fn lemma_decimal_len(n: nat)
    ensures
        decimal(n).len() > 0,
{
}

} // verus!

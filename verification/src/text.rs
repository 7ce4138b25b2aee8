//! Text: the pieces that file names are matched on and messages are made of.

use vstd::prelude::*;

verus! {

/// `name` begins with `prefix`.
pub open spec fn starts_with(name: Seq<char>, prefix: Seq<char>) -> bool {
    prefix.len() <= name.len() && name.take(prefix.len() as int) == prefix
}

/// `name` ends with `suffix`.
pub open spec fn ends_with(name: Seq<char>, suffix: Seq<char>) -> bool {
    suffix.len() <= name.len() && name.skip(name.len() - suffix.len()) == suffix
}

/// The decimal digits of `n`, most significant first.
pub open spec fn decimal(n: nat) -> Seq<char>
    decreases n,
{
    if n < 10 {
        seq![digit(n)]
    } else {
        decimal(n / 10).push(digit(n % 10))
    }
}

/// The digit that stands for a number below ten.
pub open spec fn digit(n: nat) -> char {
    ('0' as u32 + n) as char
}

/// Whether the characters of `part` stand in `name` from position `at` on.
fn matches_at(name: &str, at: usize, part: &str) -> (found: bool)
    requires
        at + part@.len() <= name@.len(),
    ensures
        found == (name@.subrange(at as int, at + part@.len()) == part@),
{
    let total: usize = name.unicode_len();
    let len: usize = part.unicode_len();
    let mut i: usize = 0;
    while i < len
        invariant
            total == name@.len(),
            len == part@.len(),
            i <= len,
            at + len <= total,
            forall|k: int| 0 <= k < i ==> name@[at + k] == part@[k],
        decreases len - i,
    {
        if name.get_char(at + i) != part.get_char(i) {
            proof {
                let seen = name@.subrange(at as int, at + part@.len());
                assert(seen[i as int] == name@[at + i]);
            }
            return false;
        }
        i += 1;
    }
    assert(name@.subrange(at as int, at + part@.len()) =~= part@);
    true
}

/// Whether `name` begins with `prefix`.
pub fn has_prefix(name: &str, prefix: &str) -> (found: bool)
    ensures
        found == starts_with(name@, prefix@),
{
    if name.unicode_len() < prefix.unicode_len() {
        return false;
    }
    assert(name@.take(prefix@.len() as int) =~= name@.subrange(0, prefix@.len() as int));
    matches_at(name, 0, prefix)
}

/// Whether `name` ends with `suffix`.
pub fn has_suffix(name: &str, suffix: &str) -> (found: bool)
    ensures
        found == ends_with(name@, suffix@),
{
    let name_len: usize = name.unicode_len();
    let suffix_len: usize = suffix.unicode_len();
    if name_len < suffix_len {
        return false;
    }
    let at: usize = name_len - suffix_len;
    assert(name@.skip(at as int) =~= name@.subrange(at as int, at + suffix@.len()));
    matches_at(name, at, suffix)
}

/// `first` followed by `second`.
pub fn join(first: &str, second: &str) -> (text: String)
    ensures
        text@ == first@ + second@,
{
    String::from_str(first).concat(second)
}

/// The text of a digit.
fn digit_text(n: usize) -> (text: &'static str)
    requires
        n < 10,
    ensures
        text@ == seq![digit(n as nat)],
{
    proof {
        reveal_strlit("0");
        reveal_strlit("1");
        reveal_strlit("2");
        reveal_strlit("3");
        reveal_strlit("4");
        reveal_strlit("5");
        reveal_strlit("6");
        reveal_strlit("7");
        reveal_strlit("8");
        reveal_strlit("9");
    }
    match n {
        0 => "0",
        1 => "1",
        2 => "2",
        3 => "3",
        4 => "4",
        5 => "5",
        6 => "6",
        7 => "7",
        8 => "8",
        _ => "9",
    }
}

/// The text of a number.
pub fn number_text(n: usize) -> (text: String)
    ensures
        text@ == decimal(n as nat),
    decreases n,
{
    if n < 10 {
        String::from_str(digit_text(n))
    } else {
        let text = number_text(n / 10).concat(digit_text(n % 10));
        assert(text@ =~= decimal((n / 10) as nat).push(digit((n % 10) as nat)));
        text
    }
}

/// The number that decimal digits stand for.
pub open spec fn number(digits: Seq<char>) -> int
    decreases digits.len(),
{
    if digits.len() == 0 {
        0
    } else {
        10 * number(digits.drop_last()) + (digits.last() as u32 - '0' as u32)
    }
}

/// The text of a number is made of digits, stands for the number, and has no zero in
/// front.
pub proof fn law_decimal_reads_back(n: nat)
    ensures
        number(decimal(n)) == n,
        decimal(n).len() > 0,
        forall|i: int|
            0 <= i < decimal(n).len() ==> '0' as u32 <= #[trigger] decimal(n)[i] as u32 <= '9' as u32,
        decimal(n).len() > 1 ==> decimal(n)[0] != '0',
    decreases n,
{
    let front = decimal(n).drop_last();
    if n < 10 {
        assert(front =~= Seq::<char>::empty());
        assert(number(front) == 0);
        assert(decimal(n).last() == digit(n));
    } else {
        law_decimal_reads_back(n / 10);
        assert(front =~= decimal(n / 10));
        assert(decimal(n).last() == digit(n % 10));
        if front.len() == 1 {
            assert(front.drop_last() =~= Seq::<char>::empty());
            assert(number(front.drop_last()) == 0);
        }
    }
}

/// A name begins with whatever it is a continuation of, and with nothing else.
pub proof fn law_prefix_is_continued(name: Seq<char>, prefix: Seq<char>)
    ensures
        starts_with(name, prefix) <==> exists|rest: Seq<char>| name == #[trigger] (prefix + rest),
{
    if starts_with(name, prefix) {
        assert(name =~= prefix + name.skip(prefix.len() as int));
    }
    assert forall|rest: Seq<char>| name == #[trigger] (prefix + rest) implies starts_with(
        name,
        prefix,
    ) by {
        assert((prefix + rest).take(prefix.len() as int) =~= prefix);
    }
}

/// A name ends with whatever completes it, and with nothing else.
pub proof fn law_suffix_completes(name: Seq<char>, suffix: Seq<char>)
    ensures
        ends_with(name, suffix) <==> exists|start: Seq<char>| name == #[trigger] (start + suffix),
{
    if ends_with(name, suffix) {
        assert(name =~= name.take(name.len() - suffix.len()) + suffix);
    }
    assert forall|start: Seq<char>| name == #[trigger] (start + suffix) implies ends_with(
        name,
        suffix,
    ) by {
        assert((start + suffix).skip(start.len() as int) =~= suffix);
    }
}

} // verus!

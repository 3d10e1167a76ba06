//! Small verified helpers on strings.

use vstd::prelude::*;

verus! {

/// The text `prefix.suffix`: how a field is named inside a namespace.
pub open spec fn dotted(prefix: Seq<char>, suffix: Seq<char>) -> Seq<char> {
    prefix + seq!['.'] + suffix
}

/// The views of a list of strings, one for one.
pub open spec fn texts(list: Seq<String>) -> Seq<Seq<char>> {
    list.map_values(|s: String| s@)
}

/// A dotted name has one prefix for each suffix.
pub proof fn lemma_dotted_prefix(a: Seq<char>, b: Seq<char>, suffix: Seq<char>)
    ensures
        dotted(a, suffix) == dotted(b, suffix) ==> a == b,
{
    if dotted(a, suffix) == dotted(b, suffix) {
        assert(dotted(a, suffix).len() == a.len() + 1 + suffix.len());
        assert(dotted(b, suffix).len() == b.len() + 1 + suffix.len());
        assert(a =~= dotted(a, suffix).subrange(0, a.len() as int));
        assert(b =~= dotted(b, suffix).subrange(0, b.len() as int));
    }
}

/// Whether two strings hold the same characters.
pub fn str_eq(a: &str, b: &str) -> (r: bool)
    ensures
        r == (a@ == b@),
{
    let x = a.to_owned();
    let y = b.to_owned();
    x == y
}

/// Builds `prefix.suffix`.
pub fn join_dotted(prefix: &str, suffix: &str) -> (r: String)
    ensures
        r@ == dotted(prefix@, suffix@),
{
    proof {
        reveal_strlit(".");
    }
    let mut out = prefix.to_owned();
    out.append(".");
    out.append(suffix);
    assert(out@ =~= dotted(prefix@, suffix@));
    out
}

/// Copies a list of strings.
pub fn clone_strings(list: &Vec<String>) -> (r: Vec<String>)
    ensures
        texts(r@) == texts(list@),
{
    let mut out: Vec<String> = Vec::new();
    let mut i: usize = 0;
    while i < list.len()
        invariant
            i <= list.len(),
            out@.len() == i,
            forall|j: int| 0 <= j < i ==> out@[j]@ == list@[j]@,
        decreases list.len() - i,
    {
        out.push(list[i].clone());
        i += 1;
    }
    assert(texts(out@) =~= texts(list@));
    out
}

/// The number that a text of decimal digits stands for.
pub open spec fn decimal(digits: Seq<char>) -> nat
    decreases digits.len(),
{
    if digits.len() == 0 {
        0
    } else {
        (decimal(digits.drop_last()) * 10 + (digits.last() as u32 - '0' as u32)) as nat
    }
}

/// Whether a character is a decimal digit.
pub open spec fn is_digit(c: char) -> bool {
    '0' as u32 <= c as u32 && c as u32 <= '9' as u32
}

/// Whether a text holds decimal digits, at least one, and nothing else.
pub open spec fn all_digits(text: Seq<char>) -> bool {
    text.len() > 0 && forall|i: int| 0 <= i < text.len() ==> is_digit(#[trigger] text[i])
}

/// A text without the `+` that it may begin with.
pub open spec fn unsigned(text: Seq<char>) -> Seq<char> {
    if text.len() > 0 && text[0] == '+' {
        text.drop_first()
    } else {
        text
    }
}

/// The unsigned number that a text holds: decimal digits, at least one, with
/// or without a `+` before them, and nothing else; and no more than fits.
pub open spec fn u64_of_text(text: Seq<char>) -> Option<u64> {
    if all_digits(unsigned(text)) && decimal(unsigned(text)) <= u64::MAX {
        Some(decimal(unsigned(text)) as u64)
    } else {
        None
    }
}

/// More digits do not make a number smaller.
pub proof fn lemma_decimal_grows(digits: Seq<char>, n: int)
    requires
        0 <= n <= digits.len(),
        forall|i: int| 0 <= i < digits.len() ==> is_digit(#[trigger] digits[i]),
    ensures
        decimal(digits.take(n)) <= decimal(digits),
    decreases digits.len(),
{
    if n < digits.len() {
        let rest = digits.drop_last();
        assert(digits.take(n) =~= rest.take(n));
        assert forall|i: int| 0 <= i < rest.len() implies is_digit(#[trigger] rest[i]) by {
            assert(rest[i] == digits[i]);
        }
        lemma_decimal_grows(rest, n);
        assert(is_digit(digits[digits.len() - 1]));
    } else {
        assert(digits.take(n) =~= digits);
    }
}

/// Reads an unsigned number: decimal digits after an optional `+`. An empty
/// text, any other character, and a number that does not fit are refused.
pub fn parse_u64(text: &str) -> (r: Option<u64>)
    ensures
        r == u64_of_text(text@),
{
    let ghost all = text@;
    let mut value: u64 = 0;
    let mut plus = false;
    let mut any = false;
    let ghost mut seen: int = 0;
    for c in it: text.chars()
        invariant
            it.seq() == all,
            all == text@,
            0 <= seen <= it.index(),
            any == (seen > 0),
            plus ==> it.index() > 0 && all[0] == '+',
            !plus && it.index() > 0 ==> all[0] != '+',
            seen == it.index() - (if plus { 1int } else { 0int }),
            value == decimal(all.subrange(it.index() - seen, it.index() as int)),
            forall|i: int| it.index() - seen <= i < it.index() ==> is_digit(#[trigger] all[i]),
    {
        let ghost k = it.index() as int;
        let ghost start = k - seen;
        if !any && !plus && c == '+' {
            plus = true;
            assert(all.subrange(1, 1) =~= Seq::<char>::empty());
        } else {
            let code = c as u32;
            if code < 48 || code > 57 {
                proof {
                    let digits = unsigned(all);
                    assert(digits[k - start] == all[k]);
                    assert(!is_digit(digits[k - start]));
                }
                return None;
            }
            let digit = (code - 48) as u64;
            proof {
                let upto = all.subrange(start, k + 1);
                assert(upto.drop_last() =~= all.subrange(start, k));
                assert(upto.last() == all[k]);
                assert(decimal(upto) == value * 10 + digit);
            }
            if value > (u64::MAX - digit) / 10 {
                proof {
                    let digits = unsigned(all);
                    assert(digits =~= all.subrange(start, all.len() as int));
                    if all_digits(digits) {
                        assert(digits.take(k + 1 - start) =~= all.subrange(start, k + 1));
                        lemma_decimal_grows(digits, k + 1 - start);
                    }
                }
                return None;
            }
            value = value * 10 + digit;
            any = true;
            proof {
                seen = seen + 1;
            }
        }
    }
    proof {
        let digits = unsigned(all);
        let start = all.len() - seen;
        assert(digits =~= all.subrange(start, all.len() as int));
    }
    if any {
        Some(value)
    } else {
        None
    }
}

} // verus!

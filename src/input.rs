//! Interpretation of the lines a user types at the prompts.
use vstd::prelude::*;
use vstd::string::StrSliceExecFns;

use crate::todo::{trim_of, trimmed};

verus! {

/// What `str::to_lowercase` returns for a given text.
pub uninterp spec fn lower_of(s: Seq<char>) -> Seq<char>;

/// Relies on `str::to_lowercase`: the lowercase form of the text, which
/// depends on the characters alone.
#[verifier::external_body]
fn lowercased(s: &str) -> (r: String)
    ensures
        r@ == lower_of(s@),
{
    s.to_lowercase()
}

/// The choices of the main menu.
#[derive(PartialEq, Eq, Structural, Debug, Clone, Copy)]
pub enum MenuChoice {
    Create,
    List,
    Update,
    Delete,
    Exit,
    Invalid,
}

/// The text is the single character `c`.
pub open spec fn is_single(s: Seq<char>, c: char) -> bool {
    s.len() == 1 && s[0] == c
}

/// The menu choice that a trimmed line names.
pub open spec fn choice_of(s: Seq<char>) -> MenuChoice {
    if is_single(s, '1') {
        MenuChoice::Create
    } else if is_single(s, '2') {
        MenuChoice::List
    } else if is_single(s, '3') {
        MenuChoice::Update
    } else if is_single(s, '4') {
        MenuChoice::Delete
    } else if is_single(s, '5') {
        MenuChoice::Exit
    } else {
        MenuChoice::Invalid
    }
}

/// The completion state that a normalized answer names: "y" is true, "n" is
/// false, anything else names none.
pub open spec fn flag_value(s: Seq<char>) -> Option<bool> {
    if is_single(s, 'y') {
        Some(true)
    } else if is_single(s, 'n') {
        Some(false)
    } else {
        None
    }
}

/// The menu choice named by a line that is already trimmed.
pub fn menu_choice_of(s: &str) -> (r: MenuChoice)
    ensures
        r == choice_of(s@),
{
    if s.unicode_len() != 1 {
        return MenuChoice::Invalid;
    }
    let c = s.get_char(0);
    if c == '1' {
        MenuChoice::Create
    } else if c == '2' {
        MenuChoice::List
    } else if c == '3' {
        MenuChoice::Update
    } else if c == '4' {
        MenuChoice::Delete
    } else if c == '5' {
        MenuChoice::Exit
    } else {
        MenuChoice::Invalid
    }
}

/// The menu choice named by a raw line: surrounding whitespace is ignored.
pub fn parse_menu_choice(line: &str) -> (r: MenuChoice)
    ensures
        r == choice_of(trim_of(line@)),
{
    let t = trimmed(line);
    menu_choice_of(t)
}

/// The completion state named by an answer that is already trimmed and in
/// lowercase.
pub fn completion_of(s: &str) -> (r: Option<bool>)
    ensures
        r == flag_value(s@),
{
    if s.unicode_len() != 1 {
        return None;
    }
    let c = s.get_char(0);
    if c == 'y' {
        Some(true)
    } else if c == 'n' {
        Some(false)
    } else {
        None
    }
}

/// The completion state named by a raw answer: surrounding whitespace and
/// case are ignored.
pub fn parse_completed_flag(answer: &str) -> (r: Option<bool>)
    ensures
        r == flag_value(lower_of(trim_of(answer@))),
{
    let t = trimmed(answer);
    let l = lowercased(t);
    completion_of(l.as_str())
}

/// `c` is one of the ASCII decimal digits.
pub open spec fn is_digit(c: char) -> bool {
    '0' <= c && c <= '9'
}

/// The value of the decimal digit `c`.
pub open spec fn digit_value(c: char) -> nat {
    (c as u32 - '0' as u32) as nat
}

/// The value of a string of decimal digits, read most significant first.
pub open spec fn digits_value(s: Seq<char>) -> nat
    decreases s.len(),
{
    if s.len() == 0 {
        0
    } else {
        digits_value(s.drop_last()) * 10 + digit_value(s.last())
    }
}

/// The text without a leading plus sign, if it has one.
pub open spec fn unsigned_part(s: Seq<char>) -> Seq<char> {
    if s.len() > 0 && s[0] == '+' {
        s.drop_first()
    } else {
        s
    }
}

/// The id that a text names: one or more decimal digits, optionally led by
/// a plus sign, whose value fits in a `u64`.
pub open spec fn id_of_text(s: Seq<char>) -> Option<u64> {
    let d = unsigned_part(s);
    if d.len() > 0 && (forall|i: int| 0 <= i < d.len() ==> is_digit(#[trigger] d[i]))
        && digits_value(d) <= u64::MAX {
        Some(digits_value(d) as u64)
    } else {
        None
    }
}

/// Extending a string of digits never lowers its value.
proof fn lemma_digits_value_prefix(s: Seq<char>, k: int)
    requires
        0 <= k <= s.len(),
    ensures
        digits_value(s.take(k)) <= digits_value(s),
    decreases s.len(),
{
    if k < s.len() {
        lemma_digits_value_prefix(s.drop_last(), k);
        assert(s.drop_last().take(k) =~= s.take(k));
    } else {
        assert(s.take(k) =~= s);
    }
}

/// The id that `text` names, or `None` where it names none.
pub fn parse_id(text: &str) -> (r: Option<u64>)
    ensures
        r == id_of_text(text@),
{
    let n = text.unicode_len();
    let start: usize = if n > 0 && text.get_char(0) == '+' {
        1
    } else {
        0
    };
    let ghost d = unsigned_part(text@);
    assert(d =~= text@.subrange(start as int, n as int));
    if start == n {
        return None;
    }
    let mut acc: u64 = 0;
    let mut i: usize = start;
    while i < n
        invariant
            start <= i <= n,
            n == text@.len(),
            d == text@.subrange(start as int, n as int),
            d == unsigned_part(text@),
            acc as nat == digits_value(d.take(i - start)),
            forall|j: int| 0 <= j < i - start ==> is_digit(#[trigger] d[j]),
        decreases n - i,
    {
        let c = text.get_char(i);
        assert(d[i - start] == c);
        if c < '0' || c > '9' {
            assert(!is_digit(d[i - start]));
            return None;
        }
        let v: u64 = (c as u32 - '0' as u32) as u64;
        let ghost next = d.take(i + 1 - start);
        assert(next.drop_last() =~= d.take(i - start));
        assert(digits_value(next) == acc as nat * 10 + v as nat);
        if acc > (u64::MAX - v) / 10 {
            assert(acc as nat * 10 + v as nat > u64::MAX) by (nonlinear_arith)
                requires
                    acc > (u64::MAX - v) / 10,
                    v <= 9,
            ;
            proof {
                lemma_digits_value_prefix(d, i + 1 - start);
            }
            assert(digits_value(d) > u64::MAX);
            return None;
        }
        assert(acc as nat * 10 + v as nat <= u64::MAX) by (nonlinear_arith)
            requires
                acc <= (u64::MAX - v) / 10,
                v <= 9,
        ;
        acc = acc * 10 + v;
        i = i + 1;
    }
    assert(d.take(n - start) =~= d);
    Some(acc)
}

} // verus!

use vstd::prelude::*;
use vstd::string::*;

verus! {

/// Compares two strings character by character.
pub fn str_equals(a: &str, b: &str) -> (r: bool)
    ensures
        r == (a@ == b@),
{
    let n = a.unicode_len();
    if n != b.unicode_len() {
        return false;
    }
    let mut i: usize = 0;
    while i < n
        invariant
            n == a@.len(),
            n == b@.len(),
            i <= n,
            forall|j: int| 0 <= j < i ==> a@[j] == b@[j],
        decreases n - i,
    {
        if a.get_char(i) != b.get_char(i) {
            return false;
        }
        i = i + 1;
    }
    assert(a@ =~= b@);
    true
}

/// Builds `prefix + middle + suffix` as a new string.
pub fn concat3(prefix: &str, middle: &str, suffix: &str) -> (r: String)
    ensures
        r@ == prefix@ + middle@ + suffix@,
{
    let mut s = String::from_str(prefix);
    s.append(middle);
    s.append(suffix);
    s
}

pub open spec fn digit_char(d: int) -> char {
    seq!['0', '1', '2', '3', '4', '5', '6', '7', '8', '9'][d]
}

/// The decimal digits of `n`, most significant first, without leading zeros.
pub open spec fn digits(n: nat) -> Seq<char>
    decreases n,
{
    if n < 10 {
        seq![digit_char(n as int)]
    } else {
        digits(n / 10).push(digit_char((n % 10) as int))
    }
}

/// `n` written in decimal, with a leading '-' when negative.
pub open spec fn decimal(n: int) -> Seq<char> {
    if n < 0 {
        seq!['-'] + digits((-n) as nat)
    } else {
        digits(n as nat)
    }
}

fn digit_text(d: u64) -> (r: &'static str)
    requires
        d < 10,
    ensures
        r@ == seq![digit_char(d as int)],
{
    proof {
        reveal_strlit("0");
        reveal_strlit("1");
        reveal_strlit("2");
        reveal_strlit("3");
        reveal_strlit("4");
        reveal_strlit("5");
        reveal_strlit("6");
        reveal_strlit("7");
        reveal_strlit("8");
        reveal_strlit("9");
    }
    let r = if d == 0 {
        "0"
    } else if d == 1 {
        "1"
    } else if d == 2 {
        "2"
    } else if d == 3 {
        "3"
    } else if d == 4 {
        "4"
    } else if d == 5 {
        "5"
    } else if d == 6 {
        "6"
    } else if d == 7 {
        "7"
    } else if d == 8 {
        "8"
    } else {
        "9"
    };
    assert(r@ =~= seq![digit_char(d as int)]);
    r
}

fn digits_text(m: u64) -> (r: String)
    ensures
        r@ == digits(m as nat),
    decreases m,
{
    if m < 10 {
        String::from_str(digit_text(m))
    } else {
        let mut s = digits_text(m / 10);
        s.append(digit_text(m % 10));
        assert(s@ =~= digits((m / 10) as nat).push(digit_char((m % 10) as int)));
        s
    }
}

/// `n` in decimal, with a leading '-' when negative.
pub(crate) fn decimal_text(n: i128) -> (r: String)
    requires
        -(u64::MAX as int) <= n <= u64::MAX,
    ensures
        r@ == decimal(n as int),
{
    if n < 0 {
        let mut s = String::from_str("-");
        let d = digits_text((-n) as u64);
        s.append(d.as_str());
        proof {
            reveal_strlit("-");
        }
        assert(s@ =~= seq!['-'] + digits((-n) as nat));
        s
    } else {
        digits_text(n as u64)
    }
}

/// Whether `c` has Unicode's Lowercase property.
pub uninterp spec fn is_lowercase_char(c: char) -> bool;

/// The characters Unicode maps `c` to in lower case (one or more).
pub uninterp spec fn lowercase_of(c: char) -> Seq<char>;

/// Relies on `char::is_lowercase`: whether the character is lowercase, a
/// property of the character alone.
#[verifier::external_body]
fn char_is_lowercase(c: char) -> (r: bool)
    ensures
        r == is_lowercase_char(c),
{
    c.is_lowercase()
}

/// Relies on `char::to_lowercase`: the lowercase mapping of the character,
/// which depends on the character alone.
#[verifier::external_body]
fn char_to_lowercase(c: char) -> (r: String)
    ensures
        r@ == lowercase_of(c),
{
    c.to_lowercase().to_string()
}

/// A word counts as upper case when none of its characters is lowercase.
pub open spec fn all_not_lowercase(s: Seq<char>) -> bool {
    forall|i: int| 0 <= i < s.len() ==> !is_lowercase_char(#[trigger] s[i])
}

pub fn is_uppercase(word: &str) -> (r: bool)
    ensures
        r == all_not_lowercase(word@),
{
    let n = word.unicode_len();
    let mut i: usize = 0;
    while i < n
        invariant
            n == word@.len(),
            i <= n,
            forall|j: int| 0 <= j < i ==> !is_lowercase_char(#[trigger] word@[j]),
        decreases n - i,
    {
        if char_is_lowercase(word.get_char(i)) {
            return false;
        }
        i = i + 1;
    }
    true
}

/// Every character of `s` in lower case, in order.
pub open spec fn lowered(s: Seq<char>) -> Seq<char>
    decreases s.len(),
{
    if s.len() == 0 {
        Seq::empty()
    } else {
        lowered(s.drop_last()) + lowercase_of(s.last())
    }
}

/// The first character kept as it is, the rest in lower case.
pub open spec fn normalcase(s: Seq<char>) -> Seq<char> {
    if s.len() == 0 {
        Seq::empty()
    } else {
        seq![s[0]] + lowered(s.drop_first())
    }
}

/// Rewrites a word written in capitals as a name: "MUSTERMANN" becomes "Mustermann".
pub fn to_normalcase(word: &str) -> (r: String)
    ensures
        r@ == normalcase(word@),
{
    let n = word.unicode_len();
    if n == 0 {
        return String::new();
    }
    let mut result = String::new();
    let first = word.substring_char(0, 1);
    result.append(first);
    let ghost rest = word@.drop_first();
    let mut i: usize = 1;
    assert(rest.take(0) =~= Seq::<char>::empty());
    assert(first@ =~= seq![word@[0]]);
    while i < n
        invariant
            n == word@.len(),
            1 <= i <= n,
            rest == word@.drop_first(),
            result@ == seq![word@[0]] + lowered(rest.take(i - 1)),
        decreases n - i,
    {
        let lower = char_to_lowercase(word.get_char(i));
        result.append(lower.as_str());
        i = i + 1;
        assert(rest.take(i - 1).drop_last() =~= rest.take(i - 2));
        assert(rest.take(i - 1).last() == word@[i - 1]);
        assert(result@ =~= seq![word@[0]] + lowered(rest.take(i - 1)));
    }
    assert(rest.take(n - 1) =~= rest);
    result
}

pub open spec fn is_ascii_digit(c: char) -> bool {
    '0' <= c && c <= '9'
}

/// The number that a run of ASCII digits writes in decimal.
pub open spec fn digits_value(s: Seq<char>) -> int
    decreases s.len(),
{
    if s.len() == 0 {
        0
    } else {
        digits_value(s.drop_last()) * 10 + (s.last() as int - '0' as int)
    }
}

/// An optional '+' or '-' sign followed by one or more ASCII digits, whose
/// value fits an `i32`; anything else is no number.
pub open spec fn parsed_i32(s: Seq<char>) -> Option<i32> {
    let negative = s.len() > 0 && s[0] == '-';
    let body = if s.len() > 0 && (s[0] == '-' || s[0] == '+') {
        s.drop_first()
    } else {
        s
    };
    let value = if negative {
        -digits_value(body)
    } else {
        digits_value(body)
    };
    if body.len() > 0 && (forall|i: int| 0 <= i < body.len() ==> is_ascii_digit(#[trigger] body[i])) && i32::MIN
        <= value <= i32::MAX {
        Some(value as i32)
    } else {
        None
    }
}

/// Relies on `str::parse::<i32>`, which accepts an optional `+` or `-` sign
/// followed by decimal digits, and fails on anything else or on overflow.
#[verifier::external_body]
pub(crate) fn parse_i32(s: &str) -> (r: Option<i32>)
    ensures
        r == parsed_i32(s@),
{
    s.parse::<i32>().ok()
}

} // verus!

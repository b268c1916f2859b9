use vstd::prelude::*;

verus! {

/// `s` with every leading `-` removed.
pub open spec fn without_leading_dashes(s: Seq<char>) -> Seq<char>
    decreases s.len(),
{
    if s.len() > 0 && s[0] == '-' {
        without_leading_dashes(s.drop_first())
    } else {
        s
    }
}

/// Removing the leading dashes twice removes no more than once, and what is
/// left does not start with a dash.
pub proof fn lemma_without_leading_dashes(s: Seq<char>)
    ensures
        without_leading_dashes(without_leading_dashes(s)) == without_leading_dashes(s),
        without_leading_dashes(s).len() > 0 ==> without_leading_dashes(s)[0] != '-',
        without_leading_dashes(s).len() <= s.len(),
    decreases s.len(),
{
    if s.len() > 0 && s[0] == '-' {
        lemma_without_leading_dashes(s.drop_first());
    }
}

/// The number of leading dashes of `s`, which `without_leading_dashes` drops.
proof fn lemma_dashes_prefix(s: Seq<char>, k: int)
    requires
        0 <= k <= s.len(),
        forall|i: int| 0 <= i < k ==> s[i] == '-',
    ensures
        without_leading_dashes(s) == without_leading_dashes(s.skip(k)),
    decreases k,
{
    if k > 0 {
        assert(s.skip(1).skip(k - 1) =~= s.skip(k));
        lemma_dashes_prefix(s.drop_first(), k - 1);
        assert(s.drop_first() =~= s.skip(1));
    } else {
        assert(s.skip(0) =~= s);
    }
}

/// Removes every leading `-` of `s`, as `trim_start_matches('-')` does.
pub fn strip_leading_dashes(s: &str) -> (res: String)
    ensures
        res@ == without_leading_dashes(s@),
{
    let n = s.unicode_len();
    let mut k: usize = 0;
    while k < n && s.get_char(k) == '-'
        invariant
            n == s@.len(),
            0 <= k <= n,
            forall|i: int| 0 <= i < k ==> s@[i] == '-',
        decreases n - k,
    {
        k = k + 1;
    }
    proof {
        lemma_dashes_prefix(s@, k as int);
    }
    let rest = s.substring_char(k, n);
    assert(rest@ =~= s@.skip(k as int));
    String::from_str(rest)
}

/// Whether the two strings hold the same characters.
pub fn same_text(a: &str, b: &str) -> (res: bool)
    ensures
        res == (a@ == b@),
{
    let n = a.unicode_len();
    if n != b.unicode_len() {
        return false;
    }
    let mut i: usize = 0;
    while i < n
        invariant
            n == a@.len(),
            n == b@.len(),
            0 <= i <= n,
            forall|j: int| 0 <= j < i ==> a@[j] == b@[j],
        decreases n - i,
    {
        if a.get_char(i) != b.get_char(i) {
            return false;
        }
        i = i + 1;
    }
    assert(a@ =~= b@);
    true
}

/// Whether `c` is one of the ASCII digits `0` to `9`.
pub open spec fn is_decimal_digit(c: char) -> bool {
    '0' <= c && c <= '9'
}

/// The number that a string of decimal digits writes.
pub open spec fn decimal_value(digits: Seq<char>) -> int
    decreases digits.len(),
{
    if digits.len() == 0 {
        0
    } else {
        decimal_value(digits.drop_last()) * 10 + (digits.last() as int - '0' as int)
    }
}

/// Every character of `s` is a decimal digit.
pub open spec fn all_decimal_digits(s: Seq<char>) -> bool {
    forall|i: int| 0 <= i < s.len() ==> is_decimal_digit(#[trigger] s[i])
}

/// The part of `s` that should be digits: `s` without one leading `+`.
pub open spec fn unsigned_digits(s: Seq<char>) -> Seq<char> {
    if s.len() > 0 && s[0] == '+' {
        s.drop_first()
    } else {
        s
    }
}

/// What `usize::from_str` reads from `s`: an optional `+` followed by one or
/// more decimal digits whose value fits in a `usize`; `None` for anything else.
pub open spec fn usize_from_str(s: Seq<char>) -> Option<int> {
    if unsigned_digits(s).len() > 0 && all_decimal_digits(unsigned_digits(s))
        && decimal_value(unsigned_digits(s)) <= usize::MAX {
        Some(decimal_value(unsigned_digits(s)))
    } else {
        None
    }
}

/// Whether `c` is an ASCII letter, upper or lower case.
pub open spec fn is_ascii_letter(c: char) -> bool {
    ('a' <= c && c <= 'z') || ('A' <= c && c <= 'Z')
}

/// Every character of `s` is an ASCII letter.
pub open spec fn all_ascii_letters(s: Seq<char>) -> bool {
    forall|i: int| 0 <= i < s.len() ==> is_ascii_letter(#[trigger] s[i])
}

/// The lower-case form of an ASCII letter; other characters stay as they are.
pub open spec fn ascii_lower(c: char) -> char {
    if 'A' <= c && c <= 'Z' {
        ((c as int) + 32) as char
    } else {
        c
    }
}

/// `s` with every ASCII capital letter turned into its lower-case form.
pub open spec fn ascii_lowercase(s: Seq<char>) -> Seq<char> {
    s.map_values(|c: char| ascii_lower(c))
}

/// The lower-case form of a string under Unicode's rules, as std's
/// `str::to_lowercase` computes it.
pub uninterp spec fn unicode_lowercase(s: Seq<char>) -> Seq<char>;

/// Calls std's `str::to_lowercase`. Trusted: the result is the named result
/// `unicode_lowercase` of the string, and on a string of ASCII letters it is
/// the string with each capital replaced by its small letter (Unicode maps
/// `A` to `Z` to `a` to `z` and has no lower-case mapping for `a` to `z`,
/// which then stay as they are).
#[verifier::external_body]
pub(crate) fn to_lowercase(s: &str) -> (res: String)
    ensures
        res@ == unicode_lowercase(s@),
        all_ascii_letters(s@) ==> res@ == ascii_lowercase(s@),
{
    s.to_lowercase()
}

/// Calls std's `usize::from_str` (`str::parse::<usize>`). Trusted, as std's
/// documentation states it: the string is accepted exactly when it is an
/// optional `+` followed by decimal digits only whose value fits in a `usize`,
/// and then the value is that number.
#[verifier::external_body]
pub(crate) fn parse_usize(s: &str) -> (res: Result<usize, std::num::ParseIntError>)
    ensures
        res is Ok <==> usize_from_str(s@) is Some,
        res matches Ok(n) ==> usize_from_str(s@) == Some(n as int),
{
    s.parse::<usize>()
}

/// std's `ParseIntError`, the error of reading an integer from a string.
#[verifier::external_type_specification]
#[verifier::external_body]
pub struct ExParseIntError(std::num::ParseIntError);

} // verus!

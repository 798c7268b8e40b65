//! Decimal numbers and whitespace trimming on text.
use vstd::prelude::*;

verus! {

/// The character of a decimal digit.
pub open spec fn digit_char(d: nat) -> char {
    (d + 48) as char
}

/// Whether `c` is an ASCII decimal digit.
pub open spec fn is_digit(c: char) -> bool {
    '0' <= c <= '9'
}

/// The value of an ASCII decimal digit.
pub open spec fn digit_value(c: char) -> nat {
    (c as int - 48) as nat
}

/// The decimal text of `n`, without sign or leading zeros (as `Display` writes it).
pub open spec fn decimal(n: nat) -> Seq<char>
    decreases n,
{
    if n < 10 {
        seq![digit_char(n)]
    } else {
        decimal(n / 10).push(digit_char(n % 10))
    }
}

proof fn lemma_digit_char(d: nat)
    requires d < 10,
    ensures
        is_digit(digit_char(d)),
        digit_value(digit_char(d)) == d,
{
}

fn digit_text(d: u128) -> (s: String)
    requires d < 10,
    ensures s@ == seq![digit_char(d as nat)],
{
    proof {
        reveal_strlit("0");
        reveal_strlit("1");
        reveal_strlit("2");
        reveal_strlit("3");
        reveal_strlit("4");
        reveal_strlit("5");
        reveal_strlit("6");
        reveal_strlit("7");
        reveal_strlit("8");
        reveal_strlit("9");
    }
    let lit = if d == 0 { "0" } else if d == 1 { "1" } else if d == 2 { "2" } else if d == 3 {
        "3"
    } else if d == 4 { "4" } else if d == 5 { "5" } else if d == 6 { "6" } else if d == 7 {
        "7"
    } else if d == 8 { "8" } else { "9" };
    String::from_str(lit)
}

/// Writes `n` in decimal, as `n.to_string()` does.
pub fn decimal_text(n: u128) -> (s: String)
    ensures s@ == decimal(n as nat),
    decreases n,
{
    if n < 10 {
        digit_text(n)
    } else {
        let mut s = decimal_text(n / 10);
        let d = digit_text(n % 10);
        s.append(d.as_str());
        s
    }
}


/// The value of a string of decimal digits.
pub open spec fn digits_value(s: Seq<char>) -> nat
    decreases s.len(),
{
    if s.len() == 0 {
        0
    } else {
        digits_value(s.drop_last()) * 10 + digit_value(s.last())
    }
}

/// Whether every character of `s` is a decimal digit.
pub open spec fn all_digits(s: Seq<char>) -> bool {
    forall|i: int| 0 <= i < s.len() ==> is_digit(#[trigger] s[i])
}

/// The digits of an unsigned decimal literal: the text without one leading `+`.
pub open spec fn unsigned_body(s: Seq<char>) -> Seq<char> {
    if s.len() > 0 && s[0] == '+' {
        s.drop_first()
    } else {
        s
    }
}

/// The number that `str::parse::<u128>` reads from `s`, if it reads one: an optional `+`,
/// then one or more decimal digits, of a value that fits in 128 bits.
pub open spec fn parse_u128_spec(s: Seq<char>) -> Option<u128> {
    let body = unsigned_body(s);
    if body.len() > 0 && all_digits(body) && digits_value(body) <= u128::MAX {
        Some(digits_value(body) as u128)
    } else {
        None
    }
}

proof fn lemma_digits_value_prefix(s: Seq<char>, i: int)
    requires
        0 <= i <= s.len(),
        all_digits(s),
    ensures
        digits_value(s.subrange(0, i)) <= digits_value(s),
    decreases s.len() - i,
{
    if i < s.len() {
        lemma_digits_value_prefix(s, i + 1);
        assert(s.subrange(0, i + 1).drop_last() =~= s.subrange(0, i));
    } else {
        assert(s.subrange(0, i) =~= s);
    }
}

/// Reads an unsigned decimal number, as `s.parse::<u128>()` does.
pub fn parse_u128(s: &str) -> (r: Option<u128>)
    ensures r == parse_u128_spec(s@),
{
    let n = s.unicode_len();
    let mut i: usize = 0;
    if n > 0 && s.get_char(0) == '+' {
        i = 1;
    }
    let start = i;
    let ghost body = unsigned_body(s@);
    assert(body =~= s@.subrange(start as int, n as int));
    if start == n {
        return None;
    }
    let mut value: u128 = 0;
    while i < n
        invariant
            start <= i <= n,
            n == s@.len(),
            body =~= s@.subrange(start as int, n as int),
            body == unsigned_body(s@),
            body.len() > 0,
            all_digits(body.subrange(0, i - start)),
            value == digits_value(body.subrange(0, i - start)),
        decreases n - i,
    {
        let c = s.get_char(i);
        assert(body.subrange(0, i + 1 - start).drop_last() =~= body.subrange(0, i - start));
        assert(body[i - start] == c);
        if c < '0' || c > '9' {
            assert(!is_digit(body[i - start]));
            assert(!all_digits(body));
            return None;
        }
        let d = (c as u32 - 48) as u128;
        proof {
            assert(all_digits(body.subrange(0, i + 1 - start)));
            assert(digits_value(body.subrange(0, i + 1 - start)) == value * 10 + d);
        }
        let m = value.checked_mul(10);
        if m.is_none() {
            proof {
                if all_digits(body) {
                    lemma_digits_value_prefix(body, i + 1 - start);
                }
            }
            return None;
        }
        let v = m.unwrap().checked_add(d);
        if v.is_none() {
            proof {
                if all_digits(body) {
                    lemma_digits_value_prefix(body, i + 1 - start);
                }
            }
            return None;
        }
        value = v.unwrap();
        i = i + 1;
    }
    assert(body.subrange(0, n - start) =~= body);
    Some(value)
}


/// Decimal text reads back as the number it was written from.
pub proof fn lemma_decimal_parses(n: u128)
    ensures parse_u128_spec(decimal(n as nat)) == Some(n),
{
    lemma_decimal_digits(n as nat);
}

proof fn lemma_decimal_digits(n: nat)
    ensures
        decimal(n).len() > 0,
        decimal(n)[0] != '+',
        all_digits(decimal(n)),
        digits_value(decimal(n)) == n,
    decreases n,
{
    if n < 10 {
        lemma_digit_char(n);
        assert(decimal(n).drop_last() =~= Seq::<char>::empty());
        assert(digits_value(decimal(n).drop_last()) == 0);
        assert(decimal(n).last() == digit_char(n));
    } else {
        lemma_decimal_digits(n / 10);
        lemma_digit_char(n % 10);
        let d = decimal(n);
        assert(d.drop_last() =~= decimal(n / 10));
        assert(d.last() == digit_char(n % 10));
        assert(n == (n / 10) * 10 + n % 10);
        assert(digits_value(d) == digits_value(decimal(n / 10)) * 10 + digit_value(digit_char(n % 10)));
        assert(all_digits(d)) by {
            assert forall|i: int| 0 <= i < d.len() implies is_digit(#[trigger] d[i]) by {
                if i < d.len() - 1 {
                    assert(d[i] == decimal(n / 10)[i]);
                }
            }
        }
    }
}

/// Whether `c` is white space in the sense of `char::is_whitespace` (the Unicode
/// `White_Space` property).
pub open spec fn is_white(c: char) -> bool {
    ||| '\t' <= c <= '\r'
    ||| c == ' '
    ||| c == '\u{85}'
    ||| c == '\u{a0}'
    ||| c == '\u{1680}'
    ||| '\u{2000}' <= c <= '\u{200a}'
    ||| c == '\u{2028}'
    ||| c == '\u{2029}'
    ||| c == '\u{202f}'
    ||| c == '\u{205f}'
    ||| c == '\u{3000}'
}

/// `s` without its leading and trailing white space, as `str::trim` gives it.
pub open spec fn trim_spec(s: Seq<char>) -> Seq<char>
    decreases s.len(),
{
    if s.len() > 0 && is_white(s[0]) {
        trim_spec(s.drop_first())
    } else if s.len() > 0 && is_white(s.last()) {
        trim_spec(s.drop_last())
    } else {
        s
    }
}

fn is_white_char(c: char) -> (b: bool)
    ensures b == is_white(c),
{
    ('\t' <= c && c <= '\r') || c == ' ' || c == '\u{85}' || c == '\u{a0}' || c == '\u{1680}'
        || ('\u{2000}' <= c && c <= '\u{200a}') || c == '\u{2028}' || c == '\u{2029}'
        || c == '\u{202f}' || c == '\u{205f}' || c == '\u{3000}'
}

proof fn lemma_trim(s: Seq<char>, i: int, j: int)
    requires
        0 <= i <= j <= s.len(),
        i < j || i == s.len(),
        forall|k: int| 0 <= k < i ==> is_white(#[trigger] s[k]),
        forall|k: int| j <= k < s.len() ==> is_white(#[trigger] s[k]),
        i < j ==> !is_white(s[i]) && !is_white(s[j - 1]),
    ensures trim_spec(s) == s.subrange(i, j),
    decreases s.len(),
{
    if s.len() > 0 && is_white(s[0]) {
        assert(i > 0);
        lemma_trim(s.drop_first(), i - 1, j - 1);
        assert(s.drop_first().subrange(i - 1, j - 1) =~= s.subrange(i, j));
    } else if s.len() > 0 && is_white(s.last()) {
        assert(j < s.len());
        lemma_trim(s.drop_last(), i, j);
        assert(s.drop_last().subrange(i, j) =~= s.subrange(i, j));
    } else {
        assert(s.subrange(i, j) =~= s);
    }
}

/// Removes leading and trailing white space, as `str::trim` does.
pub fn trim(s: &str) -> (t: String)
    ensures t@ == trim_spec(s@),
{
    let n = s.unicode_len();
    let mut i: usize = 0;
    while i < n && is_white_char(s.get_char(i))
        invariant
            i <= n,
            n == s@.len(),
            forall|k: int| 0 <= k < i ==> is_white(#[trigger] s@[k]),
        decreases n - i,
    {
        i = i + 1;
    }
    let mut j: usize = n;
    if i < n {
        while j > i && is_white_char(s.get_char(j - 1))
            invariant
                i < n,
                !is_white(s@[i as int]),
                i <= j <= n,
                n == s@.len(),
                forall|k: int| j <= k < n ==> is_white(#[trigger] s@[k]),
            decreases j,
        {
            j = j - 1;
        }
    }
    proof {
        lemma_trim(s@, i as int, j as int);
    }
    s.substring_char(i, j).to_owned()
}

/// The library version number held in the text of the version file: the trimmed text read
/// as a number, or `0` when there is no text or it is not a number.
pub open spec fn version_of_text(text: Option<Seq<char>>) -> u128 {
    match text {
        Some(t) => match parse_u128_spec(trim_spec(t)) {
            Some(v) => v,
            None => 0,
        },
        None => 0,
    }
}

/// Reads the library version from the version file's text (`None` when it could not be
/// read); `0` when the text holds no number.
pub fn version_from_text(text: Option<&str>) -> (v: u128)
    ensures v == version_of_text(match text { Some(t) => Some(t@), None => None }),
{
    match text {
        Some(t) => {
            let trimmed = trim(t);
            match parse_u128(trimmed.as_str()) {
                Some(v) => v,
                None => 0,
            }
        },
        None => 0,
    }
}


/// The text that Rust's `Debug` formatting writes for the path whose text is `s`: `s`
/// quoted, with its special characters escaped.
pub uninterp spec fn debug_text_of(s: Seq<char>) -> Seq<char>;

/// Writes the path whose text is `s` as Rust's `Debug` formatting does
/// (`format!("{:?}", Path::new(s))`); the result is the named value `debug_text_of(s)`, of
/// which nothing more is stated.
#[verifier::external_body]
pub(crate) fn debug_text(s: &str) -> (r: String)
    ensures r@ == debug_text_of(s@),
{
    format!("{:?}", std::path::Path::new(s))
}

} // verus!

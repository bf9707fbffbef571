//! Character-level text helpers shared by the capture and presentation code:
//! whitespace trimming, prefix handling, integer parsing and formatting.
use vstd::prelude::*;

verus! {

/// `char::is_whitespace`: the Unicode `White_Space` property.
pub open spec fn is_ws(c: char) -> bool {
    ||| '\u{9}' <= c <= '\u{d}'
    ||| c == ' '
    ||| c == '\u{85}'
    ||| c == '\u{a0}'
    ||| c == '\u{1680}'
    ||| '\u{2000}' <= c <= '\u{200a}'
    ||| c == '\u{2028}'
    ||| c == '\u{2029}'
    ||| c == '\u{202f}'
    ||| c == '\u{205f}'
    ||| c == '\u{3000}'
}

/// Number of whitespace characters at the start of `s`.
pub open spec fn leading_ws(s: Seq<char>) -> nat
    decreases s.len(),
{
    if s.len() > 0 && is_ws(s[0]) {
        1 + leading_ws(s.drop_first())
    } else {
        0
    }
}

/// Number of whitespace characters at the end of `s`.
pub open spec fn trailing_ws(s: Seq<char>) -> nat
    decreases s.len(),
{
    if s.len() > 0 && is_ws(s.last()) {
        1 + trailing_ws(s.drop_last())
    } else {
        0
    }
}

/// `str::trim`: `s` without leading and trailing whitespace.
pub open spec fn trim_seq(s: Seq<char>) -> Seq<char> {
    let lead = leading_ws(s);
    if lead == s.len() {
        Seq::empty()
    } else {
        s.subrange(lead as int, s.len() - trailing_ws(s))
    }
}

/// `s` starts with `prefix`.
pub open spec fn has_prefix(s: Seq<char>, prefix: Seq<char>) -> bool {
    prefix.len() <= s.len() && s.subrange(0, prefix.len() as int) == prefix
}

/// `str::strip_prefix` on character sequences.
pub open spec fn strip_prefix_seq(s: Seq<char>, prefix: Seq<char>) -> Option<Seq<char>> {
    if has_prefix(s, prefix) {
        Some(s.skip(prefix.len() as int))
    } else {
        None
    }
}

/// `needle` occurs somewhere in `hay` (`str::contains`).
pub open spec fn contains_seq(hay: Seq<char>, needle: Seq<char>) -> bool {
    exists|i: int| 0 <= i <= hay.len() - needle.len() && #[trigger] hay.subrange(i, i + needle.len()) == needle
}

/// Index of the first occurrence of `c` in `s`.
pub open spec fn first_index_of(s: Seq<char>, c: char) -> Option<int>
    decreases s.len(),
{
    if s.len() == 0 {
        None
    } else if s[0] == c {
        Some(0)
    } else {
        match first_index_of(s.drop_first(), c) {
            Some(i) => Some(i + 1),
            None => None,
        }
    }
}

/// Index of the first whitespace character in `s`.
pub open spec fn first_ws_index(s: Seq<char>) -> Option<int>
    decreases s.len(),
{
    if s.len() == 0 {
        None
    } else if is_ws(s[0]) {
        Some(0)
    } else {
        match first_ws_index(s.drop_first()) {
            Some(i) => Some(i + 1),
            None => None,
        }
    }
}

/// `str::split_once(char::is_whitespace)`.
pub open spec fn split_once_ws_seq(s: Seq<char>) -> Option<(Seq<char>, Seq<char>)> {
    match first_ws_index(s) {
        Some(i) => Some((s.take(i), s.skip(i + 1))),
        None => None,
    }
}

/// ASCII lower-casing of one character (`char::to_ascii_lowercase`).
pub open spec fn ascii_lower(c: char) -> char {
    if 'A' <= c <= 'Z' {
        ((c as u32) + 32) as char
    } else {
        c
    }
}

/// `str::to_ascii_lowercase`.
pub open spec fn ascii_lower_seq(s: Seq<char>) -> Seq<char> {
    s.map_values(|c: char| ascii_lower(c))
}

/// `seq_less` is a strict total order: irreflexive, asymmetric, transitive,
/// and any two different sequences are ordered one way or the other.
pub proof fn lemma_seq_less_order(a: Seq<char>, b: Seq<char>, c: Seq<char>)
    ensures
        !seq_less(a, a),
        seq_less(a, b) ==> !seq_less(b, a),
        seq_less(a, b) && seq_less(b, c) ==> seq_less(a, c),
        a != b ==> seq_less(a, b) || seq_less(b, a),
    decreases a.len(),
{
    if a.len() > 0 {
        lemma_seq_less_order(a.drop_first(), b.drop_first(), c.drop_first());
        if b.len() > 0 && a[0] == b[0] && a != b {
            assert(a.drop_first() != b.drop_first()) by {
                if a.drop_first() == b.drop_first() {
                    assert(a =~= seq![a[0]] + a.drop_first());
                    assert(b =~= seq![b[0]] + b.drop_first());
                }
            }
        }
    } else if b.len() == 0 {
        assert(a =~= b);
    }
}

/// ASCII upper-casing of one character (`char::to_ascii_uppercase`).
pub open spec fn ascii_upper(c: char) -> char {
    if 'a' <= c <= 'z' {
        ((c as u32) - 32) as char
    } else {
        c
    }
}

/// `str::to_ascii_uppercase`.
pub open spec fn ascii_upper_seq(s: Seq<char>) -> Seq<char> {
    s.map_values(|c: char| ascii_upper(c))
}

/// Lexicographic order of character sequences by code point, which is the
/// order of `str`/`String` (their UTF-8 bytes compare in the same order).
pub open spec fn seq_less(a: Seq<char>, b: Seq<char>) -> bool
    decreases a.len(),
{
    if a.len() == 0 {
        b.len() > 0
    } else if b.len() == 0 {
        false
    } else if a[0] < b[0] {
        true
    } else if a[0] > b[0] {
        false
    } else {
        seq_less(a.drop_first(), b.drop_first())
    }
}

/// `str::eq_ignore_ascii_case`.
pub open spec fn eq_ignore_ascii_case_seq(a: Seq<char>, b: Seq<char>) -> bool {
    ascii_lower_seq(a) == ascii_lower_seq(b)
}

/// Lower-case hexadecimal digit for `d < 16`.
pub open spec fn hex_char(d: nat) -> char {
    seq!['0', '1', '2', '3', '4', '5', '6', '7', '8', '9', 'a', 'b', 'c', 'd', 'e', 'f'][d as int]
}

/// Decimal rendering of `n` (`{}` on an unsigned integer).
pub open spec fn decimal(n: nat) -> Seq<char>
    decreases n,
{
    if n < 10 {
        seq![hex_char(n)]
    } else {
        decimal(n / 10) + seq![hex_char(n % 10)]
    }
}

/// `{:04x}` of a 16-bit value: four lower-case hex digits.
pub open spec fn hex4(v: u16) -> Seq<char> {
    seq![
        hex_char((v as nat / 4096) % 16),
        hex_char((v as nat / 256) % 16),
        hex_char((v as nat / 16) % 16),
        hex_char(v as nat % 16),
    ]
}

/// Why an unsigned integer could not be parsed (the kinds of `ParseIntError`
/// that an unsigned type can report).
#[derive(Debug, Clone, Copy, PartialEq, Eq, Structural)]
pub enum IntParseError {
    Empty,
    InvalidDigit,
    PosOverflow,
}

impl IntParseError {
    /// The `Display` text of the corresponding `ParseIntError`.
    pub open spec fn spec_message(self) -> Seq<char> {
        match self {
            IntParseError::Empty => "cannot parse integer from empty string"@,
            IntParseError::InvalidDigit => "invalid digit found in string"@,
            IntParseError::PosOverflow => "number too large to fit in target type"@,
        }
    }

    pub fn message(&self) -> (m: String)
        ensures
            m@ == self.spec_message(),
    {
        match self {
            IntParseError::Empty => String::from_str("cannot parse integer from empty string"),
            IntParseError::InvalidDigit => String::from_str("invalid digit found in string"),
            IntParseError::PosOverflow => String::from_str("number too large to fit in target type"),
        }
    }
}

/// `char::to_digit(radix)` for `radix <= 36`.
pub open spec fn digit_value(c: char, radix: nat) -> Option<nat> {
    let v: int = if '0' <= c <= '9' {
        c as int - '0' as int
    } else if 'a' <= c <= 'z' {
        c as int - 'a' as int + 10
    } else if 'A' <= c <= 'Z' {
        c as int - 'A' as int + 10
    } else {
        99
    };
    if v < radix {
        Some(v as nat)
    } else {
        None
    }
}

/// Left-to-right accumulation of digits as `from_str_radix` does it: the first
/// character that is not a digit reports `InvalidDigit`, the first digit that
/// takes the value above `max` reports `PosOverflow`.
pub open spec fn accumulate_digits(d: Seq<char>, radix: nat, max: nat, acc: nat) -> Result<nat, IntParseError>
    decreases d.len(),
{
    if d.len() == 0 {
        Ok(acc)
    } else {
        match digit_value(d[0], radix) {
            None => Err(IntParseError::InvalidDigit),
            Some(x) => {
                let v = acc * radix + x;
                if v > max {
                    Err(IntParseError::PosOverflow)
                } else {
                    accumulate_digits(d.drop_first(), radix, max, v)
                }
            },
        }
    }
}

/// `from_str_radix` for an unsigned integer type whose largest value is `max`.
pub open spec fn parse_unsigned_seq(s: Seq<char>, radix: nat, max: nat) -> Result<nat, IntParseError> {
    if s.len() == 0 {
        Err(IntParseError::Empty)
    } else if s.len() == 1 && (s[0] == '+' || s[0] == '-') {
        Err(IntParseError::InvalidDigit)
    } else if s[0] == '+' {
        accumulate_digits(s.drop_first(), radix, max, 0)
    } else {
        accumulate_digits(s, radix, max, 0)
    }
}

/// The characters of `s`, in order.
pub fn chars_of(s: &str) -> (v: Vec<char>)
    ensures
        v@ == s@,
{
    let mut v: Vec<char> = Vec::new();
    for c in it: s.chars()
        invariant
            v@ == it.seq().take(it.index() as int),
    {
        v.push(c);
    }
    v
}

/// `char::is_whitespace`.
pub fn is_whitespace(c: char) -> (b: bool)
    ensures
        b == is_ws(c),
{
    ('\u{9}' <= c && c <= '\u{d}') || c == ' ' || c == '\u{85}' || c == '\u{a0}' || c
        == '\u{1680}' || ('\u{2000}' <= c && c <= '\u{200a}') || c == '\u{2028}' || c == '\u{2029}'
        || c == '\u{202f}' || c == '\u{205f}' || c == '\u{3000}'
}

proof fn lemma_leading_ws(s: Seq<char>, i: int)
    requires
        0 <= i <= s.len(),
        forall|k: int| 0 <= k < i ==> is_ws(#[trigger] s[k]),
        i == s.len() || !is_ws(s[i]),
    ensures
        leading_ws(s) == i,
    decreases i,
{
    if i > 0 {
        lemma_leading_ws(s.drop_first(), i - 1);
    }
}

proof fn lemma_trailing_ws(s: Seq<char>, i: int)
    requires
        0 <= i <= s.len(),
        forall|k: int| s.len() - i <= k < s.len() ==> is_ws(#[trigger] s[k]),
        i == s.len() || !is_ws(s[s.len() - 1 - i]),
    ensures
        trailing_ws(s) == i,
    decreases i,
{
    if i > 0 {
        lemma_trailing_ws(s.drop_last(), i - 1);
    }
}

/// Bounds of the trimmed part of `v`: `(start, end)`.
pub fn trim_bounds(v: &Vec<char>) -> (r: (usize, usize))
    ensures
        r.0 <= r.1 <= v.len(),
        v@.subrange(r.0 as int, r.1 as int) == trim_seq(v@),
{
    let n = v.len();
    let mut a: usize = 0;
    while a < n && is_whitespace(v[a])
        invariant
            a <= n == v.len(),
            forall|k: int| 0 <= k < a ==> is_ws(#[trigger] v@[k]),
        decreases n - a,
    {
        a = a + 1;
    }
    proof {
        lemma_leading_ws(v@, a as int);
    }
    if a == n {
        return (n, n);
    }
    let mut t: usize = 0;
    while t < n - a && is_whitespace(v[n - 1 - t])
        invariant
            a < n == v.len(),
            t <= n - a,
            forall|k: int| n - t <= k < n ==> is_ws(#[trigger] v@[k]),
        decreases n - a - t,
    {
        t = t + 1;
    }
    proof {
        if t == n - a {
            assert(is_ws(v@[a as int]));
        }
        lemma_trailing_ws(v@, t as int);
    }
    (a, n - t)
}

/// `str::trim`.
pub fn trim(s: &str) -> (r: &str)
    ensures
        r@ == trim_seq(s@),
{
    let v = chars_of(s);
    let (a, b) = trim_bounds(&v);
    s.substring_char(a, b)
}

/// `str::trim` into an owned `String`.
pub fn trim_owned(s: &str) -> (r: String)
    ensures
        r@ == trim_seq(s@),
{
    String::from_str(trim(s))
}

/// Whether `s` equals `t` character for character.
pub fn str_eq(s: &str, t: &str) -> (b: bool)
    ensures
        b == (s@ == t@),
{
    let a = chars_of(s);
    let c = chars_of(t);
    if a.len() != c.len() {
        return false;
    }
    let mut i: usize = 0;
    while i < a.len()
        invariant
            a@ == s@,
            c@ == t@,
            a.len() == c.len(),
            i <= a.len(),
            forall|k: int| 0 <= k < i ==> a@[k] == c@[k],
        decreases a.len() - i,
    {
        if a[i] != c[i] {
            return false;
        }
        i = i + 1;
    }
    assert(a@ == c@);
    true
}

/// Whether `v` starts with the characters of `prefix`, checked at position `at`.
fn matches_at(v: &Vec<char>, at: usize, p: &Vec<char>) -> (b: bool)
    requires
        at <= v.len(),
    ensures
        b == (at + p.len() <= v.len() && v@.subrange(at as int, at + p.len()) == p@),
{
    if p.len() > v.len() - at {
        return false;
    }
    let mut i: usize = 0;
    while i < p.len()
        invariant
            at + p.len() <= v.len(),
            i <= p.len(),
            forall|k: int| 0 <= k < i ==> v@[at + k] == p@[k],
        decreases p.len() - i,
    {
        if v[at + i] != p[i] {
            assert(v@.subrange(at as int, at + p.len())[i as int] != p@[i as int]);
            return false;
        }
        i = i + 1;
    }
    assert(v@.subrange(at as int, at + p.len()) == p@);
    true
}

/// `str::strip_prefix`.
pub fn strip_prefix<'a>(s: &'a str, prefix: &str) -> (r: Option<&'a str>)
    ensures
        r matches Some(t) ==> strip_prefix_seq(s@, prefix@) == Some(t@),
        r is None ==> strip_prefix_seq(s@, prefix@) is None,
{
    let v = chars_of(s);
    let p = chars_of(prefix);
    if matches_at(&v, 0, &p) {
        Some(s.substring_char(p.len(), v.len()))
    } else {
        None
    }
}

/// `str::starts_with`.
pub fn starts_with(s: &str, prefix: &str) -> (b: bool)
    ensures
        b == has_prefix(s@, prefix@),
{
    let v = chars_of(s);
    let p = chars_of(prefix);
    matches_at(&v, 0, &p)
}

/// `str::contains` for a string pattern.
pub fn contains(hay: &str, needle: &str) -> (b: bool)
    ensures
        b == contains_seq(hay@, needle@),
{
    let h = chars_of(hay);
    let n = chars_of(needle);
    if n.len() == 0 {
        assert(hay@.subrange(0int, 0int + needle@.len()) == needle@);
        return true;
    }
    if n.len() > h.len() {
        return false;
    }
    let mut i: usize = 0;
    while i <= h.len() - n.len()
        invariant
            h@ == hay@,
            n@ == needle@,
            0 < n.len() <= h.len(),
            i <= h.len() - n.len() + 1,
            forall|k: int| 0 <= k < i ==> #[trigger] h@.subrange(k, k + n.len()) != n@,
        decreases h.len() - n.len() + 1 - i,
    {
        if matches_at(&h, i, &n) {
            return true;
        }
        i = i + 1;
    }
    false
}

/// Index of the first occurrence of `c` in `v`.
pub fn find_char(v: &Vec<char>, c: char) -> (r: Option<usize>)
    ensures
        match r {
            Some(i) => first_index_of(v@, c) == Some(i as int),
            None => first_index_of(v@, c) is None,
        },
{
    let mut i: usize = 0;
    while i < v.len()
        invariant
            i <= v.len(),
            forall|k: int| 0 <= k < i ==> v@[k] != c,
        decreases v.len() - i,
    {
        if v[i] == c {
            proof {
                lemma_first_index(v@, c, i as int);
            }
            return Some(i);
        }
        i = i + 1;
    }
    proof {
        lemma_no_index(v@, c);
    }
    None
}

proof fn lemma_leading_ws_stop(s: Seq<char>)
    ensures
        leading_ws(s) <= s.len(),
        leading_ws(s) < s.len() ==> !is_ws(s[leading_ws(s) as int]),
    decreases s.len(),
{
    if s.len() > 0 && is_ws(s[0]) {
        lemma_leading_ws_stop(s.drop_first());
        if leading_ws(s) < s.len() {
            assert(s[leading_ws(s) as int] == s.drop_first()[leading_ws(s.drop_first()) as int]);
        }
    }
}

proof fn lemma_trailing_ws_stop(s: Seq<char>)
    ensures
        trailing_ws(s) <= s.len(),
        trailing_ws(s) < s.len() ==> !is_ws(s[s.len() - 1 - trailing_ws(s)]),
    decreases s.len(),
{
    if s.len() > 0 && is_ws(s.last()) {
        lemma_trailing_ws_stop(s.drop_last());
        if trailing_ws(s) < s.len() {
            assert(s[s.len() - 1 - trailing_ws(s)] == s.drop_last()[s.drop_last().len() - 1 - trailing_ws(s.drop_last())]);
        }
    }
}

proof fn lemma_trailing_bound(s: Seq<char>, i: int)
    requires
        0 <= i < s.len(),
        !is_ws(s[i]),
    ensures
        trailing_ws(s) <= s.len() - 1 - i,
    decreases s.len(),
{
    if s.len() > 0 && is_ws(s.last()) {
        assert(s.drop_last()[i] == s[i]);
        lemma_trailing_bound(s.drop_last(), i);
    }
}

/// Trimming twice is trimming once: a trimmed text has no whitespace left
/// at either end.
pub proof fn lemma_trim_idempotent(s: Seq<char>)
    ensures
        trim_seq(trim_seq(s)) == trim_seq(s),
{
    let t = trim_seq(s);
    lemma_leading_ws_stop(s);
    lemma_trailing_ws_stop(s);
    let lead = leading_ws(s);
    let trail = trailing_ws(s);
    if lead < s.len() {
        lemma_trailing_bound(s, lead as int);
    }
    if t.len() > 0 {
        assert(lead < s.len());
        assert(t[0] == s[lead as int]);
        assert(t[t.len() - 1] == s[s.len() - 1 - trail]);
        lemma_leading_ws(t, 0);
        lemma_trailing_ws(t, 0);
        assert(t.subrange(0, t.len() as int) == t);
    } else {
        assert(leading_ws(t) == 0);
    }
}

proof fn lemma_first_index(s: Seq<char>, c: char, i: int)
    requires
        0 <= i < s.len(),
        s[i] == c,
        forall|k: int| 0 <= k < i ==> s[k] != c,
    ensures
        first_index_of(s, c) == Some(i),
    decreases i,
{
    if i > 0 {
        lemma_first_index(s.drop_first(), c, i - 1);
    }
}

proof fn lemma_no_index(s: Seq<char>, c: char)
    requires
        forall|k: int| 0 <= k < s.len() ==> s[k] != c,
    ensures
        first_index_of(s, c) is None,
    decreases s.len(),
{
    if s.len() > 0 {
        lemma_no_index(s.drop_first(), c);
    }
}

proof fn lemma_first_ws(s: Seq<char>, i: int)
    requires
        0 <= i < s.len(),
        is_ws(s[i]),
        forall|k: int| 0 <= k < i ==> !is_ws(#[trigger] s[k]),
    ensures
        first_ws_index(s) == Some(i),
    decreases i,
{
    if i > 0 {
        lemma_first_ws(s.drop_first(), i - 1);
    }
}

proof fn lemma_no_ws(s: Seq<char>)
    requires
        forall|k: int| 0 <= k < s.len() ==> !is_ws(#[trigger] s[k]),
    ensures
        first_ws_index(s) is None,
    decreases s.len(),
{
    if s.len() > 0 {
        lemma_no_ws(s.drop_first());
    }
}

/// `str::split_once(char::is_whitespace)`.
pub fn split_once_ws<'a>(s: &'a str) -> (r: Option<(&'a str, &'a str)>)
    ensures
        match r {
            Some((a, b)) => split_once_ws_seq(s@) == Some((a@, b@)),
            None => split_once_ws_seq(s@) is None,
        },
{
    let v = chars_of(s);
    let mut i: usize = 0;
    while i < v.len()
        invariant
            v@ == s@,
            i <= v.len(),
            forall|k: int| 0 <= k < i ==> !is_ws(#[trigger] v@[k]),
        decreases v.len() - i,
    {
        if is_whitespace(v[i]) {
            proof {
                lemma_first_ws(v@, i as int);
            }
            return Some((s.substring_char(0, i), s.substring_char(i + 1, v.len())));
        }
        i = i + 1;
    }
    proof {
        lemma_no_ws(v@);
    }
    None
}

/// `char::to_digit(radix)` for radix 10 or 16.
fn digit_of(c: char, radix: u32) -> (r: Option<u32>)
    requires
        radix == 10 || radix == 16,
    ensures
        match r {
            Some(x) => digit_value(c, radix as nat) == Some(x as nat),
            None => digit_value(c, radix as nat) is None,
        },
{
    let v: u32 = if '0' <= c && c <= '9' {
        (c as u32) - ('0' as u32)
    } else if 'a' <= c && c <= 'z' {
        (c as u32) - ('a' as u32) + 10
    } else if 'A' <= c && c <= 'Z' {
        (c as u32) - ('A' as u32) + 10
    } else {
        99
    };
    if v < radix {
        Some(v)
    } else {
        None
    }
}

proof fn lemma_accumulate_step(d: Seq<char>, radix: nat, max: nat, acc: nat, i: int)
    requires
        0 <= i < d.len(),
    ensures
        accumulate_digits(d.skip(i), radix, max, acc) == (match digit_value(d[i], radix) {
            None => Err(IntParseError::InvalidDigit),
            Some(x) => if acc * radix + x > max {
                Err(IntParseError::PosOverflow)
            } else {
                accumulate_digits(d.skip(i + 1), radix, max, acc * radix + x)
            },
        }),
{
    assert(d.skip(i).drop_first() == d.skip(i + 1));
    assert(d.skip(i)[0] == d[i]);
}

proof fn lemma_hex_char_digit(d: nat)
    requires
        d < 10,
    ensures
        digit_value(hex_char(d), 10) == Some(d),
        hex_char(d) != '+',
        hex_char(d) != '-',
{
    let t = seq!['0', '1', '2', '3', '4', '5', '6', '7', '8', '9', 'a', 'b', 'c', 'd', 'e', 'f'];
    assert(t[0] == '0' && t[1] == '1' && t[2] == '2' && t[3] == '3' && t[4] == '4');
    assert(t[5] == '5' && t[6] == '6' && t[7] == '7' && t[8] == '8' && t[9] == '9');
}

proof fn lemma_accumulate_concat(a: Seq<char>, b: Seq<char>, radix: nat, max: nat, acc: nat)
    ensures
        accumulate_digits(a + b, radix, max, acc) == (match accumulate_digits(a, radix, max, acc) {
            Ok(v) => accumulate_digits(b, radix, max, v),
            Err(e) => Err(e),
        }),
    decreases a.len(),
{
    if a.len() == 0 {
        assert(a + b == b);
    } else {
        assert((a + b)[0] == a[0]);
        assert((a + b).drop_first() == a.drop_first() + b);
        match digit_value(a[0], radix) {
            None => {},
            Some(x) => {
                lemma_accumulate_concat(a.drop_first(), b, radix, max, acc * radix + x);
            },
        }
    }
}

/// Digits are read back from their decimal rendering: parsing the text of
/// any value that fits gives the value.
pub proof fn lemma_parse_decimal(n: nat, max: nat)
    requires
        n <= max,
    ensures
        accumulate_digits(decimal(n), 10, max, 0) == Ok::<nat, IntParseError>(n),
        parse_unsigned_seq(decimal(n), 10, max) == Ok::<nat, IntParseError>(n),
    decreases n,
{
    if n < 10 {
        lemma_hex_char_digit(n);
        let d = decimal(n);
        assert(d == seq![hex_char(n)]);
        assert(d.drop_first().len() == 0);
        assert(accumulate_digits(d, 10, max, 0) == accumulate_digits(d.drop_first(), 10, max, n));
    } else {
        lemma_parse_decimal(n / 10, max);
        lemma_hex_char_digit(n % 10);
        let last = seq![hex_char(n % 10)];
        lemma_accumulate_concat(decimal(n / 10), last, 10, max, 0);
        assert(last.drop_first().len() == 0);
        assert((n / 10) * 10 + n % 10 == n);
        assert(accumulate_digits(last, 10, max, n / 10) == accumulate_digits(last.drop_first(), 10, max, n));
        lemma_decimal_first(n);
    }
}

proof fn lemma_decimal_first(n: nat)
    ensures
        decimal(n).len() >= 1,
        decimal(n)[0] != '+',
        decimal(n)[0] != '-',
        n >= 10 ==> decimal(n).len() >= 2,
    decreases n,
{
    if n < 10 {
        lemma_hex_char_digit(n);
    } else {
        lemma_decimal_first(n / 10);
        assert(decimal(n)[0] == decimal(n / 10)[0]);
    }
}

/// Unsigned `from_str_radix` (radix 10 or 16) for a type whose largest value is `max`.
pub fn parse_unsigned(s: &str, radix: u32, max: u32) -> (r: Result<u32, IntParseError>)
    requires
        radix == 10 || radix == 16,
    ensures
        r matches Ok(n) ==> n <= max,
        match r {
            Ok(n) => parse_unsigned_seq(s@, radix as nat, max as nat) == Ok::<nat, IntParseError>(n as nat),
            Err(e) => parse_unsigned_seq(s@, radix as nat, max as nat) == Err::<nat, IntParseError>(e),
        },
{
    let v = chars_of(s);
    if v.len() == 0 {
        return Err(IntParseError::Empty);
    }
    if v.len() == 1 && (v[0] == '+' || v[0] == '-') {
        return Err(IntParseError::InvalidDigit);
    }
    let start: usize = if v[0] == '+' { 1 } else { 0 };
    let ghost d = v@.skip(start as int);
    proof {
        if start == 1 {
            assert(d == v@.drop_first());
        } else {
            assert(d == v@);
        }
    }
    let mut acc: u32 = 0;
    let mut i: usize = start;
    while i < v.len()
        invariant
            v@ == s@,
            start <= i <= v.len(),
            d == v@.skip(start as int),
            radix == 10 || radix == 16,
            acc <= max,
            parse_unsigned_seq(s@, radix as nat, max as nat) == accumulate_digits(d, radix as nat, max as nat, 0),
            accumulate_digits(d, radix as nat, max as nat, 0) == accumulate_digits(
                v@.skip(i as int),
                radix as nat,
                max as nat,
                acc as nat,
            ),
        decreases v.len() - i,
    {
        proof {
            lemma_accumulate_step(v@, radix as nat, max as nat, acc as nat, i as int);
        }
        match digit_of(v[i], radix) {
            None => {
                return Err(IntParseError::InvalidDigit);
            },
            Some(x) => {
                assert(x < radix);
                assert((acc as u64) * (radix as u64) + (x as u64) <= 0xffff_ffffu64 * 16 + 16) by (nonlinear_arith)
                    requires
                        acc <= 0xffff_ffffu64,
                        radix <= 16,
                        x < radix;
                let wide: u64 = (acc as u64) * (radix as u64) + (x as u64);
                if wide > max as u64 {
                    return Err(IntParseError::PosOverflow);
                }
                acc = wide as u32;
            },
        }
        i = i + 1;
    }
    assert(v@.skip(i as int).len() == 0);
    Ok(acc)
}

/// Appends the decimal rendering of `n` to `out`.
pub fn push_decimal(out: &mut String, n: u64)
    ensures
        final(out)@ == old(out)@ + decimal(n as nat),
    decreases n,
{
    if n >= 10 {
        push_decimal(out, n / 10);
    }
    let d = (n % 10) as usize;
    push_hex_digit(out, d);
    proof {
        if n < 10 {
            assert(n % 10 == n);
        }
    }
}

/// Appends the lower-case hexadecimal digit `d` to `out`.
pub fn push_hex_digit(out: &mut String, d: usize)
    requires
        d < 16,
    ensures
        final(out)@ == old(out)@ + seq![hex_char(d as nat)],
{
    let table = "0123456789abcdef";
    proof {
        reveal_strlit("0123456789abcdef");
    }
    out.append(table.substring_char(d, d + 1));
    proof {
        assert(table@.subrange(d as int, d + 1) == seq![hex_char(d as nat)]);
    }
}

/// `n.to_string()` for an unsigned integer.
pub fn decimal_string(n: u64) -> (s: String)
    ensures
        s@ == decimal(n as nat),
{
    let mut s = String::new();
    push_decimal(&mut s, n);
    assert(s@ == Seq::<char>::empty() + decimal(n as nat));
    s
}

/// Appends `format!("{:04x}", v)` to `out`.
pub fn push_hex4(out: &mut String, v: u16)
    ensures
        final(out)@ == old(out)@ + hex4(v),
{
    let ghost start = out@;
    push_hex_digit(out, ((v / 4096) % 16) as usize);
    push_hex_digit(out, ((v / 256) % 16) as usize);
    push_hex_digit(out, ((v / 16) % 16) as usize);
    push_hex_digit(out, (v % 16) as usize);
    assert(out@ == start + hex4(v));
}

/// `str::to_ascii_lowercase`.
pub fn to_ascii_lowercase(s: &str) -> (r: String)
    ensures
        r@ == ascii_lower_seq(s@),
{
    let v = chars_of(s);
    let lower = "abcdefghijklmnopqrstuvwxyz";
    proof {
        reveal_strlit("abcdefghijklmnopqrstuvwxyz");
    }
    let mut out = String::new();
    let mut i: usize = 0;
    while i < v.len()
        invariant
            v@ == s@,
            i <= v.len(),
            lower@ == seq!['a','b','c','d','e','f','g','h','i','j','k','l','m','n','o','p','q','r','s','t','u','v','w','x','y','z'],
            out@ == ascii_lower_seq(s@.take(i as int)),
        decreases v.len() - i,
    {
        let c = v[i];
        if 'A' <= c && c <= 'Z' {
            let k = ((c as u32) - ('A' as u32)) as usize;
            out.append(lower.substring_char(k, k + 1));
            proof {
                assert(lower@.subrange(k as int, k + 1) == seq![ascii_lower(c)]);
            }
        } else {
            out.append(s.substring_char(i, i + 1));
        }
        assert(s@.take(i + 1) == s@.take(i as int).push(c));
        i = i + 1;
    }
    assert(s@.take(v.len() as int) == s@);
    out
}

/// `str::eq_ignore_ascii_case`.
pub fn eq_ignore_ascii_case(a: &str, b: &str) -> (r: bool)
    ensures
        r == eq_ignore_ascii_case_seq(a@, b@),
{
    let la = to_ascii_lowercase(a);
    let lb = to_ascii_lowercase(b);
    la == lb
}

/// `str::to_ascii_uppercase`.
pub fn to_ascii_uppercase(s: &str) -> (r: String)
    ensures
        r@ == ascii_upper_seq(s@),
{
    let v = chars_of(s);
    let upper = "ABCDEFGHIJKLMNOPQRSTUVWXYZ";
    proof {
        reveal_strlit("ABCDEFGHIJKLMNOPQRSTUVWXYZ");
    }
    let mut out = String::new();
    let mut i: usize = 0;
    while i < v.len()
        invariant
            v@ == s@,
            i <= v.len(),
            upper@ == seq!['A','B','C','D','E','F','G','H','I','J','K','L','M','N','O','P','Q','R','S','T','U','V','W','X','Y','Z'],
            out@ == ascii_upper_seq(s@.take(i as int)),
        decreases v.len() - i,
    {
        let c = v[i];
        if 'a' <= c && c <= 'z' {
            let k = ((c as u32) - ('a' as u32)) as usize;
            out.append(upper.substring_char(k, k + 1));
            proof {
                assert(upper@.subrange(k as int, k + 1) == seq![ascii_upper(c)]);
            }
        } else {
            out.append(s.substring_char(i, i + 1));
        }
        assert(s@.take(i + 1) == s@.take(i as int).push(c));
        i = i + 1;
    }
    assert(s@.take(v.len() as int) == s@);
    out
}

/// Whether `a` sorts before `b` (`a < b` on strings).
pub fn str_less(a: &str, b: &str) -> (r: bool)
    ensures
        r == seq_less(a@, b@),
{
    let x = chars_of(a);
    let y = chars_of(b);
    let mut i: usize = 0;
    assert(a@.skip(0) == a@);
    assert(b@.skip(0) == b@);
    while i < x.len() && i < y.len()
        invariant
            x@ == a@,
            y@ == b@,
            i <= x.len(),
            i <= y.len(),
            seq_less(a@, b@) == seq_less(a@.skip(i as int), b@.skip(i as int)),
        decreases x.len() - i,
    {
        let c = x[i];
        let d = y[i];
        proof {
            assert(a@.skip(i as int)[0] == a@[i as int]);
            assert(b@.skip(i as int)[0] == b@[i as int]);
            assert(a@.skip(i as int).drop_first() == a@.skip(i + 1));
            assert(b@.skip(i as int).drop_first() == b@.skip(i + 1));
        }
        if c < d {
            return true;
        }
        if c > d {
            return false;
        }
        i = i + 1;
    }
    proof {
        assert(a@.skip(i as int).len() == a@.len() - i);
        assert(b@.skip(i as int).len() == b@.len() - i);
    }
    i == x.len() && i < y.len()
}

} // verus!

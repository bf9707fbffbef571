//! Byte-level text scanning for large inputs (the `usb.ids` database).
//!
//! Positions are UTF-8 byte offsets, so each step is constant time; every cut
//! is made at a character boundary. Whitespace is `char::is_whitespace`,
//! recognised through the UTF-8 encodings of the Unicode `White_Space` set.
use vstd::prelude::*;
use vstd::string::StringSliceAdditionalSpecFns;
use vstd::utf8::*;

verus! {

broadcast use vstd::utf8::group_utf8_lib;

/// Encoded length of the whitespace character that starts at byte `i` of `b`,
/// or 0 when no whitespace character starts there.
pub open spec fn ws_len_at(b: Seq<u8>, i: int) -> int {
    if i < 0 || i >= b.len() {
        0
    } else if (9 <= b[i] <= 13) || b[i] == 32 {
        1
    } else if i + 1 < b.len() && b[i] == 0xc2 && (b[i + 1] == 0x85 || b[i + 1] == 0xa0) {
        2
    } else if i + 2 < b.len() && (
        (b[i] == 0xe1 && b[i + 1] == 0x9a && b[i + 2] == 0x80)
        || (b[i] == 0xe2 && b[i + 1] == 0x80 && ((0x80 <= b[i + 2] <= 0x8a) || b[i + 2] == 0xa8 || b[i + 2] == 0xa9 || b[i + 2] == 0xaf))
        || (b[i] == 0xe2 && b[i + 1] == 0x81 && b[i + 2] == 0x9f)
        || (b[i] == 0xe3 && b[i + 1] == 0x80 && b[i + 2] == 0x80)) {
        3
    } else {
        0
    }
}

/// Encoded length of the whitespace character that ends `b`, or 0.
pub open spec fn ws_len_at_end(b: Seq<u8>) -> int {
    let n = b.len() as int;
    if ws_len_at(b, n - 1) == 1 {
        1
    } else if ws_len_at(b, n - 2) == 2 {
        2
    } else if ws_len_at(b, n - 3) == 3 {
        3
    } else {
        0
    }
}

/// `str::trim_start` on UTF-8 bytes.
pub open spec fn trim_start_bytes(b: Seq<u8>) -> Seq<u8>
    decreases b.len(),
{
    let k = ws_len_at(b, 0);
    if k > 0 {
        trim_start_bytes(b.skip(k))
    } else {
        b
    }
}

/// `str::trim_end` on UTF-8 bytes.
pub open spec fn trim_end_bytes(b: Seq<u8>) -> Seq<u8>
    decreases b.len(),
{
    let k = ws_len_at_end(b);
    if k > 0 {
        trim_end_bytes(b.take(b.len() - k))
    } else {
        b
    }
}

/// `str::trim` on UTF-8 bytes.
pub open spec fn trim_bytes(b: Seq<u8>) -> Seq<u8> {
    trim_end_bytes(trim_start_bytes(b))
}

/// Byte offset of the first whitespace character in `b`.
pub open spec fn first_ws_from(b: Seq<u8>, i: nat) -> Option<int>
    decreases b.len() - i,
{
    if i >= b.len() {
        None
    } else if ws_len_at(b, i as int) > 0 {
        Some(i as int)
    } else {
        first_ws_from(b, i + 1)
    }
}

/// `str::split_once(char::is_whitespace)` on UTF-8 bytes.
pub open spec fn split_once_ws_bytes(b: Seq<u8>) -> Option<(Seq<u8>, Seq<u8>)> {
    match first_ws_from(b, 0) {
        Some(i) => Some((b.take(i), b.skip(i + ws_len_at(b, i)))),
        None => None,
    }
}

/// Offset of the first `c` byte at or after `i`.
pub open spec fn first_byte_from(b: Seq<u8>, c: u8, i: nat) -> Option<int>
    decreases b.len() - i,
{
    if i >= b.len() {
        None
    } else if b[i as int] == c {
        Some(i as int)
    } else {
        first_byte_from(b, c, i + 1)
    }
}

/// A line without its `\n` terminator loses one trailing `\r`.
pub open spec fn strip_cr(line: Seq<u8>) -> Seq<u8> {
    if line.len() > 0 && line.last() == 13 {
        line.drop_last()
    } else {
        line
    }
}

/// `str::lines`: split at `\n`, dropping a `\r` before it; a final line
/// without terminator is kept as it is.
pub open spec fn lines_bytes(b: Seq<u8>) -> Seq<Seq<u8>>
    decreases b.len(),
{
    if b.len() == 0 {
        Seq::empty()
    } else {
        proof {
            lemma_first_byte_from_bound(b, 10, 0);
        }
        match first_byte_from(b, 10, 0) {
            Some(i) => seq![strip_cr(b.take(i))] + lines_bytes(b.skip(i + 1)),
            None => seq![b],
        }
    }
}

pub proof fn lemma_first_byte_from_bound(b: Seq<u8>, c: u8, i: nat)
    ensures
        first_byte_from(b, c, i) matches Some(j) ==> i <= j < b.len() && b[j] == c,
    decreases b.len() - i,
{
    if i < b.len() && b[i as int] != c {
        lemma_first_byte_from_bound(b, c, i + 1);
    }
}

/// Every `&str` holds valid UTF-8 and its characters decode from its bytes.
pub proof fn lemma_str_bytes(s: &str)
    ensures
        valid_utf8(s.spec_bytes()),
        decode_utf8(s.spec_bytes()) == s@,
{
}

/// Splitting after a complete first character of width `k` is a character boundary.
proof fn lemma_boundary_after_first(b: Seq<u8>, k: int)
    requires
        valid_utf8(b),
        b.len() >= k,
        (k == 1 && is_leading_byte_width_1(b[0])) || (k == 2 && is_leading_byte_width_2(b[0])) || (k
            == 3 && is_leading_byte_width_3(b[0])),
    ensures
        is_char_boundary(b, k),
{
    reveal_with_fuel(is_char_boundary, 2);
    assert(length_of_first_scalar(b) == k);
    assert(valid_utf8(pop_first_scalar(b)));
}

/// `ws_len_at` computed on a byte slice.
fn ws_len_at_exec(b: &[u8], i: usize) -> (k: usize)
    ensures
        k == ws_len_at(b@, i as int),
{
    let n = b.len();
    if i >= n {
        return 0;
    }
    let c = b[i];
    if (9 <= c && c <= 13) || c == 32 {
        return 1;
    }
    if n - i > 1 && c == 0xc2 && (b[i + 1] == 0x85 || b[i + 1] == 0xa0) {
        return 2;
    }
    if n - i > 2 {
        let d = b[i + 1];
        let e = b[i + 2];
        if (c == 0xe1 && d == 0x9a && e == 0x80) || (c == 0xe2 && d == 0x80 && ((0x80 <= e && e
            <= 0x8a) || e == 0xa8 || e == 0xa9 || e == 0xaf)) || (c == 0xe2 && d == 0x81 && e
            == 0x9f) || (c == 0xe3 && d == 0x80 && e == 0x80) {
            return 3;
        }
    }
    0
}

/// The first byte of a whitespace encoding is never a continuation byte.
proof fn lemma_ws_start(b: Seq<u8>, i: int)
    requires
        ws_len_at(b, i) > 0,
    ensures
        0 <= i < b.len(),
        !is_continuation_byte(b[i]),
        i + ws_len_at(b, i) <= b.len(),
        ws_len_at(b, i) == 1 ==> is_leading_byte_width_1(b[i]),
        ws_len_at(b, i) == 2 ==> is_leading_byte_width_2(b[i]),
        ws_len_at(b, i) == 3 ==> is_leading_byte_width_3(b[i]),
{
}

/// `str::trim_start`.
pub fn trim_start_str(s: &str) -> (r: &str)
    ensures
        r.spec_bytes() == trim_start_bytes(s.spec_bytes()),
    decreases s.spec_bytes().len(),
{
    let b = s.as_bytes();
    let k = ws_len_at_exec(b, 0);
    if k == 0 {
        return s;
    }
    proof {
        lemma_str_bytes(s);
        lemma_ws_start(b@, 0);
        let t = b@.skip(0);
        assert(t == b@);
        lemma_boundary_after_first(b@, k as int);
    }
    let (_, rest) = s.split_at(k);
    assert(rest.spec_bytes() == b@.skip(k as int));
    trim_start_str(rest)
}

/// `str::trim_end`.
pub fn trim_end_str(s: &str) -> (r: &str)
    ensures
        r.spec_bytes() == trim_end_bytes(s.spec_bytes()),
    decreases s.spec_bytes().len(),
{
    let b = s.as_bytes();
    let n = b.len();
    let k: usize = if n >= 1 && ws_len_at_exec(b, n - 1) == 1 {
        1
    } else if n >= 2 && ws_len_at_exec(b, n - 2) == 2 {
        2
    } else if n >= 3 && ws_len_at_exec(b, n - 3) == 3 {
        3
    } else {
        0
    };
    assert(k == ws_len_at_end(b@));
    if k == 0 {
        return s;
    }
    proof {
        lemma_str_bytes(s);
        lemma_ws_start(b@, n - k);
    }
    let (head, _) = s.split_at(n - k);
    assert(head.spec_bytes() == b@.take(n - k));
    trim_end_str(head)
}

/// `str::trim`, with the result described by its UTF-8 bytes.
pub fn trim_str(s: &str) -> (r: &str)
    ensures
        r.spec_bytes() == trim_bytes(s.spec_bytes()),
{
    trim_end_str(trim_start_str(s))
}

/// `str::split_once(char::is_whitespace)`, described by UTF-8 bytes.
pub fn split_once_ws_str<'a>(s: &'a str) -> (r: Option<(&'a str, &'a str)>)
    ensures
        match r {
            Some((a, c)) => split_once_ws_bytes(s.spec_bytes()) == Some((a.spec_bytes(), c.spec_bytes())),
            None => split_once_ws_bytes(s.spec_bytes()) is None,
        },
{
    let b = s.as_bytes();
    let n = b.len();
    let mut i: usize = 0;
    while i < n
        invariant
            n == b@.len(),
            b@ == s.spec_bytes(),
            i <= n,
            first_ws_from(b@, 0) == first_ws_from(b@, i as nat),
        decreases n - i,
    {
        let k = ws_len_at_exec(b, i);
        if k > 0 {
            proof {
                lemma_str_bytes(s);
                lemma_ws_start(b@, i as int);
            }
            let (left, rest) = s.split_at(i);
            assert(rest.spec_bytes() == b@.skip(i as int));
            proof {
                lemma_str_bytes(rest);
                let rb = rest.spec_bytes();
                assert(ws_len_at(rb, 0) == ws_len_at(b@, i as int));
                lemma_ws_start(rb, 0);
                lemma_boundary_after_first(rb, k as int);
            }
            let (_, right) = rest.split_at(k);
            assert(right.spec_bytes() == b@.skip(i + k));
            assert(left.spec_bytes() == b@.take(i as int));
            return Some((left, right));
        }
        i = i + 1;
    }
    None
}

/// Splits off the first line of a non-empty `s`, as `str::lines` yields it,
/// and returns it with the text after its terminator.
pub fn split_first_line<'a>(s: &'a str) -> (r: (&'a str, &'a str))
    requires
        s.spec_bytes().len() > 0,
    ensures
        lines_bytes(s.spec_bytes()) == seq![r.0.spec_bytes()] + lines_bytes(r.1.spec_bytes()),
        r.1.spec_bytes().len() < s.spec_bytes().len(),
{
    let b = s.as_bytes();
    let n = b.len();
    let mut i: usize = 0;
    while i < n
        invariant
            n == b@.len(),
            b@ == s.spec_bytes(),
            i <= n,
            first_byte_from(b@, 10, 0) == first_byte_from(b@, 10, i as nat),
        decreases n - i,
    {
        if b[i] == 10 {
            proof {
                lemma_str_bytes(s);
                assert(!is_continuation_byte(b@[i as int]));
            }
            let (line, rest) = s.split_at(i);
            assert(rest.spec_bytes() == b@.skip(i as int));
            assert(line.spec_bytes() == b@.take(i as int));
            proof {
                lemma_str_bytes(rest);
                lemma_boundary_after_first(rest.spec_bytes(), 1);
            }
            let (_, after) = rest.split_at(1);
            assert(after.spec_bytes() == b@.skip(i + 1));
            let lb = line.as_bytes();
            let m = lb.len();
            if m > 0 && lb[m - 1] == 13 {
                proof {
                    lemma_str_bytes(line);
                    assert(!is_continuation_byte(lb@[m - 1]));
                }
                let (stripped, _) = line.split_at(m - 1);
                assert(stripped.spec_bytes() == lb@.drop_last());
                return (stripped, after);
            }
            return (line, after);
        }
        i = i + 1;
    }
    let empty = "";
    proof {
        reveal_strlit("");
        assert(lines_bytes(empty.spec_bytes()) == Seq::<Seq<u8>>::empty());
        assert(seq![s.spec_bytes()] + Seq::<Seq<u8>>::empty() == seq![s.spec_bytes()]);
    }
    (s, empty)
}

} // verus!

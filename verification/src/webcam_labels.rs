//! Webcam source labels for Linux: USB product names in place of generic V4L2
//! names such as "UVC Camera (046d:0823)".
//!
//! What the system tells about a camera (its names, and what sysfs holds for
//! the USB device behind it) comes in as plain values; the library decides the
//! label and the key by which duplicate devices are recognised.
use std::collections::HashMap;
use vstd::prelude::*;
use vstd::string::StringSliceAdditionalSpecFns;
use vstd::utf8::*;

use crate::text::{
    chars_of, contains, contains_seq, decimal, find_char, first_index_of, has_prefix, hex4, lemma_parse_decimal,
    parse_unsigned, parse_unsigned_seq, push_decimal, push_hex4, starts_with, trim, trim_owned,
    trim_seq, IntParseError,
};
use crate::utf8_text::{
    lemma_str_bytes, lines_bytes, split_first_line, split_once_ws_bytes, split_once_ws_str,
    trim_bytes, trim_str,
};

verus! {

broadcast use {vstd::std_specs::hash::group_hash_axioms, vstd::utf8::group_utf8_lib};

/// Key of a (vendor, product) pair in a [`UsbNameTable`].
pub open spec fn usb_key(vendor: u16, product: u16) -> u32 {
    (vendor as nat * 65536 + product as nat) as u32
}

/// Two different id pairs never share a key, so a name looked up for one
/// device is never another device's.
pub proof fn lemma_usb_key_injective(v1: u16, p1: u16, v2: u16, p2: u16)
    ensures
        usb_key(v1, p1) == usb_key(v2, p2) ==> v1 == v2 && p1 == p2,
{
}

/// USB product names by vendor and product id, as listed in `usb.ids`.
pub struct UsbNameTable {
    names: HashMap<u32, String>,
}

impl View for UsbNameTable {
    type V = Map<u32, Seq<char>>;

    closed spec fn view(&self) -> Map<u32, Seq<char>> {
        self.names@.map_values(|s: String| s@)
    }
}

impl UsbNameTable {
    /// A table with no names.
    pub fn new() -> (t: Self)
        ensures
            t@ == Map::<u32, Seq<char>>::empty(),
    {
        let t = UsbNameTable { names: HashMap::new() };
        assert(t@ =~= Map::<u32, Seq<char>>::empty());
        t
    }

    /// Records `name` for the pair, replacing an earlier one.
    pub fn insert(&mut self, vendor: u16, product: u16, name: String)
        ensures
            final(self)@ == old(self)@.insert(usb_key(vendor, product), name@),
    {
        let key: u32 = (vendor as u32) * 65536 + (product as u32);
        self.names.insert(key, name);
        assert(self@ =~= old(self)@.insert(usb_key(vendor, product), name@));
    }

    /// The name recorded for `(vendor, product)`.
    pub fn get(&self, key: &(u16, u16)) -> (r: Option<&String>)
        ensures
            match r {
                Some(s) => self@.contains_key(usb_key(key.0, key.1)) && s@ == self@[usb_key(key.0, key.1)],
                None => !self@.contains_key(usb_key(key.0, key.1)),
            },
    {
        let k: u32 = (key.0 as u32) * 65536 + (key.1 as u32);
        self.names.get(&k)
    }

    /// Number of names in the table.
    pub fn len(&self) -> (n: usize)
        ensures
            n == self@.len(),
    {
        assert(self@.dom() =~= self.names@.dom());
        self.names.len()
    }
}

/// What one line of `usb.ids` does to the parser state: the vendor that
/// product lines belong to, and the names found so far.
pub open spec fn usb_ids_step(
    state: (Option<u16>, Map<u32, Seq<char>>),
    line: Seq<u8>,
) -> (Option<u16>, Map<u32, Seq<char>>) {
    let (vendor, names) = state;
    if (line.len() > 0 && line[0] == 35) || trim_bytes(line).len() == 0 {
        state
    } else if line[0] == 9 {
        match vendor {
            None => state,
            Some(v) => match split_once_ws_bytes(trim_bytes(line)) {
                None => state,
                Some((id, name)) => match parse_unsigned_seq(decode_utf8(id), 16, 0xffff) {
                    Err(_) => state,
                    Ok(p) => if trim_bytes(name).len() > 0 {
                        (vendor, names.insert(usb_key(v, p as u16), decode_utf8(trim_bytes(name))))
                    } else {
                        state
                    },
                },
            },
        }
    } else {
        match split_once_ws_bytes(line) {
            None => state,
            Some((id, _)) => match parse_unsigned_seq(decode_utf8(id), 16, 0xffff) {
                Ok(v) => (Some(v as u16), names),
                Err(_) => (None, names),
            },
        }
    }
}

/// The parser state after the given lines, in order.
pub open spec fn usb_ids_fold(
    lines: Seq<Seq<u8>>,
    state: (Option<u16>, Map<u32, Seq<char>>),
) -> (Option<u16>, Map<u32, Seq<char>>)
    decreases lines.len(),
{
    if lines.len() == 0 {
        state
    } else {
        usb_ids_fold(lines.drop_first(), usb_ids_step(state, lines[0]))
    }
}

/// The product names listed in the `usb.ids` text whose UTF-8 bytes are `content`.
pub open spec fn usb_ids_names(content: Seq<u8>) -> Map<u32, Seq<char>> {
    usb_ids_fold(lines_bytes(content), (None, Map::empty())).1
}

/// `u16::from_str_radix(s, 16)` on a `&str`.
fn parse_hex_u16(s: &str) -> (r: Option<u16>)
    ensures
        match r {
            Some(v) => parse_unsigned_seq(s@, 16, 0xffff) == Ok::<nat, IntParseError>(v as nat),
            None => parse_unsigned_seq(s@, 16, 0xffff) is Err,
        },
{
    match parse_unsigned(s, 16, 0xffff) {
        Ok(v) => Some(v as u16),
        Err(_) => None,
    }
}

/// Parses the `usb.ids` database: vendor lines `vvvv  Vendor`, followed by
/// tab-indented product lines `\tpppp  Product`; comments and blank lines are skipped.
pub fn parse_usb_ids(content: &str) -> (names: UsbNameTable)
    ensures
        names@ == usb_ids_names(content.spec_bytes()),
{
    let mut names = UsbNameTable::new();
    let mut current_vendor: Option<u16> = None;
    let mut rest: &str = content;
    while rest.as_bytes().len() > 0
        invariant
            usb_ids_names(content.spec_bytes()) == usb_ids_fold(
                lines_bytes(rest.spec_bytes()),
                (current_vendor, names@),
            ).1,
        decreases rest.spec_bytes().len(),
    {
        let (line, after) = split_first_line(rest);
        let ghost before = (current_vendor, names@);
        proof {
            let ls = seq![line.spec_bytes()] + lines_bytes(after.spec_bytes());
            assert(ls.drop_first() == lines_bytes(after.spec_bytes()));
            assert(ls[0] == line.spec_bytes());
        }
        let lb = line.as_bytes();
        let trimmed = trim_str(line);
        if (lb.len() > 0 && lb[0] == 35) || trimmed.as_bytes().len() == 0 {
        } else if lb[0] == 9 {
            if let Some(v) = current_vendor {
                if let Some((id, name)) = split_once_ws_str(trimmed) {
                    proof {
                        lemma_str_bytes(id);
                    }
                    if let Some(p) = parse_hex_u16(id) {
                        let name_trimmed = trim_str(name);
                        if name_trimmed.as_bytes().len() > 0 {
                            proof {
                                lemma_str_bytes(name_trimmed);
                            }
                            names.insert(v, p, String::from_str(name_trimmed));
                        }
                    }
                }
            }
        } else {
            match split_once_ws_str(line) {
                None => {},
                Some((id, _)) => {
                    proof {
                        lemma_str_bytes(id);
                    }
                    current_vendor = parse_hex_u16(id);
                },
            }
        }
        assert((current_vendor, names@) == usb_ids_step(before, line.spec_bytes()));
        rest = after;
    }
    proof {
        assert(lines_bytes(rest.spec_bytes()) == Seq::<Seq<u8>>::empty());
    }
    names
}

/// `read_sysfs_string`: the trimmed contents of a sysfs attribute, absent when
/// it could not be read or is blank.
pub open spec fn sysfs_value(raw: Option<Seq<char>>) -> Option<Seq<char>> {
    match raw {
        Some(r) => if trim_seq(r).len() == 0 {
            None
        } else {
            Some(trim_seq(r))
        },
        None => None,
    }
}

/// `parse_hex_id`: a hexadecimal 16-bit id, surrounding whitespace allowed.
pub open spec fn hex_id(raw: Seq<char>) -> Option<u16> {
    match parse_unsigned_seq(trim_seq(raw), 16, 0xffff) {
        Ok(v) => Some(v as u16),
        Err(_) => None,
    }
}

/// `parse_hex_id`.
pub fn parse_hex_id(raw: &str) -> (r: Option<u16>)
    ensures
        r == hex_id(raw@),
{
    let t = trim(raw);
    parse_hex_u16(t)
}

/// The trimmed contents of a sysfs attribute, absent when unreadable or blank.
pub fn read_sysfs_value(raw: &Option<String>) -> (r: Option<String>)
    ensures
        r matches Some(s) ==> sysfs_value(opt_view(raw)) == Some(s@),
        r is None ==> sysfs_value(opt_view(raw)) is None,
{
    match raw {
        Some(r) => {
            let t = trim_owned(r.as_str());
            if t.as_str().unicode_len() == 0 {
                None
            } else {
                Some(t)
            }
        },
        None => None,
    }
}

/// The character view of an optional string.
pub open spec fn opt_view(s: &Option<String>) -> Option<Seq<char>> {
    match s {
        Some(t) => Some(t@),
        None => None,
    }
}

/// `combine_manufacturer_product` on character sequences.
pub open spec fn combine_spec(manufacturer: Option<Seq<char>>, product: Option<Seq<char>>) -> Option<Seq<char>> {
    match (manufacturer, product) {
        (Some(m), Some(p)) => {
            let m = trim_seq(m);
            let p = trim_seq(p);
            if p.len() == 0 {
                None
            } else if m.len() == 0 || contains_seq(p, m) {
                Some(p)
            } else {
                Some(m + seq![' '] + p)
            }
        },
        (None, Some(p)) => if trim_seq(p).len() > 0 {
            Some(trim_seq(p))
        } else {
            None
        },
        (Some(m), None) => if trim_seq(m).len() > 0 {
            Some(trim_seq(m))
        } else {
            None
        },
        (None, None) => None,
    }
}

/// A device name from the sysfs `manufacturer` and `product` attributes: the
/// product alone when it already names the manufacturer, else both.
pub fn combine_manufacturer_product(manufacturer: Option<&str>, product: Option<&str>) -> (r: Option<String>)
    ensures
        r matches Some(s) ==> combine_spec(opt_str_view(manufacturer), opt_str_view(product)) == Some(s@),
        r is None ==> combine_spec(opt_str_view(manufacturer), opt_str_view(product)) is None,
{
    match (manufacturer, product) {
        (Some(m), Some(p)) => {
            let m = trim(m);
            let p = trim(p);
            if p.unicode_len() == 0 {
                return None;
            }
            if m.unicode_len() == 0 || contains(p, m) {
                Some(String::from_str(p))
            } else {
                let mut s = String::from_str(m);
                s.append(" ");
                s.append(p);
                proof {
                    reveal_strlit(" ");
                }
                Some(s)
            }
        },
        (None, Some(p)) => {
            let p = trim(p);
            if p.unicode_len() > 0 {
                Some(String::from_str(p))
            } else {
                None
            }
        },
        (Some(m), None) => {
            let m = trim(m);
            if m.unicode_len() > 0 {
                Some(String::from_str(m))
            } else {
                None
            }
        },
        (None, None) => None,
    }
}

/// The character view of an optional `&str`.
pub open spec fn opt_str_view(s: Option<&str>) -> Option<Seq<char>> {
    match s {
        Some(t) => Some(t@),
        None => None,
    }
}

/// Number of bytes in the UTF-8 encoding of `s` (`str::len`).
pub open spec fn utf8_len(s: Seq<char>) -> nat {
    encode_utf8(s).len()
}

/// The parenthesised ids of a UVC camera name are well placed: when the name
/// has both parentheses, the first `(` comes before the first `)`.
pub open spec fn parens_ordered(name: Seq<char>) -> bool {
    match (first_index_of(name, '('), first_index_of(name, ')')) {
        (Some(a), Some(b)) => a < b,
        _ => true,
    }
}

/// Whether `name`'s parentheses are well placed (what [`parse_uvc_ids`]
/// needs: slicing between them would otherwise panic).
pub fn has_ordered_parens(name: &str) -> (b: bool)
    ensures
        b == parens_ordered(name@),
{
    let chars = chars_of(name);
    match (find_char(&chars, '('), find_char(&chars, ')')) {
        (Some(a), Some(b)) => a < b,
        _ => true,
    }
}

/// `parse_uvc_ids`: the `vvvv:pppp` text between the first `(` and the first
/// `)`, when both halves are four bytes long.
pub open spec fn uvc_ids_spec(name: Seq<char>) -> Option<(Seq<char>, Seq<char>)> {
    match (first_index_of(name, '('), first_index_of(name, ')')) {
        (Some(a), Some(b)) => {
            let ids = name.subrange(a + 1, b);
            match first_index_of(ids, ':') {
                Some(c) => {
                    let vendor = ids.take(c);
                    let product = ids.skip(c + 1);
                    if utf8_len(vendor) != 4 || utf8_len(product) != 4 {
                        None
                    } else {
                        Some((vendor, product))
                    }
                },
                None => None,
            }
        },
        _ => None,
    }
}

/// The vendor and product ids of a generic V4L2 name such as "UVC Camera (046d:0823)".
pub fn parse_uvc_ids(human_name: &str) -> (r: Option<(String, String)>)
    requires
        parens_ordered(human_name@),
    ensures
        match r {
            Some((v, p)) => uvc_ids_spec(human_name@) == Some((v@, p@)),
            None => uvc_ids_spec(human_name@) is None,
        },
{
    let chars = chars_of(human_name);
    let start = match find_char(&chars, '(') {
        Some(a) => a,
        None => return None,
    };
    let end = match find_char(&chars, ')') {
        Some(b) => b,
        None => return None,
    };
    proof {
        lemma_first_index_bound(chars@, '(');
        lemma_first_index_bound(chars@, ')');
    }
    let ids = human_name.substring_char(start + 1, end);
    let ids_chars = chars_of(ids);
    let colon = match find_char(&ids_chars, ':') {
        Some(c) => c,
        None => return None,
    };
    proof {
        lemma_first_index_bound(ids_chars@, ':');
    }
    let vendor = ids.substring_char(0, colon);
    let product = ids.substring_char(colon + 1, ids_chars.len());
    proof {
        assert(chars@ == human_name@);
        assert(ids@ == human_name@.subrange(start + 1, end as int));
        assert(vendor@ == ids@.take(colon as int));
        assert(product@ == ids@.skip(colon + 1));
    }
    if vendor.as_bytes().len() != 4 || product.as_bytes().len() != 4 {
        return None;
    }
    let r = (String::from_str(vendor), String::from_str(product));
    assert(uvc_ids_spec(human_name@) == Some((r.0@, r.1@)));
    Some(r)
}

proof fn lemma_first_index_bound(s: Seq<char>, c: char)
    ensures
        first_index_of(s, c) matches Some(i) ==> 0 <= i < s.len() && s[i] == c,
    decreases s.len(),
{
    if s.len() > 0 && s[0] != c {
        lemma_first_index_bound(s.drop_first(), c);
    }
}

/// `usb_ids_from_human_name` as a specification.
pub open spec fn human_name_ids(name: Seq<char>) -> Option<(u16, u16)> {
    match uvc_ids_spec(name) {
        Some((v, p)) => match (parse_unsigned_seq(v, 16, 0xffff), parse_unsigned_seq(p, 16, 0xffff)) {
            (Ok(vi), Ok(pi)) => Some((vi as u16, pi as u16)),
            _ => None,
        },
        None => None,
    }
}

/// The USB ids named in a generic V4L2 camera name.
pub fn usb_ids_from_human_name(human_name: &str) -> (r: Option<(u16, u16)>)
    requires
        parens_ordered(human_name@),
    ensures
        r == human_name_ids(human_name@),
{
    let (vendor, product) = match parse_uvc_ids(human_name) {
        Some(ids) => ids,
        None => return None,
    };
    let v = match parse_hex_u16(vendor.as_str()) {
        Some(v) => v,
        None => return None,
    };
    let p = match parse_hex_u16(product.as_str()) {
        Some(p) => p,
        None => return None,
    };
    Some((v, p))
}

/// Index of the last occurrence of `c` in `s`.
pub open spec fn last_index_of(s: Seq<char>, c: char) -> Option<int>
    decreases s.len(),
{
    if s.len() == 0 {
        None
    } else if s.last() == c {
        Some(s.len() - 1)
    } else {
        last_index_of(s.drop_last(), c)
    }
}

pub proof fn lemma_last_index_bound(s: Seq<char>, c: char)
    ensures
        last_index_of(s, c) matches Some(i) ==> 0 <= i < s.len() && s[i] == c,
    decreases s.len(),
{
    if s.len() > 0 && s.last() != c {
        lemma_last_index_bound(s.drop_last(), c);
    }
}

/// Index of the last `c` among the first `end` characters of `v`.
fn last_index_before(v: &Vec<char>, c: char, end: usize) -> (r: Option<usize>)
    requires
        end <= v.len(),
    ensures
        match r {
            Some(i) => last_index_of(v@.take(end as int), c) == Some(i as int),
            None => last_index_of(v@.take(end as int), c) is None,
        },
{
    let mut j: usize = end;
    while j > 0
        invariant
            j <= end <= v.len(),
            last_index_of(v@.take(end as int), c) == last_index_of(v@.take(j as int), c),
        decreases j,
    {
        assert(v@.take(j as int).last() == v@[j - 1]);
        assert(v@.take(j as int).drop_last() == v@.take(j - 1));
        if v[j - 1] == c {
            return Some(j - 1);
        }
        j = j - 1;
    }
    None
}

/// `description.rsplit('@').next()`: the text after the last `@`, or all of it.
pub open spec fn after_last_at(s: Seq<char>) -> Seq<char> {
    match last_index_of(s, '@') {
        Some(i) => s.skip(i + 1),
        None => s,
    }
}

/// `device_path_from_description`.
pub open spec fn device_path_spec(description: Seq<char>) -> Option<Seq<char>> {
    let path = trim_seq(after_last_at(description));
    if has_prefix(path, "/dev/"@) {
        Some(path)
    } else {
        None
    }
}

/// The device node named after the last `@` of a camera description such as
/// "Video4Linux Device @ /dev/video0".
pub fn device_path_from_description(description: &str) -> (r: Option<String>)
    ensures
        match r {
            Some(p) => device_path_spec(description@) == Some(p@),
            None => device_path_spec(description@) is None,
        },
{
    let chars = chars_of(description);
    let tail = match last_index_before(&chars, '@', chars.len()) {
        Some(i) => {
            proof {
                lemma_last_index_bound(chars@.take(chars.len() as int), '@');
            }
            description.substring_char(i + 1, chars.len())
        },
        None => description,
    };
    assert(chars@.take(chars.len() as int) == chars@);
    let path = trim(tail);
    if starts_with(path, "/dev/") {
        Some(String::from_str(path))
    } else {
        None
    }
}

/// The last path component, as `Path::components` yields it: empty and `.`
/// components are skipped.
pub open spec fn last_segment(p: Seq<char>) -> Option<Seq<char>>
    decreases p.len(),
{
    if p.len() == 0 {
        None
    } else if p.last() == '/' {
        last_segment(p.drop_last())
    } else {
        let k = match last_index_of(p, '/') {
            Some(i) => i + 1,
            None => 0,
        };
        proof {
            lemma_last_index_bound(p, '/');
        }
        if p.skip(k) == seq!['.'] {
            last_segment(p.take(k))
        } else {
            Some(p.skip(k))
        }
    }
}

/// `Path::file_name`: the last component unless it is `..`.
pub open spec fn file_name_spec(p: Seq<char>) -> Option<Seq<char>> {
    match last_segment(p) {
        Some(s) => if s == seq!['.', '.'] {
            None
        } else {
            Some(s)
        },
        None => None,
    }
}

/// `sysfs_video_node`: `/sys/class/video4linux/<name>` for a device node.
pub open spec fn sysfs_video_node_spec(device_path: Seq<char>) -> Option<Seq<char>> {
    match file_name_spec(device_path) {
        Some(name) => Some("/sys/class/video4linux/"@ + name),
        None => None,
    }
}

/// The sysfs directory of a video device node.
pub fn sysfs_video_node(device_path: &str) -> (r: Option<String>)
    ensures
        match r {
            Some(p) => sysfs_video_node_spec(device_path@) == Some(p@),
            None => sysfs_video_node_spec(device_path@) is None,
        },
{
    let v = chars_of(device_path);
    let mut end: usize = v.len();
    assert(v@.take(end as int) == v@);
    loop
        invariant
            v@ == device_path@,
            end <= v.len(),
            last_segment(v@) == last_segment(v@.take(end as int)),
        decreases end,
    {
        let ghost cur = v@.take(end as int);
        if end == 0 {
            return None;
        }
        assert(cur.last() == v@[end - 1]);
        if v[end - 1] == '/' {
            assert(cur.drop_last() == v@.take(end - 1));
            end = end - 1;
        } else {
            let k: usize = match last_index_before(&v, '/', end) {
                Some(i) => {
                    proof {
                        lemma_last_index_bound(cur, '/');
                    }
                    i + 1
                },
                None => 0,
            };
            assert(cur.skip(k as int) == v@.subrange(k as int, end as int));
            assert(cur.take(k as int) == v@.take(k as int));
            if end - k == 1 && v[k] == '.' {
                assert(cur.skip(k as int) == seq!['.']);
                end = k;
            } else {
                assert(cur.skip(k as int).len() == end - k);
                if end - k == 1 {
                    assert(cur.skip(k as int)[0] == v@[k as int]);
                }
                assert(cur.skip(k as int) != seq!['.']);
                let seg = device_path.substring_char(k, end);
                if end - k == 2 && v[k] == '.' && v[k + 1] == '.' {
                    assert(seg@ == seq!['.', '.']);
                    return None;
                }
                assert(seg@ != seq!['.', '.']);
                let mut out = String::from_str("/sys/class/video4linux/");
                out.append(seg);
                return Some(out);
            }
        }
    }
}

/// What sysfs holds for the USB device behind a camera: the device directory
/// and the raw contents of its `idVendor`, `idProduct`, `manufacturer` and
/// `product` attributes (`None` where a file could not be read).
pub struct UsbSysfsFacts {
    pub sysfs_path: String,
    pub id_vendor: Option<String>,
    pub id_product: Option<String>,
    pub manufacturer: Option<String>,
    pub product: Option<String>,
}

/// A camera as the capture backend lists it, with the USB device found for
/// its video node (`None` when the node or the device could not be found).
pub struct CameraFacts {
    pub human_name: String,
    pub description: String,
    pub usb: Option<UsbSysfsFacts>,
}

/// `usb_ids_for_sysfs_node`: both ids read from sysfs.
pub open spec fn sysfs_ids(usb: &UsbSysfsFacts) -> Option<(u16, u16)> {
    match (opt_view(&usb.id_vendor), opt_view(&usb.id_product)) {
        (Some(v), Some(p)) => match (hex_id(v), hex_id(p)) {
            (Some(vi), Some(pi)) => Some((vi, pi)),
            _ => None,
        },
        _ => None,
    }
}

/// The vendor and product ids that sysfs reports for the device.
pub fn usb_ids_for_sysfs_node(usb: &UsbSysfsFacts) -> (r: Option<(u16, u16)>)
    ensures
        r == sysfs_ids(usb),
{
    let vendor = match &usb.id_vendor {
        Some(raw) => match parse_hex_id(raw.as_str()) {
            Some(v) => v,
            None => return None,
        },
        None => return None,
    };
    let product = match &usb.id_product {
        Some(raw) => match parse_hex_id(raw.as_str()) {
            Some(p) => p,
            None => return None,
        },
        None => return None,
    };
    Some((vendor, product))
}

/// `lookup_usb_name`: the sysfs manufacturer/product name, else the table's.
pub open spec fn lookup_spec(vendor: u16, product: u16, usb: &UsbSysfsFacts, names: Map<u32, Seq<char>>) -> Option<Seq<char>> {
    match combine_spec(sysfs_value(opt_view(&usb.manufacturer)), sysfs_value(opt_view(&usb.product))) {
        Some(n) => Some(n),
        None => if names.contains_key(usb_key(vendor, product)) {
            Some(names[usb_key(vendor, product)])
        } else {
            None
        },
    }
}

/// The name of a USB device: from its sysfs attributes, else from `usb.ids`.
pub fn lookup_usb_name(vendor: u16, product: u16, usb: &UsbSysfsFacts, usb_names: &UsbNameTable) -> (r: Option<String>)
    ensures
        match r {
            Some(n) => lookup_spec(vendor, product, usb, usb_names@) == Some(n@),
            None => lookup_spec(vendor, product, usb, usb_names@) is None,
        },
{
    let manufacturer = read_sysfs_value(&usb.manufacturer);
    let product_name = read_sysfs_value(&usb.product);
    let m: Option<&str> = match &manufacturer {
        Some(s) => Some(s.as_str()),
        None => None,
    };
    let p: Option<&str> = match &product_name {
        Some(s) => Some(s.as_str()),
        None => None,
    };
    proof {
        assert(opt_str_view(m) == sysfs_value(opt_view(&usb.manufacturer)));
        assert(opt_str_view(p) == sysfs_value(opt_view(&usb.product)));
    }
    if let Some(name) = combine_manufacturer_product(m, p) {
        return Some(name);
    }
    match usb_names.get(&(vendor, product)) {
        Some(n) => Some(n.clone()),
        None => None,
    }
}

/// `resolve_usb_key`: what identifies the physical device behind a camera.
pub open spec fn usb_key_spec(camera: &CameraFacts, index: nat) -> Seq<char> {
    let from_sysfs = match &camera.usb {
        Some(usb) => match sysfs_ids(usb) {
            Some((v, p)) => Some(hex4(v) + seq![':'] + hex4(p) + seq!['@'] + usb.sysfs_path@),
            None => None,
        },
        None => None,
    };
    match from_sysfs {
        Some(k) => k,
        None => match human_name_ids(camera.human_name@) {
            Some((v, p)) => hex4(v) + seq![':'] + hex4(p),
            None => "fallback:"@ + decimal(index),
        },
    }
}

/// The key by which two listed cameras are recognised as one device:
/// `vvvv:pppp@<sysfs dir>`, else the ids from the name, else the list position.
pub fn resolve_usb_key(camera: &CameraFacts, index: usize) -> (k: String)
    requires
        parens_ordered(camera.human_name@),
    ensures
        k@ == usb_key_spec(camera, index as nat),
{
    if let Some(usb) = &camera.usb {
        if let Some((v, p)) = usb_ids_for_sysfs_node(usb) {
            let mut k = String::new();
            push_hex4(&mut k, v);
            k.append(":");
            push_hex4(&mut k, p);
            k.append("@");
            k.append(usb.sysfs_path.as_str());
            proof {
                reveal_strlit(":");
                reveal_strlit("@");
            }
            return k;
        }
    }
    if let Some((v, p)) = usb_ids_from_human_name(camera.human_name.as_str()) {
        let mut k = String::new();
        push_hex4(&mut k, v);
        k.append(":");
        push_hex4(&mut k, p);
        proof {
            reveal_strlit(":");
        }
        return k;
    }
    let mut k = String::from_str("fallback:");
    push_decimal(&mut k, index as u64);
    k
}

/// `resolve_label`: the label shown for a camera.
pub open spec fn label_spec(camera: &CameraFacts, names: Map<u32, Seq<char>>) -> Seq<char> {
    let from_sysfs = match &camera.usb {
        Some(usb) => match sysfs_ids(usb) {
            Some((v, p)) => lookup_spec(v, p, usb, names),
            None => None,
        },
        None => None,
    };
    match from_sysfs {
        Some(n) => n,
        None => match human_name_ids(camera.human_name@) {
            Some((v, p)) => if names.contains_key(usb_key(v, p)) {
                names[usb_key(v, p)]
            } else {
                camera.human_name@
            },
            None => camera.human_name@,
        },
    }
}

/// The name of a camera's USB device as sysfs and the table give it: the
/// device's ids must parse, then its manufacturer/product attributes are
/// used, else the table's entry for the ids.
pub open spec fn sysfs_name(camera: &CameraFacts, names: Map<u32, Seq<char>>) -> Option<Seq<char>> {
    match &camera.usb {
        Some(usb) => match sysfs_ids(usb) {
            Some((v, p)) => match combine_spec(sysfs_value(opt_view(&usb.manufacturer)), sysfs_value(opt_view(&usb.product))) {
                Some(n) => Some(n),
                None => if names.contains_key(usb_key(v, p)) {
                    Some(names[usb_key(v, p)])
                } else {
                    None
                },
            },
            None => None,
        },
        None => None,
    }
}

/// The USB device's own name comes first: whenever sysfs (or the table, for
/// the ids sysfs reports) names the device, that is the label, whatever the
/// backend calls the camera; only without it is the backend's name used,
/// through the table when it carries UVC ids.
pub proof fn lemma_sysfs_name_wins(camera: &CameraFacts, names: Map<u32, Seq<char>>)
    ensures
        sysfs_name(camera, names) matches Some(n) ==> label_spec(camera, names) == n,
        sysfs_name(camera, names) is None ==> label_spec(camera, names) == match human_name_ids(camera.human_name@) {
            Some((v, p)) => if names.contains_key(usb_key(v, p)) {
                names[usb_key(v, p)]
            } else {
                camera.human_name@
            },
            None => camera.human_name@,
        },
{
}

/// The label of a camera: its USB device name where one is known, else the
/// name the backend gives.
pub fn resolve_label(camera: &CameraFacts, usb_names: &UsbNameTable) -> (label: String)
    requires
        parens_ordered(camera.human_name@),
    ensures
        label@ == label_spec(camera, usb_names@),
        sysfs_name(camera, usb_names@) matches Some(n) ==> label@ == n,
        camera.usb matches Some(usb) ==> (sysfs_ids(&usb) is Some ==> (combine_spec(
            sysfs_value(opt_view(&usb.manufacturer)),
            sysfs_value(opt_view(&usb.product)),
        ) matches Some(n) ==> label@ == n)),
        sysfs_name(camera, usb_names@) is None && human_name_ids(camera.human_name@) is None ==> label@
            == camera.human_name@,
{
    proof {
        lemma_sysfs_name_wins(camera, usb_names@);
    }
    if let Some(usb) = &camera.usb {
        if let Some((v, p)) = usb_ids_for_sysfs_node(usb) {
            if let Some(name) = lookup_usb_name(v, p, usb, usb_names) {
                return name;
            }
        }
    }
    if let Some((v, p)) = usb_ids_from_human_name(camera.human_name.as_str()) {
        if let Some(name) = usb_names.get(&(v, p)) {
            return name.clone();
        }
    }
    camera.human_name.clone()
}

/// Number of entries of `s` equal to `x`.
pub open spec fn count_of(s: Seq<Seq<char>>, x: Seq<char>) -> nat
    decreases s.len(),
{
    if s.len() == 0 {
        0
    } else {
        count_of(s.drop_last(), x) + if s.last() == x {
            1nat
        } else {
            0nat
        }
    }
}

/// `disambiguate_duplicate_labels`: a label that occurs more than once gets
/// ` #n`, numbering its occurrences from 1 in list order.
pub open spec fn disambiguated(labels: Seq<Seq<char>>) -> Seq<Seq<char>> {
    Seq::new(
        labels.len(),
        |k: int|
            if count_of(labels, labels[k]) > 1 {
                labels[k] + " #"@ + decimal(count_of(labels.take(k), labels[k]) + 1)
            } else {
                labels[k]
            },
    )
}

proof fn lemma_count_prefix_grows(s: Seq<Seq<char>>, x: Seq<char>, a: int, b: int)
    requires
        0 <= a < b <= s.len(),
        s[a] == x,
    ensures
        count_of(s.take(a), x) < count_of(s.take(b), x),
    decreases b - a,
{
    let t = s.take(b);
    assert(t.drop_last() == s.take(b - 1));
    if b == a + 1 {
        assert(t.last() == x);
    } else {
        lemma_count_prefix_grows(s, x, a, b - 1);
    }
}

/// Duplicate camera labels become distinct: two cameras listed under the
/// same label end up with different labels, and a label that occurs once is
/// kept as it is.
pub proof fn lemma_disambiguated_distinct(labels: Seq<Seq<char>>, i: int, j: int)
    requires
        0 <= i < j < labels.len(),
        labels[i] == labels[j],
    ensures
        disambiguated(labels)[i] != disambiguated(labels)[j],
{
    let x = labels[i];
    lemma_count_prefix_grows(labels, x, i, j);
    lemma_count_prefix_grows(labels, x, j, labels.len() as int);
    assert(labels.take(labels.len() as int) == labels);
    assert(count_of(labels, labels[i]) > 1);
    assert(count_of(labels, labels[j]) > 1);
    let a = count_of(labels.take(i), x) + 1;
    let b = count_of(labels.take(j), x) + 1;
    lemma_parse_decimal(a, b);
    lemma_parse_decimal(b, b);
    let p = x + " #"@;
    let di = disambiguated(labels)[i];
    let dj = disambiguated(labels)[j];
    assert(di == p + decimal(a));
    assert(dj == p + decimal(b));
    if di == dj {
        assert(di.skip(p.len() as int) == decimal(a));
        assert(dj.skip(p.len() as int) == decimal(b));
    }
}

/// A label that no other camera has is left alone.
pub proof fn lemma_unique_label_kept(labels: Seq<Seq<char>>, i: int)
    requires
        0 <= i < labels.len(),
        count_of(labels, labels[i]) <= 1,
    ensures
        disambiguated(labels)[i] == labels[i],
{
}

/// A listed camera: its position in the backend's list, the key of its
/// device and its label.
pub struct CameraEntry {
    pub index: usize,
    pub usb_key: String,
    pub label: String,
}

/// The labels of a list of entries.
pub open spec fn entry_labels(entries: Seq<CameraEntry>) -> Seq<Seq<char>> {
    entries.map_values(|e: CameraEntry| e.label@)
}

/// Counts the labels equal to `x` among the first `end` entries.
fn count_label(entries: &Vec<CameraEntry>, x: &String, end: usize) -> (n: usize)
    requires
        end <= entries.len(),
    ensures
        n == count_of(entry_labels(entries@).take(end as int), x@),
        n <= end,
{
    let mut n: usize = 0;
    let mut j: usize = 0;
    while j < end
        invariant
            j <= end <= entries.len(),
            n == count_of(entry_labels(entries@).take(j as int), x@),
            n <= j,
        decreases end - j,
    {
        let ghost ls = entry_labels(entries@);
        assert(ls.take(j + 1).drop_last() == ls.take(j as int));
        assert(ls.take(j + 1).last() == entries@[j as int].label@);
        if entries[j].label == *x {
            n = n + 1;
        }
        j = j + 1;
    }
    n
}

/// Gives each label that occurs more than once a ` #n` suffix, numbering the
/// occurrences from 1 in list order; indexes and keys are kept.
pub fn disambiguate_duplicate_labels(entries: &mut Vec<CameraEntry>)
    ensures
        final(entries).len() == old(entries).len(),
        forall|k: int|
            0 <= k < old(entries).len() ==> {
                &&& #[trigger] final(entries)@[k].index == old(entries)@[k].index
                &&& final(entries)@[k].usb_key@ == old(entries)@[k].usb_key@
            },
        entry_labels(final(entries)@) == disambiguated(entry_labels(old(entries)@)),
{
    let n = entries.len();
    let ghost labels = entry_labels(entries@);
    assert(labels.take(n as int) == labels);
    let mut out: Vec<CameraEntry> = Vec::new();
    let mut i: usize = 0;
    while i < n
        invariant
            n == entries.len(),
            labels == entry_labels(entries@),
            labels.take(n as int) == labels,
            labels.len() == n,
            i <= n,
            out.len() == i,
            forall|k: int|
                0 <= k < i ==> {
                    &&& (#[trigger] out@[k]).index == entries@[k].index
                    &&& out@[k].usb_key@ == entries@[k].usb_key@
                    &&& out@[k].label@ == disambiguated(labels)[k]
                },
        decreases n - i,
    {
        let total = count_label(entries, &entries[i].label, n);
        let mut label = entries[i].label.clone();
        if total > 1 {
            let before = count_label(entries, &entries[i].label, i);
            label.append(" #");
            push_decimal(&mut label, before as u64 + 1);
            proof {
                reveal_strlit(" #");
            }
        }
        assert(labels[i as int] == entries@[i as int].label@);
        assert(label@ == disambiguated(labels)[i as int]);
        out.push(CameraEntry { index: entries[i].index, usb_key: entries[i].usb_key.clone(), label });
        i = i + 1;
    }
    assert(entry_labels(out@) =~= disambiguated(labels));
    *entries = out;
}

/// Positions of the first occurrence of each distinct key, in list order.
pub open spec fn first_occurrences(keys: Seq<Seq<char>>) -> Seq<int>
    decreases keys.len(),
{
    if keys.len() == 0 {
        Seq::empty()
    } else {
        let prev = first_occurrences(keys.drop_last());
        if keys.drop_last().contains(keys.last()) {
            prev
        } else {
            prev.push(keys.len() - 1)
        }
    }
}

/// The device keys of a camera list.
pub open spec fn camera_keys(cameras: Seq<CameraFacts>) -> Seq<Seq<char>> {
    Seq::new(cameras.len(), |i: int| usb_key_spec(&cameras[i], i as nat))
}

/// `label_cameras`: one entry per physical device (its first listing), in
/// list order, labelled and with duplicate labels numbered.
pub open spec fn labelled_cameras(cameras: Seq<CameraFacts>, names: Map<u32, Seq<char>>) -> Seq<(usize, Seq<char>)> {
    let kept = first_occurrences(camera_keys(cameras));
    let labels = disambiguated(kept.map_values(|i: int| label_spec(&cameras[i], names)));
    Seq::new(kept.len(), |k: int| (kept[k] as usize, labels[k]))
}

/// All listed camera names have their parentheses in order.
pub open spec fn camera_names_ordered(cameras: Seq<CameraFacts>) -> bool {
    forall|i: int| 0 <= i < cameras.len() ==> parens_ordered(#[trigger] cameras[i].human_name@)
}

/// Whether every camera name has well-placed parentheses.
pub fn cameras_have_ordered_parens(cameras: &Vec<CameraFacts>) -> (b: bool)
    ensures
        b == camera_names_ordered(cameras@),
{
    let mut i: usize = 0;
    while i < cameras.len()
        invariant
            i <= cameras@.len(),
            forall|k: int| 0 <= k < i ==> parens_ordered(#[trigger] cameras@[k].human_name@),
        decreases cameras.len() - i,
    {
        if !has_ordered_parens(cameras[i].human_name.as_str()) {
            return false;
        }
        i = i + 1;
    }
    true
}

/// Whether `key` is among `seen`.
fn key_seen(seen: &Vec<String>, key: &String) -> (b: bool)
    ensures
        b <==> exists|t: int| 0 <= t < seen.len() && (#[trigger] seen@[t])@ == key@,
{
    let mut j: usize = 0;
    while j < seen.len()
        invariant
            j <= seen.len(),
            forall|t: int| 0 <= t < j ==> (#[trigger] seen@[t])@ != key@,
        decreases seen.len() - j,
    {
        if seen[j] == *key {
            return true;
        }
        j = j + 1;
    }
    false
}

/// Builds the webcam source labels: one `(index, label)` per physical device.
#[verifier::rlimit(40)]
pub fn label_cameras(cameras: &Vec<CameraFacts>, usb_names: &UsbNameTable) -> (r: Vec<(usize, String)>)
    requires
        camera_names_ordered(cameras@),
    ensures
        r@.len() == labelled_cameras(cameras@, usb_names@).len(),
        forall|k: int|
            0 <= k < r@.len() ==> (#[trigger] r@[k]).0 == labelled_cameras(cameras@, usb_names@)[k].0
                && r@[k].1@ == labelled_cameras(cameras@, usb_names@)[k].1,
{
    let ghost keys = camera_keys(cameras@);
    let mut seen: Vec<String> = Vec::new();
    let mut entries: Vec<CameraEntry> = Vec::new();
    let ghost mut kept: Seq<int> = Seq::empty();
    let mut i: usize = 0;
    while i < cameras.len()
        invariant
            keys == camera_keys(cameras@),
            keys.len() == cameras.len(),
            camera_names_ordered(cameras@),
            i <= cameras.len(),
            seen.len() == i,
            forall|j: int| 0 <= j < i ==> (#[trigger] seen@[j])@ == keys[j],
            kept == first_occurrences(keys.take(i as int)),
            entries.len() == kept.len(),
            forall|k: int| 0 <= k < kept.len() ==> 0 <= #[trigger] kept[k] < i,
            forall|k: int| 0 <= k < kept.len() ==> (#[trigger] entries@[k]).index == kept[k],
            forall|k: int| 0 <= k < kept.len() ==> (#[trigger] entries@[k]).label@ == label_spec(&cameras@[kept[k]], usb_names@),
        decreases cameras.len() - i,
    {
        let camera = &cameras[i];
        let ghost entries0 = entries@;
        let ghost kept0 = kept;
        assert(parens_ordered(cameras@[i as int].human_name@));
        let key = resolve_usb_key(camera, i);
        let dup = key_seen(&seen, &key);
        proof {
            let ki = keys.take(i + 1);
            assert(ki.drop_last() == keys.take(i as int));
            assert(ki.last() == key@);
            if dup {
                let t = choose|t: int| 0 <= t < seen.len() && (#[trigger] seen@[t])@ == key@;
                assert(keys.take(i as int)[t] == key@);
            } else {
                assert forall|t: int| 0 <= t < i implies keys.take(i as int)[t] != key@ by {
                    assert(keys.take(i as int)[t] == keys[t]);
                    assert(seen@[t]@ == keys[t]);
                }
            }
        }
        if !dup {
            let label = resolve_label(camera, usb_names);
            entries.push(CameraEntry { index: i, usb_key: key.clone(), label });
            proof {
                kept = kept.push(i as int);
            }
        }
        seen.push(key);
        i = i + 1;
        proof {
            assert forall|k: int| 0 <= k < kept.len() implies {
                &&& 0 <= kept[k] < i
                &&& (#[trigger] entries@[k]).index == kept[k]
                &&& entries@[k].label@ == label_spec(&cameras@[kept[k]], usb_names@)
            } by {
                if k < kept0.len() {
                    assert(entries@[k] == entries0[k]);
                    assert(kept[k] == kept0[k]);
                    assert(0 <= kept0[k] < i - 1);
                    assert(entries0[k].index == kept0[k]);
                }
            }
        }
    }
    assert(keys.take(cameras.len() as int) == keys);
    let ghost before = entries@;
    proof {
        assert(entry_labels(before) == kept.map_values(|i: int| label_spec(&cameras@[i], usb_names@)));
    }
    disambiguate_duplicate_labels(&mut entries);
    let mut out: Vec<(usize, String)> = Vec::new();
    let mut k: usize = 0;
    while k < entries.len()
        invariant
            k <= entries.len(),
            entries.len() == kept.len(),
            kept == first_occurrences(keys),
            keys == camera_keys(cameras@),
            forall|t: int| 0 <= t < kept.len() ==> (#[trigger] entries@[t]).index == kept[t],
            entry_labels(entries@) == disambiguated(kept.map_values(|i: int| label_spec(&cameras@[i], usb_names@))),
            out.len() == k,
            forall|t: int|
                0 <= t < k ==> (#[trigger] out@[t]).0 == labelled_cameras(cameras@, usb_names@)[t].0
                    && out@[t].1@ == labelled_cameras(cameras@, usb_names@)[t].1,
        decreases entries.len() - k,
    {
        assert(entry_labels(entries@)[k as int] == entries@[k as int].label@);
        out.push((entries[k].index, entries[k].label.clone()));
        k = k + 1;
    }
    out
}

} // verus!

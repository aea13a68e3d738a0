//! Finding the default gateway in the routing table that the system
//! prints: `/proc/net/route` on Linux, `netstat -rn -f inet` on macOS and
//! `route print 0.0.0.0` on Windows. Reading the table is left to the
//! caller; the text is read here.

use vstd::prelude::*;
use vstd::string::StrSliceExecFns;
use crate::text::{is_white_space, trim_start, trim_end, trimmed};
use crate::connectivity::ip::IpAddr;
use crate::connectivity::types::MappingError;

verus! {

/// The characters of a text.
pub fn text_chars(s: &str) -> (r: Vec<char>)
    ensures
        r@ == s@,
{
    let n = s.unicode_len();
    let mut v: Vec<char> = Vec::new();
    let mut i: usize = 0;
    while i < n
        invariant
            n == s@.len(),
            i <= n,
            v@ == s@.subrange(0, i as int),
        decreases n - i,
    {
        v.push(s.get_char(i));
        i = i + 1;
        assert(v@ =~= s@.subrange(0, i as int));
    }
    assert(s@.subrange(0, n as int) =~= s@);
    v
}

/// A line without the `\r` that ends it, if any.
pub open spec fn strip_cr(l: Seq<char>) -> Seq<char> {
    if l.len() > 0 && l.last() == '\r' {
        l.drop_last()
    } else {
        l
    }
}

/// The lines of `s`, after the characters `cur` of a line already begun.
pub open spec fn lines_from(s: Seq<char>, cur: Seq<char>) -> Seq<Seq<char>>
    decreases s.len(),
{
    if s.len() == 0 {
        if cur.len() == 0 { Seq::empty() } else { seq![cur] }
    } else if s[0] == '\n' {
        seq![strip_cr(cur)] + lines_from(s.drop_first(), Seq::empty())
    } else {
        lines_from(s.drop_first(), cur.push(s[0]))
    }
}

/// The lines of a text, as `str::lines` gives them: split at each `\n`,
/// with a `\r` before it removed, and no empty line after a final `\n`.
pub open spec fn text_lines(s: Seq<char>) -> Seq<Seq<char>> {
    lines_from(s, Seq::empty())
}

/// The words of `s`, after the characters `cur` of a word already begun.
pub open spec fn words_from(s: Seq<char>, cur: Seq<char>) -> Seq<Seq<char>>
    decreases s.len(),
{
    if s.len() == 0 {
        if cur.len() == 0 { Seq::empty() } else { seq![cur] }
    } else if is_white_space(s[0]) {
        (if cur.len() == 0 { Seq::empty() } else { seq![cur] }) + words_from(s.drop_first(), Seq::empty())
    } else {
        words_from(s.drop_first(), cur.push(s[0]))
    }
}

/// The words of a text, as `str::split_whitespace` gives them.
pub open spec fn text_words(s: Seq<char>) -> Seq<Seq<char>> {
    words_from(s, Seq::empty())
}

/// The views of a vector of character vectors.
pub open spec fn views(v: Seq<Vec<char>>) -> Seq<Seq<char>> {
    v.map_values(|x: Vec<char>| x@)
}

fn white(c: char) -> (r: bool)
    ensures
        r == is_white_space(c),
{
    let u = c as u32;
    (0x09 <= u && u <= 0x0d) || u == 0x20 || u == 0x85 || u == 0xa0 || u == 0x1680
        || (0x2000 <= u && u <= 0x200a) || u == 0x2028 || u == 0x2029 || u == 0x202f
        || u == 0x205f || u == 0x3000
}

/// Splits characters into lines, as `str::lines` does.
pub fn split_lines(s: &Vec<char>) -> (r: Vec<Vec<char>>)
    ensures
        views(r@) == text_lines(s@),
{
    let n = s.len();
    let mut out: Vec<Vec<char>> = Vec::new();
    let mut cur: Vec<char> = Vec::new();
    let mut i: usize = 0;
    assert(s@.subrange(0, n as int) =~= s@);
    while i < n
        invariant
            n == s@.len(),
            i <= n,
            views(out@) + lines_from(s@.subrange(i as int, n as int), cur@) == text_lines(s@),
        decreases n - i,
    {
        let ghost rest = s@.subrange(i as int, n as int);
        assert(rest.drop_first() =~= s@.subrange(i + 1, n as int));
        assert(rest[0] == s@[i as int]);
        let c = s[i];
        if c == '\n' {
            let mut line = cur;
            if line.len() > 0 && line[line.len() - 1] == '\r' {
                line.pop();
            }
            assert(line@ == strip_cr(cur@)) by {
                if cur@.len() > 0 && cur@.last() == '\r' {
                    assert(line@ =~= cur@.drop_last());
                }
            }
            let ghost before = views(out@);
            out.push(line);
            assert(views(out@) =~= before.push(strip_cr(cur@)));
            assert(views(out@) + lines_from(s@.subrange(i + 1, n as int), Seq::empty())
                =~= before + (seq![strip_cr(cur@)] + lines_from(s@.subrange(i + 1, n as int), Seq::empty())));
            cur = Vec::new();
        } else {
            cur.push(c);
        }
        i = i + 1;
    }
    assert(s@.subrange(n as int, n as int) =~= Seq::<char>::empty());
    if cur.len() > 0 {
        let ghost before = views(out@);
        let ghost last = cur@;
        out.push(cur);
        assert(views(out@) =~= before + seq![last]);
    } else {
        assert(views(out@) + Seq::<Seq<char>>::empty() =~= views(out@));
    }
    out
}

/// Splits characters into words, as `str::split_whitespace` does.
pub fn split_words(s: &Vec<char>) -> (r: Vec<Vec<char>>)
    ensures
        views(r@) == text_words(s@),
{
    let n = s.len();
    let mut out: Vec<Vec<char>> = Vec::new();
    let mut cur: Vec<char> = Vec::new();
    let mut i: usize = 0;
    assert(s@.subrange(0, n as int) =~= s@);
    while i < n
        invariant
            n == s@.len(),
            i <= n,
            views(out@) + words_from(s@.subrange(i as int, n as int), cur@) == text_words(s@),
        decreases n - i,
    {
        let ghost rest = s@.subrange(i as int, n as int);
        assert(rest.drop_first() =~= s@.subrange(i + 1, n as int));
        assert(rest[0] == s@[i as int]);
        let c = s[i];
        if white(c) {
            let ghost before = views(out@);
            let ghost w = cur@;
            if cur.len() > 0 {
                out.push(cur);
                assert(views(out@) =~= before.push(w));
                assert(views(out@) + words_from(s@.subrange(i + 1, n as int), Seq::empty())
                    =~= before + (seq![w] + words_from(s@.subrange(i + 1, n as int), Seq::empty())));
            } else {
                assert(before + words_from(s@.subrange(i + 1, n as int), Seq::empty())
                    =~= before + (Seq::<Seq<char>>::empty() + words_from(s@.subrange(i + 1, n as int), Seq::empty())));
            }
            cur = Vec::new();
        } else {
            cur.push(c);
        }
        i = i + 1;
    }
    assert(s@.subrange(n as int, n as int) =~= Seq::<char>::empty());
    if cur.len() > 0 {
        let ghost before = views(out@);
        let ghost last = cur@;
        out.push(cur);
        assert(views(out@) =~= before + seq![last]);
    } else {
        assert(views(out@) + Seq::<Seq<char>>::empty() =~= views(out@));
    }
    out
}

/// The value of a hexadecimal digit, as `char::to_digit(16)` reads it.
pub open spec fn hex_digit_value(c: char) -> Option<nat> {
    if '0' <= c <= '9' {
        Some((c as nat - 48) as nat)
    } else if 'a' <= c <= 'f' {
        Some((c as nat - 87) as nat)
    } else if 'A' <= c <= 'F' {
        Some((c as nat - 55) as nat)
    } else {
        None
    }
}

/// Whether every character is a hexadecimal digit.
pub open spec fn all_hex(s: Seq<char>) -> bool {
    forall|i: int| 0 <= i < s.len() ==> (#[trigger] hex_digit_value(s[i])) is Some
}

/// The number that hexadecimal digits spell.
pub open spec fn hex_number(s: Seq<char>) -> nat
    decreases s.len(),
{
    if s.len() == 0 {
        0
    } else {
        hex_number(s.drop_last()) * 16 + hex_digit_value(s.last()).unwrap_or(0)
    }
}

/// A `u32` in hexadecimal, as `u32::from_str_radix(s, 16)` reads it: an
/// optional `+`, then at least one digit, and a value that fits.
pub open spec fn u32_from_hex(s: Seq<char>) -> Option<u32> {
    let d = if s.len() > 0 && s[0] == '+' { s.drop_first() } else { s };
    if d.len() > 0 && all_hex(d) && hex_number(d) < 4294967296 {
        Some(hex_number(d) as u32)
    } else {
        None
    }
}

proof fn lemma_hex_grows(s: Seq<char>, k: int)
    requires
        0 <= k <= s.len(),
    ensures
        hex_number(s.subrange(0, k)) <= hex_number(s),
    decreases s.len() - k,
{
    if k < s.len() {
        lemma_hex_grows(s, k + 1);
        assert(s.subrange(0, k + 1).drop_last() =~= s.subrange(0, k));
    } else {
        assert(s.subrange(0, k) =~= s);
    }
}

fn hex_digit(c: char) -> (r: Option<u32>)
    ensures
        match hex_digit_value(c) {
            Some(d) => r == Some(d as u32),
            None => r is None,
        },
{
    if '0' <= c && c <= '9' {
        Some((c as u32) - 48)
    } else if 'a' <= c && c <= 'f' {
        Some((c as u32) - 87)
    } else if 'A' <= c && c <= 'F' {
        Some((c as u32) - 55)
    } else {
        None
    }
}

/// Reads a `u32` in hexadecimal, as `u32::from_str_radix(s, 16)` does.
pub fn parse_hex_u32(s: &Vec<char>) -> (r: Option<u32>)
    ensures
        r == u32_from_hex(s@),
{
    let start: usize = if s.len() > 0 && s[0] == '+' { 1 } else { 0 };
    let ghost d = if s@.len() > 0 && s@[0] == '+' { s@.drop_first() } else { s@ };
    assert(d =~= s@.subrange(start as int, s@.len() as int));
    if start >= s.len() {
        return None;
    }
    let mut acc: u64 = 0;
    let mut i: usize = start;
    while i < s.len()
        invariant
            start <= i <= s@.len(),
            d =~= s@.subrange(start as int, s@.len() as int),
            d == (if s@.len() > 0 && s@[0] == '+' { s@.drop_first() } else { s@ }),
            all_hex(s@.subrange(start as int, i as int)),
            acc == hex_number(s@.subrange(start as int, i as int)),
            acc < 4294967296,
        decreases s@.len() - i,
    {
        let ghost pre = s@.subrange(start as int, i as int);
        let ghost next = s@.subrange(start as int, i + 1);
        assert(next.drop_last() =~= pre);
        assert(next.last() == s@[i as int]);
        match hex_digit(s[i]) {
            Some(v) => {
                acc = acc * 16 + v as u64;
                assert(hex_number(next) == acc);
                assert(all_hex(next)) by {
                    assert forall|j: int| 0 <= j < next.len() implies (#[trigger] hex_digit_value(next[j])) is Some by {
                        if j < pre.len() {
                            assert(next[j] == pre[j]);
                        }
                    }
                }
                if acc >= 4294967296 {
                    proof {
                        if all_hex(d) {
                            assert(d.subrange(0, i + 1 - start) =~= next);
                            lemma_hex_grows(d, i + 1 - start);
                        }
                        assert(u32_from_hex(s@) is None);
                    }
                    return None;
                }
            },
            None => {
                proof {
                    assert(d[i - start] == s@[i as int]);
                    assert(hex_digit_value(d[i - start]) is None);
                    assert(!all_hex(d));
                    assert(u32_from_hex(s@) is None);
                }
                return None;
            },
        }
        i = i + 1;
    }
    assert(s@.subrange(start as int, s@.len() as int) =~= d);
    Some(acc as u32)
}

/// The parts of `s` between the separators `sep`, after the characters
/// `cur` of a part already begun.
pub open spec fn parts_from(s: Seq<char>, sep: char, cur: Seq<char>) -> Seq<Seq<char>>
    decreases s.len(),
{
    if s.len() == 0 {
        seq![cur]
    } else if s[0] == sep {
        seq![cur] + parts_from(s.drop_first(), sep, Seq::empty())
    } else {
        parts_from(s.drop_first(), sep, cur.push(s[0]))
    }
}

/// The parts of a text between separators, as `str::split(sep)` gives them.
pub open spec fn text_parts(s: Seq<char>, sep: char) -> Seq<Seq<char>> {
    parts_from(s, sep, Seq::empty())
}

/// Splits characters at each `sep`, as `str::split` does.
pub fn split_at_char(s: &Vec<char>, sep: char) -> (r: Vec<Vec<char>>)
    ensures
        views(r@) == text_parts(s@, sep),
{
    let n = s.len();
    let mut out: Vec<Vec<char>> = Vec::new();
    let mut cur: Vec<char> = Vec::new();
    let mut i: usize = 0;
    assert(s@.subrange(0, n as int) =~= s@);
    while i < n
        invariant
            n == s@.len(),
            i <= n,
            views(out@) + parts_from(s@.subrange(i as int, n as int), sep, cur@) == text_parts(s@, sep),
        decreases n - i,
    {
        let ghost rest = s@.subrange(i as int, n as int);
        assert(rest.drop_first() =~= s@.subrange(i + 1, n as int));
        assert(rest[0] == s@[i as int]);
        let c = s[i];
        if c == sep {
            let ghost before = views(out@);
            let ghost w = cur@;
            out.push(cur);
            assert(views(out@) =~= before.push(w));
            assert(views(out@) + parts_from(s@.subrange(i + 1, n as int), sep, Seq::empty())
                =~= before + (seq![w] + parts_from(s@.subrange(i + 1, n as int), sep, Seq::empty())));
            cur = Vec::new();
        } else {
            cur.push(c);
        }
        i = i + 1;
    }
    assert(s@.subrange(n as int, n as int) =~= Seq::<char>::empty());
    let ghost before = views(out@);
    let ghost last = cur@;
    out.push(cur);
    assert(views(out@) =~= before + seq![last]);
    out
}

/// The number that decimal digits spell.
pub open spec fn dec_number(s: Seq<char>) -> nat
    decreases s.len(),
{
    if s.len() == 0 {
        0
    } else {
        (dec_number(s.drop_last()) * 10 + (s.last() as int - 48)) as nat
    }
}

/// Whether every character is a decimal digit.
pub open spec fn all_dec(s: Seq<char>) -> bool {
    forall|i: int| 0 <= i < s.len() ==> '0' <= #[trigger] s[i] <= '9'
}

/// An octet of a dotted address, as `Ipv4Addr` reads it: one to three
/// digits, no leading zero, at most 255.
pub open spec fn octet_value(s: Seq<char>) -> Option<u8> {
    if 1 <= s.len() <= 3 && all_dec(s) && !(s.len() > 1 && s[0] == '0') && dec_number(s) <= 255 {
        Some(dec_number(s) as u8)
    } else {
        None
    }
}

/// A dotted IPv4 address, as `std::net::Ipv4Addr` reads it.
pub open spec fn ipv4_text_value(s: Seq<char>) -> Option<Seq<u8>> {
    let p = text_parts(s, '.');
    if p.len() == 4 && octet_value(p[0]) is Some && octet_value(p[1]) is Some
        && octet_value(p[2]) is Some && octet_value(p[3]) is Some {
        Some(seq![octet_value(p[0]).unwrap(), octet_value(p[1]).unwrap(),
            octet_value(p[2]).unwrap(), octet_value(p[3]).unwrap()])
    } else {
        None
    }
}

/// Reads one octet of a dotted address.
fn parse_octet(s: &Vec<char>) -> (r: Option<u8>)
    ensures
        r == octet_value(s@),
{
    if s.len() == 0 || s.len() > 3 {
        return None;
    }
    if s.len() > 1 && s[0] == '0' {
        return None;
    }
    let mut acc: u32 = 0;
    let mut i: usize = 0;
    while i < s.len()
        invariant
            i <= s@.len() <= 3,
            all_dec(s@.subrange(0, i as int)),
            acc == dec_number(s@.subrange(0, i as int)),
            acc < (if i == 0 { 1int } else if i == 1 { 10int } else if i == 2 { 100int } else { 1000int }),
        decreases s@.len() - i,
    {
        let c = s[i];
        let ghost pre = s@.subrange(0, i as int);
        let ghost next = s@.subrange(0, i + 1);
        assert(next.drop_last() =~= pre);
        assert(next.last() == c);
        if !('0' <= c && c <= '9') {
            proof {
                assert(s@[i as int] == c);
            }
            return None;
        }
        assert(all_dec(next)) by {
            assert forall|j: int| 0 <= j < next.len() implies '0' <= #[trigger] next[j] <= '9' by {
                if j < pre.len() {
                    assert(next[j] == pre[j]);
                }
            }
        }
        acc = acc * 10 + ((c as u32) - 48);
        assert(acc == dec_number(next));
        i = i + 1;
    }
    assert(s@.subrange(0, s@.len() as int) =~= s@);
    if acc > 255 {
        None
    } else {
        Some(acc as u8)
    }
}

/// Reads a dotted IPv4 address, as `std::net::Ipv4Addr` does.
pub fn parse_ipv4(s: &Vec<char>) -> (r: Option<[u8; 4]>)
    ensures
        match ipv4_text_value(s@) {
            Some(o) => r matches Some(a) && a@ == o,
            None => r is None,
        },
{
    let parts = split_at_char(s, '.');
    if parts.len() != 4 {
        return None;
    }
    assert(views(parts@)[0] == parts@[0]@);
    assert(views(parts@)[1] == parts@[1]@);
    assert(views(parts@)[2] == parts@[2]@);
    assert(views(parts@)[3] == parts@[3]@);
    let a = match parse_octet(&parts[0]) { Some(x) => x, None => return None };
    let b = match parse_octet(&parts[1]) { Some(x) => x, None => return None };
    let c = match parse_octet(&parts[2]) { Some(x) => x, None => return None };
    let d = match parse_octet(&parts[3]) { Some(x) => x, None => return None };
    let r = [a, b, c, d];
    assert(r@ =~= seq![a, b, c, d]);
    Some(r)
}

/// Whether `s` starts with `p`.
pub open spec fn text_starts_with(s: Seq<char>, p: Seq<char>) -> bool {
    p.len() <= s.len() && s.subrange(0, p.len() as int) == p
}

fn starts_with_chars(s: &Vec<char>, from: usize, p: &str) -> (r: bool)
    requires
        from <= s@.len(),
    ensures
        r == text_starts_with(s@.subrange(from as int, s@.len() as int), p@),
{
    let pc = text_chars(p);
    if pc.len() > s.len() - from {
        return false;
    }
    let mut i: usize = 0;
    while i < pc.len()
        invariant
            i <= pc@.len(),
            pc@ == p@,
            from + pc@.len() <= s@.len(),
            forall|j: int| 0 <= j < i ==> s@[from + j] == pc@[j],
        decreases pc@.len() - i,
    {
        assert(s@.len() == s.len());
        assert(from + i < s@.len());
        let idx = from + i;
        if s[idx] != pc[i] {
            proof {
                let sub = s@.subrange(from as int, s@.len() as int);
                assert(sub.subrange(0, pc@.len() as int)[i as int] == s@[from + i]);
            }
            return false;
        }
        i = i + 1;
    }
    assert(s@.subrange(from as int, s@.len() as int).subrange(0, p@.len() as int) =~= p@);
    true
}

/// The address whose little-endian `u32` is `v`, as `Ipv4Addr::from(v.to_be())`
/// gives it on a little-endian machine.
pub open spec fn le_octets(v: u32) -> Seq<u8> {
    seq![(v % 256) as u8, ((v / 256) % 256) as u8, ((v / 65536) % 256) as u8, (v / 16777216) as u8]
}

/// `/proc/net/route` writes an address as the `u32` of its bytes in
/// little-endian order: the address's first octet is the word's least
/// significant byte, and the octets rebuild the word.
pub proof fn lemma_le_octets(v: u32)
    ensures
        le_octets(v).len() == 4,
        le_octets(v)[0] + 256 * le_octets(v)[1] + 65536 * le_octets(v)[2] + 16777216 * le_octets(v)[3] == v,
        le_octets(v)[0] == v % 256,
        le_octets(v)[3] == v / 16777216,
{
    let a = v % 256;
    let b = (v / 256) % 256;
    let c = (v / 65536) % 256;
    let d = v / 16777216;
    assert(a + 256 * b + 65536 * c + 16777216 * d == v) by (nonlinear_arith)
        requires
            a == v % 256,
            b == (v / 256) % 256,
            c == (v / 65536) % 256,
            d == v / 16777216,
            0 <= v,
    {
        assert(v == 256 * (v / 256) + v % 256);
        assert(v / 256 == 256 * ((v / 256) / 256) + (v / 256) % 256);
        assert((v / 256) / 256 == v / 65536);
        assert(v / 65536 == 256 * ((v / 65536) / 256) + (v / 65536) % 256);
        assert((v / 65536) / 256 == v / 16777216);
    }
}

/// The gateway a line of `/proc/net/route` names: the default route
/// (destination `00000000`) with a gateway in hexadecimal.
pub open spec fn linux_pick(line: Seq<char>) -> Option<Seq<u8>> {
    let f = text_words(line);
    if f.len() >= 3 && f[1] == "00000000"@ {
        match u32_from_hex(f[2]) {
            Some(v) => Some(le_octets(v)),
            None => None,
        }
    } else {
        None
    }
}

/// The gateway a line of `netstat -rn -f inet` names: a line starting with
/// `default` whose second word is an address.
pub open spec fn macos_pick(line: Seq<char>) -> Option<Seq<u8>> {
    let f = text_words(line);
    if text_starts_with(line, "default"@) && f.len() >= 2 {
        ipv4_text_value(f[1])
    } else {
        None
    }
}

/// The gateway a line of `route print 0.0.0.0` names: a line starting, past
/// its white space, with `0.0.0.0`, whose third word is an address.
pub open spec fn windows_pick(line: Seq<char>) -> Option<Seq<u8>> {
    let f = text_words(line);
    if text_starts_with(trim_start(line), "0.0.0.0"@) && f.len() >= 3 {
        ipv4_text_value(f[2])
    } else {
        None
    }
}

/// The layout of a routing table.
pub enum RouteFormat {
    /// `/proc/net/route` of Linux.
    Linux,
    /// `netstat -rn -f inet` of macOS.
    MacOs,
    /// `route print 0.0.0.0` of Windows.
    Windows,
}

/// The gateway a line names, in a table of the given layout.
pub open spec fn pick(f: RouteFormat, line: Seq<char>) -> Option<Seq<u8>> {
    match f {
        RouteFormat::Linux => linux_pick(line),
        RouteFormat::MacOs => macos_pick(line),
        RouteFormat::Windows => windows_pick(line),
    }
}

/// The first line, in order, that names a gateway.
pub open spec fn first_pick(lines: Seq<Seq<char>>, f: RouteFormat) -> Option<Seq<u8>>
    decreases lines.len(),
{
    if lines.len() == 0 {
        None
    } else {
        match pick(f, lines[0]) {
            Some(x) => Some(x),
            None => first_pick(lines.drop_first(), f),
        }
    }
}

/// The gateway, or the error when none is found.
pub open spec fn gateway_outcome(found: Option<Seq<u8>>, r: core::result::Result<IpAddr, MappingError>) -> bool {
    match found {
        Some(o) => r matches Ok(IpAddr::V4(a)) && a@ == o,
        None => r matches Err(MappingError::NoGateway),
    }
}

proof fn lemma_first_pick_step(lines: Seq<Seq<char>>, k: int, f: RouteFormat)
    requires
        0 <= k < lines.len(),
        pick(f, lines[k]) is None,
    ensures
        first_pick(lines.subrange(k, lines.len() as int), f) == first_pick(lines.subrange(k + 1, lines.len() as int), f),
{
    assert(lines.subrange(k, lines.len() as int).drop_first() =~= lines.subrange(k + 1, lines.len() as int));
}

fn linux_line(line: &Vec<char>) -> (r: Option<[u8; 4]>)
    ensures
        match linux_pick(line@) {
            Some(o) => r matches Some(a) && a@ == o,
            None => r is None,
        },
{
    let f = split_words(line);
    if f.len() < 3 {
        return None;
    }
    assert(views(f@)[1] == f@[1]@);
    assert(views(f@)[2] == f@[2]@);
    let dest = text_chars("00000000");
    proof {
        reveal_strlit("00000000");
    }
    if f[1].len() != 8 {
        return None;
    }
    let mut i: usize = 0;
    while i < 8
        invariant
            i <= 8,
            f@.len() >= 3,
            views(f@) == text_words(line@),
            views(f@)[1] == f@[1]@,
            dest@ == "00000000"@,
            dest@.len() == 8,
            f@[1]@.len() == 8,
            forall|j: int| 0 <= j < i ==> f@[1]@[j] == dest@[j],
        decreases 8 - i,
    {
        if f[1][i] != dest[i] {
            proof {
                assert(f@[1]@[i as int] != "00000000"@[i as int]);
            }
            return None;
        }
        i = i + 1;
    }
    assert(f@[1]@ =~= "00000000"@);
    match parse_hex_u32(&f[2]) {
        Some(v) => {
            let r = [(v % 256) as u8, ((v / 256) % 256) as u8, ((v / 65536) % 256) as u8, (v / 16777216) as u8];
            assert(r@ =~= le_octets(v));
            Some(r)
        },
        None => None,
    }
}

/// The lines after the first, as `lines().skip(1)` gives them.
pub open spec fn past_header(lines: Seq<Seq<char>>) -> Seq<Seq<char>> {
    if lines.len() == 0 { lines } else { lines.drop_first() }
}

/// The default gateway in the text of `/proc/net/route` (its first line is
/// a header).
pub fn gateway_from_linux_routes(text: &str) -> (r: core::result::Result<IpAddr, MappingError>)
    ensures
        gateway_outcome(first_pick(past_header(text_lines(text@)), RouteFormat::Linux), r),
{
    let chars = text_chars(text);
    let lines = split_lines(&chars);
    let ghost all = views(lines@);
    if lines.len() == 0 {
        return Err(MappingError::NoGateway);
    }
    assert(all.drop_first() =~= all.subrange(1, all.len() as int));
    let mut k: usize = 1;
    while k < lines.len()
        invariant
            1 <= k <= lines@.len(),
            all == views(lines@),
            all == text_lines(text@),
            past_header(all) == all.subrange(1, all.len() as int),
            first_pick(all.subrange(1, all.len() as int), RouteFormat::Linux) == first_pick(all.subrange(k as int, all.len() as int), RouteFormat::Linux),
        decreases lines@.len() - k,
    {
        assert(all[k as int] == lines@[k as int]@);
        match linux_line(&lines[k]) {
            Some(o) => {
                assert(all.subrange(k as int, all.len() as int)[0] == all[k as int]);
                return Ok(IpAddr::V4(o));
            },
            None => {
                proof {
                    lemma_first_pick_step(all, k as int, RouteFormat::Linux);
                }
            },
        }
        k = k + 1;
    }
    assert(all.subrange(k as int, all.len() as int) =~= Seq::<Seq<char>>::empty());
    Err(MappingError::NoGateway)
}

fn macos_line(line: &Vec<char>) -> (r: Option<[u8; 4]>)
    ensures
        match macos_pick(line@) {
            Some(o) => r matches Some(a) && a@ == o,
            None => r is None,
        },
{
    assert(line@.subrange(0, line@.len() as int) =~= line@);
    if !starts_with_chars(line, 0, "default") {
        return None;
    }
    let f = split_words(line);
    if f.len() < 2 {
        return None;
    }
    assert(views(f@)[1] == f@[1]@);
    parse_ipv4(&f[1])
}

/// The default gateway in the text of `netstat -rn -f inet`.
pub fn gateway_from_macos_routes(text: &str) -> (r: core::result::Result<IpAddr, MappingError>)
    ensures
        gateway_outcome(first_pick(text_lines(text@), RouteFormat::MacOs), r),
{
    let chars = text_chars(text);
    let lines = split_lines(&chars);
    let ghost all = views(lines@);
    assert(all.subrange(0, all.len() as int) =~= all);
    let mut k: usize = 0;
    while k < lines.len()
        invariant
            k <= lines@.len(),
            all == views(lines@),
            all == text_lines(text@),
            first_pick(all, RouteFormat::MacOs) == first_pick(all.subrange(k as int, all.len() as int), RouteFormat::MacOs),
        decreases lines@.len() - k,
    {
        assert(all[k as int] == lines@[k as int]@);
        match macos_line(&lines[k]) {
            Some(o) => {
                assert(all.subrange(k as int, all.len() as int)[0] == all[k as int]);
                return Ok(IpAddr::V4(o));
            },
            None => {
                proof {
                    lemma_first_pick_step(all, k as int, RouteFormat::MacOs);
                }
            },
        }
        k = k + 1;
    }
    assert(all.subrange(k as int, all.len() as int) =~= Seq::<Seq<char>>::empty());
    Err(MappingError::NoGateway)
}

fn windows_line(line: &Vec<char>) -> (r: Option<[u8; 4]>)
    ensures
        match windows_pick(line@) {
            Some(o) => r matches Some(a) && a@ == o,
            None => r is None,
        },
{
    assert(line@.subrange(0, line@.len() as int) =~= line@);
    let mut k: usize = 0;
    while k < line.len() && white(line[k])
        invariant
            k <= line@.len(),
            trim_start(line@) == trim_start(line@.subrange(k as int, line@.len() as int)),
        decreases line@.len() - k,
    {
        proof {
            let sub = line@.subrange(k as int, line@.len() as int);
            assert(sub.drop_first() =~= line@.subrange(k + 1, line@.len() as int));
        }
        k = k + 1;
    }
    proof {
        let sub = line@.subrange(k as int, line@.len() as int);
        if sub.len() > 0 {
            assert(sub[0] == line@[k as int]);
        }
        assert(trim_start(line@) == sub);
    }
    if !starts_with_chars(line, k, "0.0.0.0") {
        return None;
    }
    let f = split_words(line);
    if f.len() < 3 {
        return None;
    }
    assert(views(f@)[2] == f@[2]@);
    parse_ipv4(&f[2])
}

/// The default gateway in the text of `route print 0.0.0.0`.
pub fn gateway_from_windows_routes(text: &str) -> (r: core::result::Result<IpAddr, MappingError>)
    ensures
        gateway_outcome(first_pick(text_lines(text@), RouteFormat::Windows), r),
{
    let chars = text_chars(text);
    let lines = split_lines(&chars);
    let ghost all = views(lines@);
    assert(all.subrange(0, all.len() as int) =~= all);
    let mut k: usize = 0;
    while k < lines.len()
        invariant
            k <= lines@.len(),
            all == views(lines@),
            all == text_lines(text@),
            first_pick(all, RouteFormat::Windows) == first_pick(all.subrange(k as int, all.len() as int), RouteFormat::Windows),
        decreases lines@.len() - k,
    {
        assert(all[k as int] == lines@[k as int]@);
        match windows_line(&lines[k]) {
            Some(o) => {
                assert(all.subrange(k as int, all.len() as int)[0] == all[k as int]);
                return Ok(IpAddr::V4(o));
            },
            None => {
                proof {
                    lemma_first_pick_step(all, k as int, RouteFormat::Windows);
                }
            },
        }
        k = k + 1;
    }
    assert(all.subrange(k as int, all.len() as int) =~= Seq::<Seq<char>>::empty());
    Err(MappingError::NoGateway)
}

} // verus!

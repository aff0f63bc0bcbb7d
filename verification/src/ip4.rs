use vstd::prelude::*;
use vstd::seq_lib::*;
use vstd::string::*;
use vstd::arithmetic::div_mod::{lemma_fundamental_div_mod, lemma_div_denominator};

verus! {

/// An IPv4 address together with a routing-prefix length, the value form of
/// the textual `a.b.c.d/len` notation used for static addresses.
#[derive(Clone, Copy, Debug, PartialEq, Eq, Structural)]
pub struct Ipv4Cidr {
    pub o0: u8,
    pub o1: u8,
    pub o2: u8,
    pub o3: u8,
    pub prefix_len: u8,
}

impl Ipv4Cidr {
    /// A prefix length never exceeds the 32 bits of an IPv4 address.
    pub open spec fn wf(self) -> bool {
        self.prefix_len <= 32
    }
}

/// The numeric value of a decimal digit character, or -1 for any other char.
pub open spec fn digit_val(ch: char) -> int {
    if ch == '0' {
        0
    } else if ch == '1' {
        1
    } else if ch == '2' {
        2
    } else if ch == '3' {
        3
    } else if ch == '4' {
        4
    } else if ch == '5' {
        5
    } else if ch == '6' {
        6
    } else if ch == '7' {
        7
    } else if ch == '8' {
        8
    } else if ch == '9' {
        9
    } else {
        -1
    }
}

pub open spec fn is_digit(ch: char) -> bool {
    digit_val(ch) >= 0
}

/// The decimal digit character for a value below ten.
pub open spec fn digit_char(d: int) -> char {
    if d == 0 {
        '0'
    } else if d == 1 {
        '1'
    } else if d == 2 {
        '2'
    } else if d == 3 {
        '3'
    } else if d == 4 {
        '4'
    } else if d == 5 {
        '5'
    } else if d == 6 {
        '6'
    } else if d == 7 {
        '7'
    } else if d == 8 {
        '8'
    } else {
        '9'
    }
}

/// Canonical decimal rendering of a natural number, most significant digit
/// first, without leading zeros.
pub open spec fn spec_dec(n: nat) -> Seq<char>
    decreases n,
{
    if n < 10 {
        seq![digit_char(n as int)]
    } else {
        spec_dec(n / 10).push(digit_char((n % 10) as int))
    }
}

pub open spec fn all_digits(s: Seq<char>) -> bool {
    forall|i: int| 0 <= i < s.len() ==> is_digit(s[i])
}

/// The value of a sequence of decimal digit characters.
pub open spec fn spec_dec_val(s: Seq<char>) -> int
    decreases s.len(),
{
    if s.len() == 0 {
        0
    } else {
        spec_dec_val(s.drop_last()) * 10 + digit_val(s.last())
    }
}

/// A canonical decimal segment: one to three digits, no leading zero
/// (except for the single digit zero itself).
pub open spec fn is_canon_dec(s: Seq<char>) -> bool {
    &&& 1 <= s.len() <= 3
    &&& all_digits(s)
    &&& (s.len() == 1 || s[0] != '0')
}

/// Value of a canonical decimal segment bounded by `max`, or nothing.
pub open spec fn spec_parse_dec(s: Seq<char>, max: int) -> Option<int> {
    if is_canon_dec(s) && spec_dec_val(s) <= max {
        Some(spec_dec_val(s))
    } else {
        None
    }
}

/// The four octet values of a dotted-quad address, or nothing when the text
/// is not exactly four canonical decimal octets separated by dots.
pub open spec fn spec_parse_addr(s: Seq<char>) -> Option<(int, int, int, int)> {
    match s.index_of_first('.') {
        Some(k1) => {
            let seg0 = s.take(k1);
            let r1 = s.skip(k1 + 1);
            match r1.index_of_first('.') {
                Some(k2) => {
                    let seg1 = r1.take(k2);
                    let r2 = r1.skip(k2 + 1);
                    match r2.index_of_first('.') {
                        Some(k3) => {
                            let seg2 = r2.take(k3);
                            let seg3 = r2.skip(k3 + 1);
                            match (
                                spec_parse_dec(seg0, 255),
                                spec_parse_dec(seg1, 255),
                                spec_parse_dec(seg2, 255),
                                spec_parse_dec(seg3, 255),
                            ) {
                                (Some(a), Some(b), Some(c), Some(d)) => Some((a, b, c, d)),
                                _ => None,
                            }
                        },
                        None => None,
                    }
                },
                None => None,
            }
        },
        None => None,
    }
}

/// The value of a CIDR text: a dotted-quad address, a single slash, and a
/// canonical prefix length of at most 32. A bare address without a prefix
/// length has no value.
pub open spec fn spec_parse_cidr(s: Seq<char>) -> Option<Ipv4Cidr> {
    match s.index_of_first('/') {
        Some(k) => {
            let addr = s.take(k);
            let rest = s.skip(k + 1);
            match (spec_parse_addr(addr), spec_parse_dec(rest, 32)) {
                (Some((a, b, c, d)), Some(p)) => Some(
                    Ipv4Cidr {
                        o0: a as u8,
                        o1: b as u8,
                        o2: c as u8,
                        o3: d as u8,
                        prefix_len: p as u8,
                    },
                ),
                _ => None,
            }
        },
        None => None,
    }
}

/// Canonical rendering of a CIDR value, the exact text that parses back to it.
pub open spec fn spec_cidr_chars(c: Ipv4Cidr) -> Seq<char> {
    spec_dec(c.o0 as nat) + seq!['.'] + spec_dec(c.o1 as nat) + seq!['.'] + spec_dec(c.o2 as nat)
        + seq!['.'] + spec_dec(c.o3 as nat) + seq!['/'] + spec_dec(c.prefix_len as nat)
}

/// The canonical decimal rendering consists of digits, starts with a nonzero
/// digit unless it is exactly "0", is as short as the value allows, and its
/// value is the number itself.
pub proof fn lemma_dec_chars(n: nat)
    ensures
        all_digits(spec_dec(n)),
        spec_dec(n).len() >= 1,
        spec_dec(n).len() == 1 || spec_dec(n)[0] != '0',
        spec_dec_val(spec_dec(n)) == n,
        n < 10 ==> spec_dec(n).len() == 1,
        n >= 10 ==> spec_dec(n).len() >= 2,
        n < 100 ==> spec_dec(n).len() <= 2,
        n < 1000 ==> spec_dec(n).len() <= 3,
    decreases n,
{
    if n < 10 {
        let s = spec_dec(n);
        assert(s.len() == 1);
        assert(s.drop_last() =~= Seq::<char>::empty());
        assert(digit_val(digit_char(n as int)) == n);
        assert(spec_dec_val(s) == spec_dec_val(s.drop_last()) * 10 + digit_val(s.last()));
    } else {
        lemma_dec_chars(n / 10);
        lemma_fundamental_div_mod(n as int, 10);
        let p = spec_dec(n / 10);
        let d = digit_char((n % 10) as int);
        let s = spec_dec(n);
        assert(s == p.push(d));
        assert(s.drop_last() =~= p);
        assert(s.last() == d);
        assert(digit_val(d) == n % 10);
        assert(spec_dec_val(s) == spec_dec_val(p) * 10 + digit_val(d));
        assert(all_digits(s)) by {
            assert(forall|i: int| 0 <= i < p.len() ==> s[i] == p[i]);
            assert(is_digit(d));
        }
        assert(s[0] == p[0]);
        if p.len() == 1 {
            // p is the single digit n / 10, which is at least one here
            assert(n / 10 < 10);
            assert(p =~= seq![digit_char((n / 10) as int)]);
            assert(n / 10 >= 1);
            assert(p[0] != '0');
        }
    }
}

/// Two decimal digit characters are never the dot or slash separators.
pub proof fn lemma_digit_not_sep(ch: char)
    ensures
        is_digit(ch) ==> ch != '.' && ch != '/',
{
}

/// Pins `index_of_first` to a known first occurrence.
pub proof fn lemma_first_index_is(s: Seq<char>, ch: char, k: int)
    requires
        0 <= k < s.len(),
        s[k] == ch,
        forall|j: int| 0 <= j < k ==> s[j] != ch,
    ensures
        s.index_of_first(ch) == Some(k),
{
    s.index_of_first_ensures(ch);
    assert(s.contains(ch));
    match s.index_of_first(ch) {
        Some(index) => {
            if index < k {
                assert(s[index] == ch);
                assert(false);
            } else if index > k {
                assert(s[k] != ch);
                assert(false);
            }
        },
        None => {
            assert(false);
        },
    }
}

/// Pins `index_of_first` to nothing when the character never occurs.
pub proof fn lemma_first_index_none(s: Seq<char>, ch: char)
    requires
        forall|j: int| 0 <= j < s.len() ==> s[j] != ch,
    ensures
        s.index_of_first(ch) == None::<int>,
{
    s.index_of_first_ensures(ch);
    match s.index_of_first(ch) {
        Some(index) => {
            assert(s[index] == ch);
            assert(false);
        },
        None => {},
    }
}

/// Splitting `x + [sep] + y` at the separator recovers `x` and `y`, provided
/// `x` itself is free of the separator.
pub proof fn lemma_split_at_sep(x: Seq<char>, sep: char, y: Seq<char>)
    requires
        forall|j: int| 0 <= j < x.len() ==> x[j] != sep,
    ensures
        (x + seq![sep] + y).index_of_first(sep) == Some(x.len() as int),
        (x + seq![sep] + y).take(x.len() as int) == x,
        (x + seq![sep] + y).skip(x.len() as int + 1) == y,
{
    let s = x + seq![sep] + y;
    assert(s[x.len() as int] == sep);
    assert(forall|j: int| 0 <= j < x.len() ==> s[j] == x[j]);
    lemma_first_index_is(s, sep, x.len() as int);
    assert(s.take(x.len() as int) =~= x);
    assert(s.skip(x.len() as int + 1) =~= y);
}

/// A parsed dotted-quad address is at most fifteen characters long.
pub proof fn lemma_addr_some_len(s: Seq<char>)
    requires
        spec_parse_addr(s) is Some,
    ensures
        s.len() <= 15,
{
    s.index_of_first_ensures('.');
    let k1 = s.index_of_first('.').unwrap();
    let r1 = s.skip(k1 + 1);
    r1.index_of_first_ensures('.');
    let k2 = r1.index_of_first('.').unwrap();
    let r2 = r1.skip(k2 + 1);
    r2.index_of_first_ensures('.');
    let k3 = r2.index_of_first('.').unwrap();
    let seg3 = r2.skip(k3 + 1);
    assert(s.take(k1).len() == k1);
    assert(r1.take(k2).len() == k2);
    assert(r2.take(k3).len() == k3);
    assert(k1 <= 3 && k2 <= 3 && k3 <= 3 && seg3.len() <= 3);
}

/// A CIDR text with a value is at most nineteen characters long.
pub proof fn lemma_cidr_some_len(s: Seq<char>)
    requires
        spec_parse_cidr(s) is Some,
    ensures
        s.len() <= 19,
{
    s.index_of_first_ensures('/');
    let k = s.index_of_first('/').unwrap();
    let addr = s.take(k);
    let rest = s.skip(k + 1);
    lemma_addr_some_len(addr);
    assert(rest.len() <= 3);
}

/// A bare address without a prefix length has no value: text without a
/// slash never parses.
pub proof fn lemma_bare_address_rejected(s: Seq<char>)
    requires
        forall|j: int| 0 <= j < s.len() ==> s[j] != '/',
    ensures
        spec_parse_cidr(s) is None,
{
    lemma_first_index_none(s, '/');
}

/// Parsing is the inverse of formatting: the canonical rendering of any
/// well-formed CIDR value parses back to exactly that value.
pub proof fn lemma_cidr_parse_format_roundtrip(c: Ipv4Cidr)
    requires
        c.wf(),
    ensures
        spec_parse_cidr(spec_cidr_chars(c)) == Some(c),
{
    let d0 = spec_dec(c.o0 as nat);
    let d1 = spec_dec(c.o1 as nat);
    let d2 = spec_dec(c.o2 as nat);
    let d3 = spec_dec(c.o3 as nat);
    let dp = spec_dec(c.prefix_len as nat);
    lemma_dec_chars(c.o0 as nat);
    lemma_dec_chars(c.o1 as nat);
    lemma_dec_chars(c.o2 as nat);
    lemma_dec_chars(c.o3 as nat);
    lemma_dec_chars(c.prefix_len as nat);
    let addr = d0 + seq!['.'] + d1 + seq!['.'] + d2 + seq!['.'] + d3;
    let s = spec_cidr_chars(c);
    assert(s =~= addr + seq!['/'] + dp);

    // every character of the address part is a digit or a dot, never a slash
    assert forall|j: int| 0 <= j < addr.len() implies addr[j] != '/' by {
        let a0 = d0 + seq!['.'];
        let a1 = a0 + d1;
        let a2 = a1 + seq!['.'];
        let a3 = a2 + d2;
        let a4 = a3 + seq!['.'];
        assert(addr =~= a4 + d3);
        if j < d0.len() {
            assert(addr[j] == d0[j] && is_digit(d0[j]));
        } else if j == d0.len() {
            assert(addr[j] == '.');
        } else if j < a1.len() {
            assert(addr[j] == d1[j - a0.len()] && is_digit(d1[j - a0.len()]));
        } else if j == a1.len() {
            assert(addr[j] == '.');
        } else if j < a3.len() {
            assert(addr[j] == d2[j - a2.len()] && is_digit(d2[j - a2.len()]));
        } else if j == a3.len() {
            assert(addr[j] == '.');
        } else {
            assert(addr[j] == d3[j - a4.len()] && is_digit(d3[j - a4.len()]));
        }
    }
    lemma_split_at_sep(addr, '/', dp);
    assert(spec_parse_dec(dp, 32) == Some(c.prefix_len as int));

    // peel the three dots off the address part
    let r1 = d1 + seq!['.'] + d2 + seq!['.'] + d3;
    assert(addr =~= d0 + seq!['.'] + r1);
    lemma_split_at_sep(d0, '.', r1);
    let r2 = d2 + seq!['.'] + d3;
    assert(r1 =~= d1 + seq!['.'] + r2);
    lemma_split_at_sep(d1, '.', r2);
    lemma_split_at_sep(d2, '.', d3);
    assert(spec_parse_dec(d0, 255) == Some(c.o0 as int));
    assert(spec_parse_dec(d1, 255) == Some(c.o1 as int));
    assert(spec_parse_dec(d2, 255) == Some(c.o2 as int));
    assert(spec_parse_dec(d3, 255) == Some(c.o3 as int));
    assert(spec_parse_addr(addr) == Some((c.o0 as int, c.o1 as int, c.o2 as int, c.o3 as int)));
}

/// The digit value of one character, used while scanning decimal segments.
fn digit_of(ch: char) -> (r: Option<u32>)
    ensures
        match r {
            Some(v) => digit_val(ch) == v as int && v < 10,
            None => !is_digit(ch),
        },
{
    match ch {
        '0' => Some(0),
        '1' => Some(1),
        '2' => Some(2),
        '3' => Some(3),
        '4' => Some(4),
        '5' => Some(5),
        '6' => Some(6),
        '7' => Some(7),
        '8' => Some(8),
        '9' => Some(9),
        _ => None,
    }
}

/// First occurrence of `ch` in `s` within the index range `lo..hi`.
fn find_char_in(s: &str, lo: usize, hi: usize, ch: char) -> (r: Option<usize>)
    requires
        lo <= hi <= s@.len(),
    ensures
        match r {
            Some(k) => lo <= k < hi && s@[k as int] == ch && (forall|j: int|
                lo <= j < k ==> s@[j] != ch),
            None => forall|j: int| lo <= j < hi ==> s@[j] != ch,
        },
{
    let mut i: usize = lo;
    while i < hi
        invariant
            lo <= i <= hi <= s@.len(),
            forall|j: int| lo <= j < i ==> s@[j] != ch,
        decreases hi - i,
    {
        if s.get_char(i) == ch {
            return Some(i);
        }
        i += 1;
    }
    None
}

/// Parses the characters `lo..hi` of `s` as one canonical decimal segment
/// bounded by `max`.
fn parse_dec_seg(s: &str, lo: usize, hi: usize, max: u32) -> (r: Option<u8>)
    requires
        lo <= hi <= s@.len(),
        max <= 255,
    ensures
        match r {
            Some(v) => spec_parse_dec(s@.subrange(lo as int, hi as int), max as int) == Some(
                v as int,
            ),
            None => spec_parse_dec(s@.subrange(lo as int, hi as int), max as int) is None,
        },
{
    let ghost sub = s@.subrange(lo as int, hi as int);
    let len: usize = hi - lo;
    if len == 0 || len > 3 {
        return None;
    }
    let c0 = s.get_char(lo);
    assert(sub[0] == s@[lo as int]);
    let v0 = match digit_of(c0) {
        Some(v) => v,
        None => {
            assert(!all_digits(sub));
            return None;
        },
    };
    if len > 1 && c0 == '0' {
        return None;
    }
    if len == 1 {
        proof {
            assert(sub.drop_last() =~= Seq::<char>::empty());
            assert(sub.last() == sub[0]);
            assert forall|i: int| 0 <= i < sub.len() implies is_digit(sub[i]) by {
                assert(sub[0] == c0);
            }
            assert(all_digits(sub));
            assert(spec_dec_val(Seq::<char>::empty()) == 0);
            assert(spec_dec_val(sub) == digit_val(sub[0]));
            assert(is_canon_dec(sub));
        }
        if v0 > max {
            return None;
        }
        return Some(v0 as u8);
    }
    let c1 = s.get_char(lo + 1);
    assert(sub[1] == s@[lo as int + 1]);
    let v1 = match digit_of(c1) {
        Some(v) => v,
        None => {
            assert(!all_digits(sub));
            return None;
        },
    };
    if len == 2 {
        let v: u32 = v0 * 10 + v1;
        proof {
            let head = sub.drop_last();
            assert(head =~= seq![sub[0]]);
            assert(head.drop_last() =~= Seq::<char>::empty());
            assert(spec_dec_val(Seq::<char>::empty()) == 0);
            assert(head.last() == sub[0]);
            assert(spec_dec_val(head) == digit_val(sub[0]));
            assert(sub.last() == sub[1]);
            assert(spec_dec_val(sub) == spec_dec_val(head) * 10 + digit_val(sub.last()));
            assert(spec_dec_val(sub) == digit_val(sub[0]) * 10 + digit_val(sub[1]));
            assert(sub[0] != '0');
            assert forall|i: int| 0 <= i < sub.len() implies is_digit(sub[i]) by {
                if i == 0 {
                    assert(sub[0] == c0);
                } else {
                    assert(sub[1] == c1);
                }
            }
            assert(all_digits(sub));
        }
        if v > max {
            return None;
        }
        return Some(v as u8);
    }
    let c2 = s.get_char(lo + 2);
    assert(sub[2] == s@[lo as int + 2]);
    let v2 = match digit_of(c2) {
        Some(v) => v,
        None => {
            assert(!all_digits(sub));
            return None;
        },
    };
    let v: u32 = v0 * 100 + v1 * 10 + v2;
    proof {
        let head = sub.drop_last();
        let head2 = head.drop_last();
        assert(head =~= seq![sub[0], sub[1]]);
        assert(head2 =~= seq![sub[0]]);
        assert(head2.drop_last() =~= Seq::<char>::empty());
        assert(spec_dec_val(Seq::<char>::empty()) == 0);
        assert(head2.last() == sub[0]);
        assert(spec_dec_val(head2) == digit_val(sub[0]));
        assert(head.last() == sub[1]);
        assert(spec_dec_val(head) == spec_dec_val(head2) * 10 + digit_val(head.last()));
        assert(sub.last() == sub[2]);
        assert(spec_dec_val(sub) == spec_dec_val(head) * 10 + digit_val(sub.last()));
        assert(spec_dec_val(sub) == (digit_val(sub[0]) * 10 + digit_val(sub[1])) * 10 + digit_val(
            sub[2],
        ));
        assert(sub[0] != '0');
        assert forall|i: int| 0 <= i < sub.len() implies is_digit(sub[i]) by {
            if i == 0 {
                assert(sub[0] == c0);
            } else if i == 1 {
                assert(sub[1] == c1);
            } else {
                assert(sub[2] == c2);
            }
        }
        assert(all_digits(sub));
    }
    if v > max {
        return None;
    }
    Some(v as u8)
}

/// Parses `a.b.c.d/len` text into its value.
///
/// The text must be canonical: four decimal octets without leading zeros, a
/// slash, and a prefix length of at most 32. A bare address with no prefix
/// length is rejected.
pub fn parse_ipv4_cidr(s: &str) -> (r: Option<Ipv4Cidr>)
    ensures
        r == spec_parse_cidr(s@),
        r matches Some(c) ==> c.wf(),
{
    let n = s.unicode_len();
    if n > 19 {
        proof {
            if spec_parse_cidr(s@) is Some {
                lemma_cidr_some_len(s@);
            }
        }
        return None;
    }
    let k = match find_char_in(s, 0, n, '/') {
        Some(k) => {
            proof {
                lemma_first_index_is(s@, '/', k as int);
            }
            k
        },
        None => {
            proof {
                lemma_first_index_none(s@, '/');
            }
            return None;
        },
    };
    let ghost addr = s@.take(k as int);
    let ghost rest = s@.skip(k as int + 1);
    assert(addr =~= s@.subrange(0, k as int));
    assert(rest =~= s@.subrange(k as int + 1, s@.len() as int));

    // prefix length after the slash
    let p = match parse_dec_seg(s, k + 1, n, 32) {
        Some(p) => p,
        None => {
            return None;
        },
    };

    // first octet
    let k1 = match find_char_in(s, 0, k, '.') {
        Some(k1) => {
            proof {
                assert(forall|j: int| 0 <= j < k1 ==> addr[j] != '.');
                lemma_first_index_is(addr, '.', k1 as int);
            }
            k1
        },
        None => {
            proof {
                lemma_first_index_none(addr, '.');
            }
            return None;
        },
    };
    let ghost r1 = addr.skip(k1 as int + 1);
    assert(r1 =~= s@.subrange(k1 as int + 1, k as int));
    assert(addr.take(k1 as int) =~= s@.subrange(0, k1 as int));
    let v0 = match parse_dec_seg(s, 0, k1, 255) {
        Some(v) => v,
        None => {
            return None;
        },
    };

    // second octet
    let k2 = match find_char_in(s, k1 + 1, k, '.') {
        Some(k2) => {
            proof {
                assert(forall|j: int| 0 <= j < k2 - (k1 + 1) ==> r1[j] != '.');
                lemma_first_index_is(r1, '.', k2 - (k1 + 1));
            }
            k2
        },
        None => {
            proof {
                lemma_first_index_none(r1, '.');
            }
            return None;
        },
    };
    let ghost r2 = r1.skip(k2 - (k1 + 1) + 1);
    assert(r2 =~= s@.subrange(k2 as int + 1, k as int));
    assert(r1.take(k2 - (k1 + 1)) =~= s@.subrange(k1 as int + 1, k2 as int));
    let v1 = match parse_dec_seg(s, k1 + 1, k2, 255) {
        Some(v) => v,
        None => {
            return None;
        },
    };

    // third octet, and the fourth is everything after it
    let k3 = match find_char_in(s, k2 + 1, k, '.') {
        Some(k3) => {
            proof {
                assert(forall|j: int| 0 <= j < k3 - (k2 + 1) ==> r2[j] != '.');
                lemma_first_index_is(r2, '.', k3 - (k2 + 1));
            }
            k3
        },
        None => {
            proof {
                lemma_first_index_none(r2, '.');
            }
            return None;
        },
    };
    let ghost seg3 = r2.skip(k3 - (k2 + 1) + 1);
    assert(seg3 =~= s@.subrange(k3 as int + 1, k as int));
    assert(r2.take(k3 - (k2 + 1)) =~= s@.subrange(k2 as int + 1, k3 as int));
    let v2 = match parse_dec_seg(s, k2 + 1, k3, 255) {
        Some(v) => v,
        None => {
            return None;
        },
    };
    let v3 = match parse_dec_seg(s, k3 + 1, k, 255) {
        Some(v) => v,
        None => {
            return None;
        },
    };
    Some(Ipv4Cidr { o0: v0, o1: v1, o2: v2, o3: v3, prefix_len: p })
}

/// One decimal digit as a string slice.
fn digit_str(d: u32) -> (r: &'static str)
    requires
        d < 10,
    ensures
        r@ =~= seq![digit_char(d as int)],
{
    proof {
        reveal_strlit("0");
        reveal_strlit("1");
        reveal_strlit("2");
        reveal_strlit("3");
        reveal_strlit("4");
        reveal_strlit("5");
        reveal_strlit("6");
        reveal_strlit("7");
        reveal_strlit("8");
        reveal_strlit("9");
    }
    if d == 0 {
        "0"
    } else if d == 1 {
        "1"
    } else if d == 2 {
        "2"
    } else if d == 3 {
        "3"
    } else if d == 4 {
        "4"
    } else if d == 5 {
        "5"
    } else if d == 6 {
        "6"
    } else if d == 7 {
        "7"
    } else if d == 8 {
        "8"
    } else {
        "9"
    }
}

/// Appends the canonical decimal rendering of `v` to `out`.
fn push_dec(out: &mut String, v: u32)
    requires
        v <= 999,
    ensures
        final(out)@ == old(out)@ + spec_dec(v as nat),
{
    if v < 10 {
        out.append(digit_str(v));
        assert(final(out)@ =~= old(out)@ + spec_dec(v as nat));
    } else if v < 100 {
        let ghost pre = out@;
        out.append(digit_str(v / 10));
        out.append(digit_str(v % 10));
        proof {
            assert(spec_dec(v as nat) == spec_dec((v as nat) / 10).push(
                digit_char(((v as nat) % 10) as int),
            ));
            assert((v as nat) / 10 < 10);
            assert(spec_dec((v as nat) / 10) =~= seq![digit_char(((v as nat) / 10) as int)]);
            assert((v / 10) as int == ((v as nat) / 10) as int);
            assert((v % 10) as int == ((v as nat) % 10) as int);
            assert(final(out)@ =~= pre + spec_dec(v as nat));
        }
    } else {
        let ghost pre = out@;
        out.append(digit_str(v / 100));
        out.append(digit_str((v / 10) % 10));
        out.append(digit_str(v % 10));
        proof {
            let q: nat = (v as nat) / 10;
            assert(spec_dec(v as nat) == spec_dec(q).push(digit_char(((v as nat) % 10) as int)));
            assert(spec_dec(q) == spec_dec(q / 10).push(digit_char((q % 10) as int)));
            assert(q / 10 < 10);
            assert(spec_dec(q / 10) =~= seq![digit_char((q / 10) as int)]);
            lemma_div_denominator(v as int, 10, 10);
            assert(q / 10 == (v as nat) / 100);
            assert((v / 100) as int == ((v as nat) / 100) as int);
            assert(((v / 10) % 10) as int == (q % 10) as int);
            assert((v % 10) as int == ((v as nat) % 10) as int);
            assert(final(out)@ =~= pre + spec_dec(v as nat));
        }
    }
}

/// Renders a CIDR value as its canonical `a.b.c.d/len` text.
pub fn format_ipv4_cidr(c: &Ipv4Cidr) -> (r: String)
    ensures
        r@ == spec_cidr_chars(*c),
{
    let mut out = String::new();
    push_dec(&mut out, c.o0 as u32);
    out.append(".");
    push_dec(&mut out, c.o1 as u32);
    out.append(".");
    push_dec(&mut out, c.o2 as u32);
    out.append(".");
    push_dec(&mut out, c.o3 as u32);
    out.append("/");
    push_dec(&mut out, c.prefix_len as u32);
    proof {
        reveal_strlit(".");
        reveal_strlit("/");
        assert("."@ =~= seq!['.']);
        assert("/"@ =~= seq!['/']);
        assert(out@ =~= spec_cidr_chars(*c));
    }
    out
}

} // verus!

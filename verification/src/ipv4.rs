//! A concrete value type for the adapters: an IPv4 address in dotted-decimal
//! text form. Parsing and rendering are verified against each other, so the
//! type discharges the round-trip hypothesis of the adapter laws.

use vstd::prelude::*;
use vstd::string::*;

use crate::codec::TextCodec;

verus! {

/// An IPv4 address as its four octets.
#[derive(Clone, Copy, PartialEq, Eq, Structural, Debug)]
pub struct Ipv4 {
    /// The first (most significant) octet.
    pub a: u8,
    /// The second octet.
    pub b: u8,
    /// The third octet.
    pub c: u8,
    /// The fourth (least significant) octet.
    pub d: u8,
}

/// Whether `c` is a decimal digit.
pub open spec fn is_digit(c: char) -> bool {
    48 <= c as int <= 57
}

/// The digit character for `d` (meaningful for `0 <= d <= 9`).
pub open spec fn digit_char(d: int) -> char {
    (48 + d) as char
}

/// The numeric value of the digit character `c`.
pub open spec fn digit_val(c: char) -> int {
    c as int - 48
}

/// The canonical decimal text of an octet value: one to three digits, no
/// leading zero.
pub open spec fn octet_text(v: u8) -> Seq<char> {
    if v >= 100 {
        seq![
            digit_char(v as int / 100),
            digit_char((v as int / 10) % 10),
            digit_char(v as int % 10),
        ]
    } else if v >= 10 {
        seq![digit_char(v as int / 10), digit_char(v as int % 10)]
    } else {
        seq![digit_char(v as int)]
    }
}

/// The octet value that the text `s` denotes: one to three digits, no leading
/// zero, at most 255 — or `None` when `s` is no such text.
pub open spec fn octet_val(s: Seq<char>) -> Option<u8> {
    if s.len() == 1 && is_digit(s[0]) {
        Some(digit_val(s[0]) as u8)
    } else if s.len() == 2 && is_digit(s[0]) && is_digit(s[1]) && s[0] != '0' {
        Some((10 * digit_val(s[0]) + digit_val(s[1])) as u8)
    } else if s.len() == 3 && is_digit(s[0]) && is_digit(s[1]) && is_digit(s[2]) && s[0] != '0'
        && 100 * digit_val(s[0]) + 10 * digit_val(s[1]) + digit_val(s[2]) <= 255 {
        Some((100 * digit_val(s[0]) + 10 * digit_val(s[1]) + digit_val(s[2])) as u8)
    } else {
        None
    }
}

/// The dotted-decimal text of an address: the four octet texts joined by dots.
pub open spec fn ipv4_text(v: Ipv4) -> Seq<char> {
    octet_text(v.a) + seq!['.'] + octet_text(v.b) + seq!['.'] + octet_text(v.c) + seq!['.']
        + octet_text(v.d)
}

/// The index of the first dot in `s` at or after `from`, or `s.len()` when
/// there is none.
pub open spec fn find_dot(s: Seq<char>, from: int) -> int
    decreases s.len() - from,
{
    if from < 0 || from >= s.len() {
        s.len() as int
    } else if s[from] == '.' {
        from
    } else {
        find_dot(s, from + 1)
    }
}

/// The address that the text `s` denotes: exactly three dots, and the four
/// pieces between them each a valid octet text — or `None` otherwise.
pub open spec fn ipv4_parse(s: Seq<char>) -> Option<Ipv4> {
    let i = find_dot(s, 0);
    let j = find_dot(s, i + 1);
    let k = find_dot(s, j + 1);
    if i < s.len() && j < s.len() && k < s.len() && find_dot(s, k + 1) == s.len() {
        match (octet_val(s.subrange(0, i)), octet_val(s.subrange(i + 1, j)),
            octet_val(s.subrange(j + 1, k)), octet_val(s.subrange(k + 1, s.len() as int))) {
            (Some(a), Some(b), Some(c), Some(d)) => Some(Ipv4 { a, b, c, d }),
            _ => None,
        }
    } else {
        None
    }
}

/// Where the first dot at or after `from` is known to sit at `d` (or to be
/// missing, when `d == s.len()`), `find_dot` returns exactly that.
pub proof fn lemma_find_dot_at(s: Seq<char>, from: int, d: int)
    requires
        0 <= from <= d <= s.len(),
        forall|m: int| from <= m < d ==> s[m] != '.',
        d < s.len() ==> s[d] == '.',
    ensures
        find_dot(s, from) == if d < s.len() { d } else { s.len() as int },
    decreases d - from,
{
    if from < d {
        lemma_find_dot_at(s, from + 1, d);
    }
}

/// The octet text is one to three decimal digits.
pub proof fn lemma_octet_text_digits(v: u8)
    ensures
        1 <= octet_text(v).len() <= 3,
        forall|m: int| 0 <= m < octet_text(v).len() ==> is_digit(#[trigger] octet_text(v)[m]),
{
}

/// Rendering an octet and reading the text back yields the octet.
pub proof fn lemma_octet_round_trip(x: u8)
    ensures
        octet_val(octet_text(x)) == Some(x),
{
    let xi = x as int;
    assert(xi / 100 == (xi / 10) / 10) by (nonlinear_arith);
    assert(xi == 10 * (xi / 10) + xi % 10) by (nonlinear_arith);
    assert(xi / 10 == 10 * ((xi / 10) / 10) + (xi / 10) % 10) by (nonlinear_arith);
    assert(100 * (xi / 100) + 10 * ((xi / 10) % 10) + xi % 10 == xi);
}

/// The digit character for `d`, as a string of one character.
fn digit_str(d: u8) -> (r: &'static str)
    requires
        d < 10,
    ensures
        r@ == seq![digit_char(d as int)],
{
    proof {
        reveal_strlit("0");
        reveal_strlit("1");
        reveal_strlit("2");
        reveal_strlit("3");
        reveal_strlit("4");
        reveal_strlit("5");
        reveal_strlit("6");
        reveal_strlit("7");
        reveal_strlit("8");
        reveal_strlit("9");
    }
    let r: &'static str = if d == 0 {
        "0"
    } else if d == 1 {
        "1"
    } else if d == 2 {
        "2"
    } else if d == 3 {
        "3"
    } else if d == 4 {
        "4"
    } else if d == 5 {
        "5"
    } else if d == 6 {
        "6"
    } else if d == 7 {
        "7"
    } else if d == 8 {
        "8"
    } else {
        "9"
    };
    proof {
        assert(r@ =~= seq![digit_char(d as int)]);
    }
    r
}

/// The canonical decimal text of an octet value.
fn octet_string(v: u8) -> (r: String)
    ensures
        r@ == octet_text(v),
{
    if v >= 100 {
        let mut s = String::from_str(digit_str(v / 100));
        s.append(digit_str((v / 10) % 10));
        s.append(digit_str(v % 10));
        proof {
            assert(s@ =~= octet_text(v));
        }
        s
    } else if v >= 10 {
        let mut s = String::from_str(digit_str(v / 10));
        s.append(digit_str(v % 10));
        proof {
            assert(s@ =~= octet_text(v));
        }
        s
    } else {
        String::from_str(digit_str(v))
    }
}

/// The numeric value of `c` when it is a decimal digit.
fn digit_of(c: char) -> (r: Option<u8>)
    ensures
        r is Some <==> is_digit(c),
        r is Some ==> r->Some_0 as int == digit_val(c),
{
    let x = c as u32;
    if 48 <= x && x <= 57 {
        Some((x - 48) as u8)
    } else {
        None
    }
}

/// The index of the first dot in `s` at or after `from`, or `n == s@.len()`
/// when there is none.
fn find_dot_from(s: &str, from: usize, n: usize) -> (r: usize)
    requires
        n == s@.len(),
        from <= n,
    ensures
        r == find_dot(s@, from as int),
        from <= r <= n,
{
    let mut i = from;
    while i < n
        invariant
            from <= i <= n,
            n == s@.len(),
            find_dot(s@, from as int) == find_dot(s@, i as int),
        decreases n - i,
    {
        let c = s.get_char(i);
        if c == '.' {
            proof {
                assert(find_dot(s@, i as int) == i);
            }
            return i;
        }
        proof {
            assert(find_dot(s@, i as int) == find_dot(s@, i + 1));
        }
        i = i + 1;
    }
    proof {
        assert(find_dot(s@, i as int) == s@.len());
    }
    i
}

/// The octet value that the text between `lo` and `hi` denotes.
fn parse_octet(s: &str, lo: usize, hi: usize) -> (r: Option<u8>)
    requires
        lo <= hi <= s@.len(),
    ensures
        r == octet_val(s@.subrange(lo as int, hi as int)),
{
    let len = hi - lo;
    if len == 1 {
        match digit_of(s.get_char(lo)) {
            Some(d0) => Some(d0),
            None => None,
        }
    } else if len == 2 {
        let c0 = s.get_char(lo);
        match (digit_of(c0), digit_of(s.get_char(lo + 1))) {
            (Some(d0), Some(d1)) => if c0 != '0' {
                Some(10 * d0 + d1)
            } else {
                None
            },
            _ => None,
        }
    } else if len == 3 {
        let c0 = s.get_char(lo);
        match (digit_of(c0), digit_of(s.get_char(lo + 1)), digit_of(s.get_char(lo + 2))) {
            (Some(d0), Some(d1), Some(d2)) => {
                let w: u32 = 100 * (d0 as u32) + 10 * (d1 as u32) + d2 as u32;
                if c0 != '0' && w <= 255 {
                    Some(w as u8)
                } else {
                    None
                }
            },
            _ => None,
        }
    } else {
        None
    }
}

/// Rendering an address and parsing the text back yields the address, and the
/// text is never empty. This discharges, for [`Ipv4`], the hypothesis under
/// which the adapters' round-trip laws stand.
pub proof fn lemma_ipv4_round_trip(v: Ipv4)
    ensures
        ipv4_parse(ipv4_text(v)) == Some(v),
        ipv4_text(v).len() != 0,
{
    let t0 = octet_text(v.a);
    let t1 = octet_text(v.b);
    let t2 = octet_text(v.c);
    let t3 = octet_text(v.d);
    let s = ipv4_text(v);
    lemma_octet_text_digits(v.a);
    lemma_octet_text_digits(v.b);
    lemma_octet_text_digits(v.c);
    lemma_octet_text_digits(v.d);
    let i = t0.len() as int;
    let j = i + 1 + t1.len();
    let k = j + 1 + t2.len();
    let n = k + 1 + t3.len();
    assert(s.len() == n);
    assert forall|m: int| 0 <= m < i implies s[m] == t0[m] by {}
    assert forall|m: int| i + 1 <= m < j implies s[m] == t1[m - (i + 1)] by {}
    assert forall|m: int| j + 1 <= m < k implies s[m] == t2[m - (j + 1)] by {}
    assert forall|m: int| k + 1 <= m < n implies s[m] == t3[m - (k + 1)] by {}
    assert(s[i] == '.');
    assert(s[j] == '.');
    assert(s[k] == '.');
    assert forall|m: int| 0 <= m < i implies s[m] != '.' by {
        assert(is_digit(t0[m]));
    }
    assert forall|m: int| i + 1 <= m < j implies s[m] != '.' by {
        assert(is_digit(t1[m - (i + 1)]));
    }
    assert forall|m: int| j + 1 <= m < k implies s[m] != '.' by {
        assert(is_digit(t2[m - (j + 1)]));
    }
    assert forall|m: int| k + 1 <= m < n implies s[m] != '.' by {
        assert(is_digit(t3[m - (k + 1)]));
    }
    lemma_find_dot_at(s, 0, i);
    lemma_find_dot_at(s, i + 1, j);
    lemma_find_dot_at(s, j + 1, k);
    lemma_find_dot_at(s, k + 1, n);
    assert(s.subrange(0, i) =~= t0);
    assert(s.subrange(i + 1, j) =~= t1);
    assert(s.subrange(j + 1, k) =~= t2);
    assert(s.subrange(k + 1, n) =~= t3);
    lemma_octet_round_trip(v.a);
    lemma_octet_round_trip(v.b);
    lemma_octet_round_trip(v.c);
    lemma_octet_round_trip(v.d);
}

/// Every [`Ipv4`] value round-trips: the forall form that the adapters'
/// round-trip laws take as their hypothesis.
pub proof fn lemma_ipv4_codec_round_trips()
    ensures
        forall|w: Ipv4| #[trigger] Ipv4::parse_spec(Ipv4::render_spec(w)) == Some(w),
{
    assert forall|w: Ipv4| #[trigger] Ipv4::parse_spec(Ipv4::render_spec(w)) == Some(w) by {
        lemma_ipv4_round_trip(w);
    }
}

impl TextCodec for Ipv4 {
    open spec fn parse_spec(s: Seq<char>) -> Option<Ipv4> {
        ipv4_parse(s)
    }

    open spec fn render_spec(v: Ipv4) -> Seq<char> {
        ipv4_text(v)
    }

    fn parse(s: &str) -> (r: Result<Ipv4, String>) {
        let n = s.unicode_len();
        let i = find_dot_from(s, 0, n);
        if i == n {
            return Err(String::from_str("not a dotted-decimal IPv4 address"));
        }
        let j = find_dot_from(s, i + 1, n);
        if j == n {
            return Err(String::from_str("not a dotted-decimal IPv4 address"));
        }
        let k = find_dot_from(s, j + 1, n);
        if k == n {
            return Err(String::from_str("not a dotted-decimal IPv4 address"));
        }
        let l = find_dot_from(s, k + 1, n);
        if l != n {
            return Err(String::from_str("not a dotted-decimal IPv4 address"));
        }
        let oa = parse_octet(s, 0, i);
        let ob = parse_octet(s, i + 1, j);
        let oc = parse_octet(s, j + 1, k);
        let od = parse_octet(s, k + 1, n);
        match (oa, ob, oc, od) {
            (Some(a), Some(b), Some(c), Some(d)) => Ok(Ipv4 { a, b, c, d }),
            _ => Err(String::from_str("not a dotted-decimal IPv4 address")),
        }
    }

    fn render(&self) -> (r: String) {
        let mut s = octet_string(self.a);
        s.append(".");
        let t = octet_string(self.b);
        s.append(t.as_str());
        s.append(".");
        let t = octet_string(self.c);
        s.append(t.as_str());
        s.append(".");
        let t = octet_string(self.d);
        s.append(t.as_str());
        proof {
            reveal_strlit(".");
            assert(s@ =~= ipv4_text(*self));
        }
        s
    }
}

} // verus!

//! Standard base64 with padding, as the control channel's JSON carries bytes.

use base64::Engine as _;
use vstd::prelude::*;

verus! {

/// The character of six bits.
pub open spec fn sextet(v: int) -> char {
    if v < 26 {
        ((65 + v) as u8) as char
    } else if v < 52 {
        ((71 + v) as u8) as char
    } else if v < 62 {
        ((v - 4) as u8) as char
    } else if v == 62 {
        '+'
    } else {
        '/'
    }
}

/// The four characters of three bytes, six bits each.
pub open spec fn quad(a: int, b: int, c: int) -> Seq<char> {
    seq![
        sextet(a / 4),
        sextet(a % 4 * 16 + b / 16),
        sextet(b % 16 * 4 + c / 64),
        sextet(c % 64),
    ]
}

/// The standard, padded base64 text of some bytes: four characters for every
/// three bytes, with `=` for those that carry no bits of the last one or two.
pub open spec fn base64_text(data: Seq<u8>) -> Seq<char>
    decreases data.len(),
{
    if data.len() == 0 {
        Seq::empty()
    } else if data.len() == 1 {
        quad(data[0] as int, 0, 0).take(2) + seq!['=', '=']
    } else if data.len() == 2 {
        quad(data[0] as int, data[1] as int, 0).take(3) + seq!['=']
    } else {
        quad(data[0] as int, data[1] as int, data[2] as int) + base64_text(data.skip(3))
    }
}

/// The bytes that a standard, padded base64 text stands for; `None` for a
/// text that is none.
pub open spec fn base64_data(text: Seq<char>) -> Option<Seq<u8>> {
    if exists|data: Seq<u8>| #[trigger] base64_text(data) == text {
        Some(choose|data: Seq<u8>| #[trigger] base64_text(data) == text)
    } else {
        None
    }
}

proof fn sextets_differ(v: int, w: int)
    requires
        0 <= v < 64,
        0 <= w < 64,
    ensures
        sextet(v) == sextet(w) ==> v == w,
        sextet(v) != '=',
{
}

proof fn quads_differ(a: int, b: int, c: int, x: int, y: int, z: int)
    requires
        0 <= a < 256,
        0 <= b < 256,
        0 <= c < 256,
        0 <= x < 256,
        0 <= y < 256,
        0 <= z < 256,
    ensures
        quad(a, b, c)[0] == quad(x, y, z)[0] && quad(a, b, c)[1] == quad(x, y, z)[1] ==> a == x && b
            / 16 == y / 16,
        quad(a, b, c)[1] == quad(x, y, z)[1] && quad(a, b, c)[2] == quad(x, y, z)[2] ==> b % 16
            == y % 16 && c / 64 == z / 64,
        quad(a, b, c)[3] == quad(x, y, z)[3] ==> c % 64 == z % 64,
        forall|i: int| 0 <= i < 4 ==> #[trigger] quad(a, b, c)[i] != '=',
{
    sextets_differ(a / 4, x / 4);
    sextets_differ(a % 4 * 16 + b / 16, x % 4 * 16 + y / 16);
    sextets_differ(b % 16 * 4 + c / 64, y % 16 * 4 + z / 64);
    sextets_differ(c % 64, z % 64);
}

/// How long a base64 text is.
pub proof fn base64_length(data: Seq<u8>)
    ensures
        base64_text(data).len() == 4 * ((data.len() + 2) / 3),
    decreases data.len(),
{
    if data.len() >= 3 {
        base64_length(data.skip(3));
    }
}

/// Different bytes have different texts.
pub proof fn base64_injective(a: Seq<u8>, b: Seq<u8>)
    requires
        base64_text(a) == base64_text(b),
    ensures
        a == b,
    decreases a.len(),
{
    let (s, t) = (base64_text(a), base64_text(b));
    base64_length(a);
    base64_length(b);
    if a.len() == 0 || b.len() == 0 {
        assert(a =~= b);
    } else {
        let at = |d: Seq<u8>, i: int|
            if i < d.len() {
                d[i] as int
            } else {
                0
            };
        let p = quad(at(a, 0), at(a, 1), at(a, 2));
        let q = quad(at(b, 0), at(b, 1), at(b, 2));
        quads_differ(at(a, 0), at(a, 1), at(a, 2), at(b, 0), at(b, 1), at(b, 2));
        quads_differ(at(b, 0), at(b, 1), at(b, 2), at(a, 0), at(a, 1), at(a, 2));
        assert(s[0] == p[0] && s[1] == p[1] && t[0] == q[0] && t[1] == q[1]);
        assert(s[2] == (if a.len() == 1 { '=' } else { p[2] }));
        assert(t[2] == (if b.len() == 1 { '=' } else { q[2] }));
        assert(s[3] == (if a.len() <= 2 { '=' } else { p[3] }));
        assert(t[3] == (if b.len() <= 2 { '=' } else { q[3] }));
        assert(p[2] != '=' && q[2] != '=' && p[3] != '=' && q[3] != '=');
        if a.len() >= 3 {
            assert(b.len() >= 3);
            assert(s.skip(4) =~= base64_text(a.skip(3)));
            assert(t.skip(4) =~= base64_text(b.skip(3)));
            base64_injective(a.skip(3), b.skip(3));
            assert(a =~= a.take(3) + a.skip(3));
            assert(b =~= b.take(3) + b.skip(3));
            assert(a.take(3) =~= b.take(3));
        } else {
            assert(a.len() == b.len());
            assert(a =~= b);
        }
    }
}

/// A base64 text stands for the bytes that it was made of.
pub proof fn base64_round_trip(data: Seq<u8>)
    ensures
        base64_data(base64_text(data)) == Some(data),
{
    let text = base64_text(data);
    let back = choose|d: Seq<u8>| #[trigger] base64_text(d) == text;
    base64_injective(back, data);
}

/// `STANDARD.encode` of the crate `base64`: the standard alphabet, padded. The
/// length bound keeps the text, a third longer than the bytes, allocatable.
#[verifier::external_body]
fn standard_encode(data: &[u8]) -> (text: String)
    requires
        2 * data@.len() <= isize::MAX,
    ensures
        text@ == base64_text(data@),
{
    base64::engine::general_purpose::STANDARD.encode(data)
}

/// `STANDARD.decode` of the crate `base64`, which takes exactly the texts that
/// encoding makes: padding is required, and the last character's unused bits
/// are zero. `None` stands for its error.
#[verifier::external_body]
fn standard_decode(text: &str) -> (data: Option<Vec<u8>>)
    ensures
        match data {
            Some(d) => base64_text(d@) == text@,
            None => forall|d: Seq<u8>| #[trigger] base64_text(d) != text@,
        },
{
    base64::engine::general_purpose::STANDARD.decode(text).ok()
}

/// The base64 text of some bytes.
pub(crate) fn encode(data: &[u8]) -> (text: String)
    requires
        2 * data@.len() <= isize::MAX,
    ensures
        text@ == base64_text(data@),
        text@.len() == 4 * ((data@.len() + 2) / 3),
        base64_data(text@) == Some(data@),
{
    proof {
        base64_length(data@);
        base64_round_trip(data@);
    }
    standard_encode(data)
}

/// The bytes of a base64 text; `None` when it is none.
pub(crate) fn decode(text: &str) -> (data: Option<Vec<u8>>)
    ensures
        match data {
            Some(d) => base64_data(text@) == Some(d@),
            None => base64_data(text@) is None,
        },
{
    let data: Option<Vec<u8>> = standard_decode(text);
    proof {
        if data is Some {
            base64_round_trip(data->0@);
        }
    }
    data
}

} // verus!

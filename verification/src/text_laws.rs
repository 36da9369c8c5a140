//! What written numbers, trimmed texts and encoded numbers mean.

use crate::mapping::{letterbox_of, should_send, FrameMeta, InputMapping, Letterbox, MetaFilter};
use crate::model::WindowInfo;
use crate::scalar::Scalar;
use crate::text::{
    chars_of, decimal, digit, is_white, push_decimal, text_from, trim_end, trim_start, trimmed_range,
    white_space,
};
use vstd::prelude::*;

verus! {

/// The number that some decimal digits mean, the first one weighing most.
pub open spec fn value_of(digits: Seq<char>) -> int
    decreases digits.len(),
{
    if digits.len() == 0 {
        0
    } else {
        10 * value_of(digits.drop_last()) + (digits.last() as int - 48)
    }
}

/// The decimal notation of a number consists of digits that mean the number,
/// and has no zero in front.
pub proof fn decimal_means_its_number(n: nat)
    ensures
        value_of(decimal(n)) == n,
        decimal(n).len() > 0,
        forall|i: int| 0 <= i < decimal(n).len() ==> 48 <= (#[trigger] decimal(n)[i]) as int <= 57,
        n > 0 ==> decimal(n)[0] as int != 48,
    decreases n,
{
    assert(value_of(Seq::<char>::empty()) == 0);
    if n < 10 {
        assert(seq![digit(n)].drop_last() =~= Seq::<char>::empty());
        assert(value_of(seq![digit(n)]) == digit(n) as int - 48);
    } else {
        decimal_means_its_number(n / 10);
        let before = decimal(n / 10);
        assert(decimal(n).drop_last() =~= before);
        assert(decimal(n).last() == digit(n % 10));
        assert forall|i: int| 0 <= i < decimal(n).len() implies 48 <= (#[trigger] decimal(
            n,
        )[i]) as int <= 57 by {
            if i < before.len() {
                assert(decimal(n)[i] == before[i]);
            }
        }
        assert(decimal(n)[0] == before[0]);
    }
}

/// A number that is appended to a text is what the digits behind the text
/// mean; the text itself stays.
pub proof fn appended_number_reads_back(out: &mut String, n: u128, r: ())
    requires
        call_ensures(push_decimal, (out, n), r),
    ensures
        ({
            let from = old(out)@.len() as int;
            let digits = final(out)@.skip(from);
            &&& final(out)@.len() > from
            &&& final(out)@.take(from) == old(out)@
            &&& value_of(digits) == n
            &&& forall|i: int| 0 <= i < digits.len() ==> 48 <= (#[trigger] digits[i]) as int <= 57
            &&& n > 0 ==> digits[0] as int != 48
        }),
{
    decimal_means_its_number(n as nat);
    let from = old(out)@.len() as int;
    assert(final(out)@.take(from) =~= old(out)@);
    assert(final(out)@.skip(from) =~= decimal(n as nat));
}

/// A text is its characters, one way and the other.
pub proof fn text_is_its_characters(s: &str, chars: Vec<char>, all: &[char], text: String)
    requires
        call_ensures(chars_of, (s,), chars),
        call_ensures(text_from, (all,), text),
    ensures
        chars@ == s@,
        text@ == all@,
{
}

proof fn trimmed_start(s: Seq<char>) -> (k: int)
    ensures
        0 <= k <= s.len(),
        trim_start(s) == s.skip(k),
        forall|i: int| 0 <= i < k ==> is_white(#[trigger] s[i]),
        k < s.len() ==> !is_white(s[k]),
    decreases s.len(),
{
    if s.len() > 0 && is_white(s[0]) {
        let rest = s.drop_first();
        let k = trimmed_start(rest);
        assert(rest.skip(k) =~= s.skip(k + 1));
        assert forall|i: int| 0 <= i < k + 1 implies is_white(#[trigger] s[i]) by {
            if i > 0 {
                assert(rest[i - 1] == s[i]);
            }
        }
        k + 1
    } else {
        assert(s.skip(0) =~= s);
        0
    }
}

proof fn trimmed_end(s: Seq<char>) -> (k: int)
    ensures
        0 <= k <= s.len(),
        trim_end(s) == s.take(k),
        forall|i: int| k <= i < s.len() ==> is_white(#[trigger] s[i]),
        k > 0 ==> !is_white(s[k - 1]),
    decreases s.len(),
{
    if s.len() > 0 && is_white(s.last()) {
        let rest = s.drop_last();
        let k = trimmed_end(rest);
        assert(rest.take(k) =~= s.take(k));
        assert forall|i: int| k <= i < s.len() implies is_white(#[trigger] s[i]) by {
            if i < rest.len() {
                assert(rest[i] == s[i]);
            }
        }
        k
    } else {
        assert(s.take(s.len() as int) =~= s);
        s.len() as int
    }
}

/// A space, a tab and a line break are white space, and the blanks beyond ASCII
/// are; no letter, digit or punctuation mark of ASCII is, and nothing else.
pub proof fn white_space_is_blank(c: char, b: bool)
    requires
        call_ensures(white_space, (c,), b),
    ensures
        c as int == 32 || 9 <= c as int <= 13 ==> b,
        33 <= c as int <= 126 ==> !b,
        (c as int) < 9 || 14 <= c as int <= 31 ==> !b,
        127 <= c as int <= 0x1fff ==> (b <==> c as int == 0x85 || c as int == 0xa0 || c as int
            == 0x1680),
        0x2000 <= c as int <= 0x200a ==> b,
        c as int > 0x200a ==> (b <==> c as int == 0x2028 || c as int == 0x2029 || c as int == 0x202f
            || c as int == 0x205f || c as int == 0x3000),
{
}

/// Trimming takes away white space at both ends and nothing else: what is left
/// neither starts nor ends with it, and what is gone is nothing but it.
pub proof fn trimming_takes_white_ends_only(chars: &Vec<char>, r: (usize, usize), i: int, b: bool)
    requires
        call_ensures(trimmed_range, (chars,), r),
        0 <= i < chars@.len(),
        call_ensures(white_space, (chars@[i],), b),
    ensures
        r.0 <= r.1 <= chars@.len(),
        r.0 < r.1 && (i == r.0 || i == r.1 - 1) ==> !b,
        r.0 < r.1 && (i < r.0 || i >= r.1) ==> b,
        r.0 == r.1 ==> b,
{
    let s = chars@;
    let a = trimmed_start(s);
    let rest = trim_start(s);
    let e = trimmed_end(rest);
    let left = trim_end(rest);
    assert(left == s.subrange(r.0 as int, r.1 as int));
    assert(left.len() == e);
    assert(left.len() == r.1 - r.0);
    if a <= i < a + e {
        assert(rest[i - a] == s[i]);
    }
    if i >= a + e && i >= a {
        assert(rest[i - a] == s[i]);
    }
    if e > 0 {
        assert(left[0] == s[a]);
        assert(left[0] == s[r.0 as int]);
        assert(rest[e - 1] == s[a + e - 1]);
        assert(left[e - 1] == s[r.1 - 1]);
        assert forall|j: int| a + e <= j < s.len() implies is_white(#[trigger] s[j]) by {
            assert(rest[j - a] == s[j]);
        }
        white_bounds(s, a, a + e, r.0 as int, r.1 as int);
    }
}

proof fn white_bounds(s: Seq<char>, a: int, e: int, p: int, q: int)
    requires
        0 <= a < e <= s.len(),
        0 <= p < q <= s.len(),
        e - a == q - p,
        forall|i: int| 0 <= i < a ==> is_white(#[trigger] s[i]),
        forall|i: int| e <= i < s.len() ==> is_white(#[trigger] s[i]),
        !is_white(s[a]),
        !is_white(s[e - 1]),
        !is_white(s[p]),
        !is_white(s[q - 1]),
    ensures
        a == p,
        e == q,
{
}

/// The order of the encoded numbers: among positive ones that of the
/// encodings, among negative ones the reverse, a negative one below a positive
/// one, both zeros equal, and no NaN in it.
pub proof fn numbers_are_ordered(a: Scalar, b: Scalar, less: bool, nan: bool)
    requires
        call_ensures(Scalar::below, (a, b), less),
        call_ensures(Scalar::is_nan, (a,), nan),
    ensures
        ({
            let top = 0x8000_0000_0000_0000int;
            let inf = 0x7ff0_0000_0000_0000int;
            let (x, y) = (a.bits as int, b.bits as int);
            &&& nan <==> inf < x < top || x > top + inf
            &&& nan ==> !less && !a.same_number(b)
            &&& x <= inf && y <= inf ==> (less <==> x < y) && (a.same_number(b) <==> x == y)
            &&& top <= x <= top + inf && top <= y <= top + inf ==> (less <==> x > y) && (
            a.same_number(b) <==> x == y)
            &&& top < x <= top + inf && y <= inf ==> less && !a.same_number(b)
            &&& x <= inf && top <= y <= top + inf ==> !less && (a.same_number(b) <==> x == 0 && y
                == top)
            &&& x == top && y <= inf ==> (less <==> y > 0) && (a.same_number(b) <==> y == 0)
            &&& inf < y < top || y > top + inf ==> !less && !a.same_number(b)
        }),
{
}

/// `==` on encoded numbers is equality of the numbers.
pub proof fn equality_is_of_numbers(a: &Scalar, b: &Scalar, r: bool)
    requires
        call_ensures(<Scalar as PartialEq>::eq, (a, b), r),
    ensures
        r == a.same_number(*b),
{
}

/// Encodings pass unchanged, and zero is the encoding zero.
pub proof fn encodings_pass_unchanged(bits: u64, s: Scalar, back: u64, z: Scalar)
    requires
        call_ensures(Scalar::from_bits, (bits,), s),
        call_ensures(Scalar::to_bits, (s,), back),
        call_ensures(Scalar::zero, (), z),
    ensures
        s.bits == bits,
        back == bits,
        z.bits == 0,
{
}

/// The identity scales by one and moves by nothing.
pub proof fn identity_mapping_is_one_to_one(m: InputMapping)
    requires
        call_ensures(InputMapping::identity, (), m),
    ensures
        m.scale_x.bits == 0x3ff0_0000_0000_0000,
        m.scale_y.bits == 0x3ff0_0000_0000_0000,
        m.offset_x.bits == 0,
        m.offset_y.bits == 0,
{
}

/// A first mapping is sent unless it is the identity, a later one unless it is
/// like the last.
pub proof fn mapping_is_sent_when_it_changes(like: bool, is_identity: bool, first: bool, later: bool)
    requires
        call_ensures(should_send, (None, is_identity), first),
        call_ensures(should_send, (Some(like), is_identity), later),
    ensures
        first <==> !is_identity,
        later <==> !like,
{
}

/// A letterbox carries the frame's own content rectangle and scales, and is
/// there exactly when all of them are, scales and window sides are above zero
/// (or no number), and the content scale is not near one.
pub proof fn letterbox_is_of_its_frame(
    meta: &FrameMeta,
    win: &WindowInfo,
    near_one: bool,
    zero: Scalar,
    r: Option<Letterbox>,
)
    requires
        call_ensures(letterbox_of, (meta, win, near_one), r),
        zero.bits == 0,
    ensures
        r is Some ==> {
            &&& meta.content_rect == Some(r->0.content_rect)
            &&& meta.content_scale == Some(r->0.content_scale)
            &&& meta.scale_factor == Some(r->0.scale_factor)
        },
        r is Some <==> {
            &&& meta.content_rect is Some
            &&& meta.content_scale is Some
            &&& meta.scale_factor is Some
            &&& !near_one
            &&& !(meta.content_scale->0.number_below(zero) || meta.content_scale->0.same_number(
                zero,
            ))
            &&& !(meta.scale_factor->0.number_below(zero) || meta.scale_factor->0.same_number(zero))
            &&& !(win.width.number_below(zero) || win.width.same_number(zero))
            &&& !(win.height.number_below(zero) || win.height.same_number(zero))
        },
{
}

/// Metadata is let through when any of its parts differs from the last let
/// through, and only that one is remembered.
pub proof fn metadata_is_let_through_once(f: &mut MetaFilter, meta: FrameMeta, b: bool)
    requires
        call_ensures(MetaFilter::changed, (f, meta), b),
    ensures
        b ==> final(f).last == meta,
        !b ==> final(f).last == old(f).last,
        ({
            let last = old(f).last;
            let (p, q) = (last.content_rect->0, meta.content_rect->0);
            let (s, t) = (last.bounding_rect->0, meta.bounding_rect->0);
            !b <==> {
                &&& meta.width_px == last.width_px
                &&& meta.height_px == last.height_px
                &&& meta.content_rect is Some == last.content_rect is Some
                &&& meta.content_scale is Some == last.content_scale is Some
                &&& meta.scale_factor is Some == last.scale_factor is Some
                &&& meta.bounding_rect is Some == last.bounding_rect is Some
                &&& meta.content_scale is Some ==> last.content_scale->0.same_number(
                    meta.content_scale->0,
                )
                &&& meta.scale_factor is Some ==> last.scale_factor->0.same_number(
                    meta.scale_factor->0,
                )
                &&& meta.content_rect is Some ==> p.0.same_number(q.0) && p.1.same_number(q.1)
                    && p.2.same_number(q.2) && p.3.same_number(q.3)
                &&& meta.bounding_rect is Some ==> s.0.same_number(t.0) && s.1.same_number(t.1)
                    && s.2.same_number(t.2) && s.3.same_number(t.3)
            }
        }),
{
}

} // verus!

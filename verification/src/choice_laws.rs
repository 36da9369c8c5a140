//! What a typed choice of applications means, and what their bundles are
//! called.

use crate::bundle::{
    bundle_slug, candidate, claimed, dashed, dir_of, dir_stem, escape_char, escaped, file_char,
    first_free, free_number, is_alnum, lower, plan_bundle, plist_for, stem_of, xml_escape, BundlePlan,
};
use crate::share::{
    choose_apps, chosen, digits_value, index_of, parse_pids, pid_of, pids_of, pieces,
    trimmed, ShareError,
};
use crate::text::{decimal, is_white, trim_start, white_space};
use crate::text_laws::{decimal_means_its_number, value_of};
use vstd::prelude::*;

verus! {

proof fn pieces_split(x: Seq<char>, y: Seq<char>)
    ensures
        pieces(x).len() > 0,
        pieces(x + seq![','] + y) == pieces(x) + pieces(y),
    decreases y.len(),
{
    crate::share::pieces_not_empty(x);
    let joined = x + seq![','] + y;
    if y.len() == 0 {
        assert(joined.drop_last() =~= x);
        assert(pieces(joined) =~= pieces(x) + pieces(y));
    } else {
        let rest = y.drop_last();
        pieces_split(x, rest);
        crate::share::pieces_not_empty(rest);
        assert(joined.drop_last() =~= x + seq![','] + rest);
        assert(joined.last() == y.last());
        let before = pieces(x) + pieces(rest);
        assert(before.last() == pieces(rest).last());
        assert(before.drop_last() =~= pieces(x) + pieces(rest).drop_last());
        assert(pieces(joined) =~= pieces(x) + pieces(y));
    }
}

proof fn one_piece(s: Seq<char>)
    requires
        !s.contains(','),
    ensures
        pieces(s) == seq![s],
    decreases s.len(),
{
    if s.len() > 0 {
        let rest = s.drop_last();
        assert(!rest.contains(',')) by {
            if rest.contains(',') {
                let i = choose|i: int| 0 <= i < rest.len() && rest[i] == ',';
                assert(s[i] == ',');
            }
        }
        one_piece(rest);
        assert(s[s.len() - 1] != ',');
        assert(rest.push(s.last()) =~= s);
        assert(pieces(s) =~= seq![s]);
    } else {
        assert(s =~= Seq::<char>::empty());
    }
}

proof fn pids_concat(a: Seq<Seq<char>>, b: Seq<Seq<char>>)
    ensures
        match (pids_of(a), pids_of(b)) {
            (Err(e), _) => pids_of(a + b) == Err::<Seq<i32>, ShareError>(e),
            (Ok(p), Err(e)) => pids_of(a + b) == Err::<Seq<i32>, ShareError>(e),
            (Ok(p), Ok(q)) => pids_of(a + b) == Ok::<Seq<i32>, ShareError>(p + q),
        },
    decreases b.len(),
{
    if b.len() == 0 {
        assert(a + b =~= a);
        if pids_of(a) is Ok {
            assert(pids_of(a)->Ok_0 + Seq::<i32>::empty() =~= pids_of(a)->Ok_0);
        }
    } else {
        pids_concat(a, b.drop_last());
        assert((a + b).drop_last() =~= a + b.drop_last());
        assert((a + b).last() == b.last());
        if pids_of(a) is Ok && pids_of(b) is Ok {
            let p = pids_of(a)->Ok_0;
            let q = pids_of(b.drop_last())->Ok_0;
            let pid = pid_of(trimmed(b.last()))->0;
            assert((p + q).push(pid) =~= p + q.push(pid));
        }
    }
}

proof fn chosen_concat(a: Seq<Seq<char>>, b: Seq<Seq<char>>, apps: Seq<i32>)
    ensures
        match (chosen(a, apps), chosen(b, apps)) {
            (Err(e), _) => chosen(a + b, apps) == Err::<Seq<i32>, ShareError>(e),
            (Ok(p), Err(e)) => chosen(a + b, apps) == Err::<Seq<i32>, ShareError>(e),
            (Ok(p), Ok(q)) => chosen(a + b, apps) == Ok::<Seq<i32>, ShareError>(p + q),
        },
    decreases b.len(),
{
    if b.len() == 0 {
        assert(a + b =~= a);
        if chosen(a, apps) is Ok {
            assert(chosen(a, apps)->Ok_0 + Seq::<i32>::empty() =~= chosen(a, apps)->Ok_0);
        }
    } else {
        chosen_concat(a, b.drop_last(), apps);
        assert((a + b).drop_last() =~= a + b.drop_last());
        assert((a + b).last() == b.last());
        if chosen(a, apps) is Ok && chosen(b, apps) is Ok {
            let p = chosen(a, apps)->Ok_0;
            let q = chosen(b.drop_last(), apps)->Ok_0;
            let index = index_of(trimmed(b.last()))->0;
            assert((p + q).push(apps[index as int]) =~= p + q.push(apps[index as int]));
        }
    }
}

/// Two lists of processes with a comma between them are the processes of the
/// first and then those of the second; what is wrong with the first is told
/// before what is wrong with the second.
pub proof fn lists_of_processes_join(
    x: &str,
    y: &str,
    z: &str,
    first: Result<Vec<i32>, ShareError>,
    second: Result<Vec<i32>, ShareError>,
    both: Result<Vec<i32>, ShareError>,
)
    requires
        z@ == x@ + seq![','] + y@,
        call_ensures(parse_pids, (x,), first),
        call_ensures(parse_pids, (y,), second),
        call_ensures(parse_pids, (z,), both),
    ensures
        both is Ok <==> first is Ok && second is Ok,
        both is Ok ==> both->Ok_0@ == first->Ok_0@ + second->Ok_0@,
        first is Err ==> both is Err && both->Err_0 == first->Err_0,
        first is Ok && second is Err ==> both is Err && both->Err_0 == second->Err_0,
{
    pieces_split(x@, y@);
    pids_concat(pieces(x@), pieces(y@));
}

proof fn no_white_ends(s: Seq<char>)
    requires
        s.len() > 0,
        !is_white(s[0]),
        !is_white(s.last()),
    ensures
        trimmed(s) == s,
{
}

/// Two choices with a comma between them are the applications of the first and
/// then those of the second.
pub proof fn choices_join(
    x: &str,
    y: &str,
    z: &str,
    apps: &Vec<i32>,
    first: Result<Vec<i32>, ShareError>,
    second: Result<Vec<i32>, ShareError>,
    both: Result<Vec<i32>, ShareError>,
    blank: (bool, bool, bool, bool),
)
    requires
        z@ == x@ + seq![','] + y@,
        x@.len() > 0,
        y@.len() > 0,
        call_ensures(white_space, (x@[0],), blank.0),
        call_ensures(white_space, (x@.last(),), blank.1),
        call_ensures(white_space, (y@[0],), blank.2),
        call_ensures(white_space, (y@.last(),), blank.3),
        !blank.0 && !blank.1 && !blank.2 && !blank.3,
        call_ensures(choose_apps, (x, apps), first),
        call_ensures(choose_apps, (y, apps), second),
        call_ensures(choose_apps, (z, apps), both),
    ensures
        both is Ok <==> first is Ok && second is Ok,
        both is Ok ==> both->Ok_0@ == first->Ok_0@ + second->Ok_0@,
        first is Err ==> both is Err && both->Err_0 == first->Err_0,
        first is Ok && second is Err ==> both is Err && both->Err_0 == second->Err_0,
{
    no_white_ends(x@);
    no_white_ends(y@);
    assert(z@[0] == x@[0]);
    assert(z@.last() == y@.last());
    no_white_ends(z@);
    pieces_split(x@, y@);
    chosen_concat(pieces(x@), pieces(y@), apps@);
}

proof fn digits_mean(s: Seq<char>)
    ensures
        digits_value(s) is Some <==> s.len() > 0 && forall|i: int|
            0 <= i < s.len() ==> 48 <= (#[trigger] s[i]) as int <= 57,
        digits_value(s) is Some ==> digits_value(s)->0 == value_of(s),
    decreases s.len(),
{
    if s.len() == 1 {
        assert(s.drop_last() =~= Seq::<char>::empty());
        assert(value_of(Seq::<char>::empty()) == 0);
        assert(s.last() == s[0]);
    } else if s.len() > 1 {
        let rest = s.drop_last();
        digits_mean(rest);
        assert(s.last() == s[s.len() - 1]);
        if forall|i: int| 0 <= i < s.len() ==> 48 <= (#[trigger] s[i]) as int <= 57 {
            assert forall|i: int| 0 <= i < rest.len() implies 48 <= (#[trigger] rest[i]) as int
                <= 57 by {
                assert(rest[i] == s[i]);
            }
        }
        if digits_value(s) is Some {
            assert forall|i: int| 0 <= i < s.len() implies 48 <= (#[trigger] s[i]) as int <= 57 by {
                if i < rest.len() {
                    assert(rest[i] == s[i]);
                }
            }
        }
    }
}

proof fn white_around(pre: Seq<char>, s: Seq<char>, post: Seq<char>)
    requires
        forall|i: int| 0 <= i < pre.len() ==> is_white(#[trigger] pre[i]),
        forall|i: int| 0 <= i < post.len() ==> is_white(#[trigger] post[i]),
        s.len() > 0,
        !is_white(s[0]),
        !is_white(s.last()),
    ensures
        trimmed(pre + s + post) == s,
    decreases pre.len() + post.len(),
{
    let all = pre + s + post;
    if pre.len() > 0 {
        let rest = pre.drop_first();
        assert forall|i: int| 0 <= i < rest.len() implies is_white(#[trigger] rest[i]) by {
            assert(rest[i] == pre[i + 1]);
        }
        white_around(rest, s, post);
        assert(all.drop_first() =~= rest + s + post);
        assert(is_white(pre[0]));
        assert(all[0] == pre[0]);
    } else if post.len() > 0 {
        let rest = post.drop_last();
        assert forall|i: int| 0 <= i < rest.len() implies is_white(#[trigger] rest[i]) by {
            assert(rest[i] == post[i]);
        }
        white_around(pre, s, rest);
        assert(all[0] == s[0]);
        assert(trim_start(all) == all);
        assert((pre + s + rest)[0] == s[0]);
        assert(trim_start(pre + s + rest) == pre + s + rest);
        assert(all.drop_last() =~= pre + s + rest);
        assert(is_white(post[post.len() - 1]));
        assert(all.last() == post.last());
    } else {
        assert(all =~= s);
        no_white_ends(s);
    }
}

/// A number in decimal notation, with blanks around it or none, is the process
/// of that number, and with a minus sign that of its negative.
pub proof fn written_process_is_read(
    n: nat,
    pre: Seq<char>,
    post: Seq<char>,
    plain: &str,
    negative: &str,
    r: Result<Vec<i32>, ShareError>,
    s: Result<Vec<i32>, ShareError>,
)
    requires
        forall|i: int| 0 <= i < pre.len() ==> (#[trigger] pre[i]) as int == 32,
        forall|i: int| 0 <= i < post.len() ==> (#[trigger] post[i]) as int == 32,
        plain@ == pre + decimal(n) + post,
        negative@ == pre + (seq!['-'] + decimal(n)) + post,
        call_ensures(parse_pids, (plain,), r),
        call_ensures(parse_pids, (negative,), s),
    ensures
        n <= i32::MAX ==> r is Ok && r->Ok_0@.len() == 1 && r->Ok_0@[0] == n,
        n > i32::MAX ==> r is Err && r->Err_0 == ShareError::NotANumber,
        n <= i32::MAX + 1 ==> s is Ok && s->Ok_0@.len() == 1 && s->Ok_0@[0] == -n,
{
    decimal_means_its_number(n);
    let d = decimal(n);
    let m = seq!['-'] + d;
    digits_mean(d);
    blanks_are_white(pre);
    blanks_are_white(post);
    white_around(pre, d, post);
    white_around(pre, m, post);
    assert(m.drop_first() =~= d);
    no_comma(pre, d, post);
    assert forall|i: int| 0 <= i < m.len() implies #[trigger] m[i] != ',' && !is_white(m[i]) by {
        if i > 0 {
            assert(m[i] == d[i - 1]);
        }
    }
    no_comma(pre, m, post);
    one_piece(plain@);
    one_piece(negative@);
    single_pid(plain@);
    single_pid(negative@);
}

proof fn single_pid(s: Seq<char>)
    ensures
        match pid_of(trimmed(s)) {
            Some(pid) => pids_of(seq![s]) == Ok::<Seq<i32>, ShareError>(seq![pid]),
            None => pids_of(seq![s]) == Err::<Seq<i32>, ShareError>(ShareError::NotANumber),
        },
{
    assert(seq![s].drop_last() =~= Seq::<Seq<char>>::empty());
    assert(pids_of(Seq::<Seq<char>>::empty()) == Ok::<Seq<i32>, ShareError>(Seq::empty()));
    if pid_of(trimmed(s)) is Some {
        assert(Seq::<i32>::empty().push(pid_of(trimmed(s))->0) =~= seq![pid_of(trimmed(s))->0]);
    }
}

proof fn blanks_are_white(s: Seq<char>)
    requires
        forall|i: int| 0 <= i < s.len() ==> (#[trigger] s[i]) as int == 32,
    ensures
        forall|i: int| 0 <= i < s.len() ==> is_white(#[trigger] s[i]),
{
}

proof fn no_comma(pre: Seq<char>, s: Seq<char>, post: Seq<char>)
    requires
        forall|i: int| 0 <= i < pre.len() ==> (#[trigger] pre[i]) as int == 32,
        forall|i: int| 0 <= i < post.len() ==> (#[trigger] post[i]) as int == 32,
        forall|i: int| 0 <= i < s.len() ==> #[trigger] s[i] != ',',
    ensures
        !(pre + s + post).contains(','),
{
    let all = pre + s + post;
    assert forall|i: int| 0 <= i < all.len() implies #[trigger] all[i] != ',' by {
        if i < pre.len() {
            assert(all[i] == pre[i]);
        } else if i < pre.len() + s.len() {
            assert(all[i] == s[i - pre.len()]);
        } else {
            assert(all[i] == post[i - pre.len() - s.len()]);
        }
    }
}

/// A number in decimal notation, with blanks around it or none, chooses the
/// application of that number, counted from zero; one beyond the last is told
/// apart.
pub proof fn written_index_is_chosen(
    n: nat,
    pre: Seq<char>,
    post: Seq<char>,
    line: &str,
    apps: &Vec<i32>,
    r: Result<Vec<i32>, ShareError>,
)
    requires
        n <= u64::MAX,
        forall|i: int| 0 <= i < pre.len() ==> (#[trigger] pre[i]) as int == 32,
        forall|i: int| 0 <= i < post.len() ==> (#[trigger] post[i]) as int == 32,
        line@ == pre + decimal(n) + post,
        call_ensures(choose_apps, (line, apps), r),
    ensures
        n < apps@.len() ==> r is Ok && r->Ok_0@.len() == 1 && r->Ok_0@[0] == apps@[n as int],
        n >= apps@.len() ==> r is Err && r->Err_0 == (ShareError::OutOfRange { index: n as u64 }),
{
    decimal_means_its_number(n);
    let d = decimal(n);
    digits_mean(d);
    blanks_are_white(pre);
    blanks_are_white(post);
    white_around(pre, d, post);
    no_comma(Seq::empty(), d, Seq::empty());
    assert(Seq::<char>::empty() + d + Seq::<char>::empty() =~= d);
    one_piece(d);
    no_white_ends(d);
    let texts = seq![d];
    assert(texts.drop_last() =~= Seq::<Seq<char>>::empty());
    assert(chosen(Seq::<Seq<char>>::empty(), apps@) == Ok::<Seq<i32>, ShareError>(Seq::empty()));
    assert(index_of(d) == Some(n as u64));
}

/// A text without a comma that is read as a process is its number: digits that
/// mean it, a sign in front or none, and blanks around them or none.
pub proof fn read_process_was_written(raw: &str, r: Result<Vec<i32>, ShareError>)
    requires
        !raw@.contains(','),
        call_ensures(parse_pids, (raw,), r),
    ensures
        r is Err ==> r->Err_0 == ShareError::NotANumber,
        r is Ok ==> {
            let t = trimmed(raw@);
            let digits = if t[0] == '-' || t[0] == '+' { t.skip(1) } else { t };
            &&& r->Ok_0@.len() == 1
            &&& t.len() > 0
            &&& digits.len() > 0
            &&& forall|i: int| 0 <= i < digits.len() ==> 48 <= (#[trigger] digits[i]) as int <= 57
            &&& t[0] == '-' ==> r->Ok_0@[0] == -value_of(digits)
            &&& t[0] != '-' ==> r->Ok_0@[0] == value_of(digits)
        },
{
    one_piece(raw@);
    single_pid(raw@);
    let t = trimmed(raw@);
    digits_mean(t);
    if t.len() > 0 {
        assert(t.drop_first() =~= t.skip(1));
        digits_mean(t.drop_first());
    }
}

/// A choice without a comma and without blanks around it that is understood is
/// a number: digits that mean it, a plus sign in front or none. One that is
/// not, a negative one too, is told to be no number.
pub proof fn read_choice_was_written(
    line: &str,
    apps: &Vec<i32>,
    r: Result<Vec<i32>, ShareError>,
    blank: (bool, bool),
    digits: Seq<char>,
)
    requires
        line@.len() > 0,
        !line@.contains(','),
        call_ensures(white_space, (line@[0],), blank.0),
        call_ensures(white_space, (line@.last(),), blank.1),
        !blank.0 && !blank.1,
        call_ensures(choose_apps, (line, apps), r),
        line@[0] == '+' ==> digits == line@.skip(1),
        line@[0] != '+' ==> digits == line@,
    ensures
        ({
            let number = digits.len() > 0 && forall|i: int|
                0 <= i < digits.len() ==> 48 <= (#[trigger] digits[i]) as int <= 57;
            &&& !number ==> r is Err && r->Err_0 == ShareError::NotANumber
            &&& number && value_of(digits) < apps@.len() && value_of(digits) <= u64::MAX ==> r is Ok
                && r->Ok_0@.len() == 1
                && r->Ok_0@[0] == apps@[value_of(digits)]
            &&& number && apps@.len() <= value_of(digits) <= u64::MAX ==> r is Err && r->Err_0 == (
            ShareError::OutOfRange { index: value_of(digits) as u64 })
            &&& number && value_of(digits) > u64::MAX ==> r is Err && r->Err_0
                == ShareError::NotANumber
        }),
{
    let t = line@;
    no_white_ends(t);
    one_piece(t);
    assert(t.drop_first() =~= t.skip(1));
    let texts = seq![t];
    assert(texts.drop_last() =~= Seq::<Seq<char>>::empty());
    assert(chosen(Seq::<Seq<char>>::empty(), apps@) == Ok::<Seq<i32>, ShareError>(Seq::empty()));
    assert(texts.last() == t);
    assert(chosen(texts, apps@) == match index_of(t) {
        Some(index) => if index < apps@.len() {
            Ok::<Seq<i32>, ShareError>(Seq::empty().push(apps@[index as int]))
        } else {
            Err(ShareError::OutOfRange { index })
        },
        None => Err(ShareError::NotANumber),
    });
    digits_mean(digits);
    assert(digits_value(digits) is Some ==> t[0] != '-') by {
        if t[0] == '-' && digits_value(t) is Some {
            assert(48 <= (t[0]) as int <= 57);
        }
    }
}

/// A name of nothing but blanks makes a bundle called `Mirror`, and one without
/// a letter or digit the slug `mirror`.
pub proof fn nameless_bundles_are_mirrors(blank: &str, stem: String, odd: &str, slug: String)
    requires
        forall|i: int| 0 <= i < blank@.len() ==> (#[trigger] blank@[i]) as int == 32,
        call_ensures(dir_stem, (blank,), stem),
        forall|i: int|
            0 <= i < odd@.len() ==> {
                let c = (#[trigger] odd@[i]) as int;
                !(48 <= c <= 57 || 65 <= c <= 90 || 97 <= c <= 122)
            },
        call_ensures(bundle_slug, (odd,), slug),
    ensures
        stem@ == seq!['M', 'i', 'r', 'r', 'o', 'r'],
        slug@ == seq!['m', 'i', 'r', 'r', 'o', 'r'],
{
    reveal_strlit("Mirror");
    reveal_strlit("mirror");
    assert("Mirror"@ =~= seq!['M', 'i', 'r', 'r', 'o', 'r']);
    assert("mirror"@ =~= seq!['m', 'i', 'r', 'r', 'o', 'r']);
    let m = blank@.map_values(|c: char| file_char(c));
    assert forall|i: int| 0 <= i < m.len() implies is_white(#[trigger] m[i]) by {
        assert(m[i] == file_char(blank@[i]));
    }
    all_white(m);
    nothing_dashed(odd@);
}

proof fn all_white(s: Seq<char>)
    requires
        forall|i: int| 0 <= i < s.len() ==> is_white(#[trigger] s[i]),
    ensures
        trimmed(s).len() == 0,
    decreases s.len(),
{
    if s.len() > 0 {
        assert(is_white(s[0]));
        let rest = s.drop_first();
        assert forall|i: int| 0 <= i < rest.len() implies is_white(#[trigger] rest[i]) by {
            assert(rest[i] == s[i + 1]);
        }
        all_white(rest);
    }
}

proof fn nothing_dashed(s: Seq<char>)
    requires
        forall|i: int|
            0 <= i < s.len() ==> {
                let c = (#[trigger] s[i]) as int;
                !(48 <= c <= 57 || 65 <= c <= 90 || 97 <= c <= 122)
            },
    ensures
        dashed(s).len() == 0,
    decreases s.len(),
{
    if s.len() > 0 {
        let rest = s.drop_last();
        assert forall|i: int| 0 <= i < rest.len() implies {
            let c = (#[trigger] rest[i]) as int;
            !(48 <= c <= 57 || 65 <= c <= 90 || 97 <= c <= 122)
        } by {
            assert(rest[i] == s[i]);
        }
        nothing_dashed(rest);
        assert(!is_alnum(s[s.len() - 1]));
    }
}

/// The stem of a bundle is the name that the application shows, without blanks
/// around it and with a dash for each slash and colon; `a` and `e` are where
/// the name without blanks starts and ends.
pub proof fn stem_is_the_shown_name(
    name: &str,
    r: String,
    a: int,
    e: int,
    first: bool,
    last: bool,
    i: int,
)
    requires
        call_ensures(dir_stem, (name,), r),
        0 <= a < e <= name@.len(),
        forall|k: int| 0 <= k < a ==> (#[trigger] name@[k]) as int == 32,
        forall|k: int| e <= k < name@.len() ==> (#[trigger] name@[k]) as int == 32,
        call_ensures(white_space, (name@[a],), first),
        call_ensures(white_space, (name@[e - 1],), last),
        !first,
        !last,
        0 <= i < e - a,
    ensures
        r@.len() == e - a,
        name@[a + i] == '/' || name@[a + i] == ':' ==> r@[i] == '-',
        name@[a + i] != '/' && name@[a + i] != ':' ==> r@[i] == name@[a + i],
{
    let m = name@.map_values(|c: char| file_char(c));
    let pre = m.take(a);
    let s = m.subrange(a, e);
    let post = m.skip(e);
    assert(m =~= pre + s + post);
    assert forall|k: int| 0 <= k < pre.len() implies is_white(#[trigger] pre[k]) by {
        assert(pre[k] == file_char(name@[k]));
    }
    assert forall|k: int| 0 <= k < post.len() implies is_white(#[trigger] post[k]) by {
        assert(post[k] == file_char(name@[e + k]));
    }
    assert(s[0] == file_char(name@[a]));
    assert(s.last() == file_char(name@[e - 1]));
    white_around(pre, s, post);
    assert(r@ == s);
    assert(s[i] == file_char(name@[a + i]));
}

proof fn dashed_plain(s: Seq<char>)
    requires
        forall|i: int| 0 <= i < s.len() ==> is_alnum(#[trigger] s[i]),
    ensures
        dashed(s).len() == s.len(),
        forall|i: int| 0 <= i < s.len() ==> #[trigger] dashed(s)[i] == lower(s[i]),
    decreases s.len(),
{
    if s.len() > 0 {
        let rest = s.drop_last();
        assert forall|i: int| 0 <= i < rest.len() implies is_alnum(#[trigger] rest[i]) by {
            assert(rest[i] == s[i]);
        }
        dashed_plain(rest);
        assert(is_alnum(s[s.len() - 1]));
        assert forall|i: int| 0 <= i < s.len() implies #[trigger] dashed(s)[i] == lower(s[i]) by {
            if i < rest.len() {
                assert(dashed(rest)[i] == lower(rest[i]));
            }
        }
    }
}

/// The slug of letters and digits is the same in lower case.
pub proof fn slug_of_a_word_is_the_word(stem: &str, r: String, i: int)
    requires
        call_ensures(bundle_slug, (stem,), r),
        stem@.len() > 0,
        forall|k: int|
            0 <= k < stem@.len() ==> {
                let c = (#[trigger] stem@[k]) as int;
                48 <= c <= 57 || 65 <= c <= 90 || 97 <= c <= 122
            },
        0 <= i < stem@.len(),
    ensures
        r@.len() == stem@.len(),
        65 <= stem@[i] as int <= 90 ==> r@[i] as int == stem@[i] as int + 32,
        !(65 <= stem@[i] as int <= 90) ==> r@[i] == stem@[i],
{
    assert forall|k: int| 0 <= k < stem@.len() implies is_alnum(#[trigger] stem@[k]) by {
        let c = stem@[k] as int;
        assert(48 <= c <= 57 || 65 <= c <= 90 || 97 <= c <= 122);
    }
    dashed_plain(stem@);
    let d = dashed(stem@);
    assert(d[i] == lower(stem@[i]));
    assert(d.last() == lower(stem@[stem@.len() - 1]));
    assert(is_alnum(stem@[stem@.len() - 1]));
}

proof fn dashed_behind(p: Seq<char>, y: Seq<char>)
    requires
        dashed(p).len() > 0,
        dashed(p).last() == '-',
        y.len() > 0,
        is_alnum(y[0]),
    ensures
        dashed(y).len() > 0,
        dashed(p + y) == dashed(p) + dashed(y),
    decreases y.len(),
{
    let rest = y.drop_last();
    let c = y.last();
    assert((p + y).drop_last() =~= p + rest);
    assert((p + y).last() == c);
    if y.len() == 1 {
        assert(p + rest =~= p);
        assert(rest =~= Seq::<char>::empty());
        assert(dashed(rest) =~= Seq::<char>::empty());
        assert(dashed(y) =~= seq![lower(c)]);
        assert(dashed(p + y) =~= dashed(p) + dashed(y));
    } else {
        assert(rest[0] == y[0]);
        dashed_behind(p, rest);
        let before = dashed(p) + dashed(rest);
        assert(before.last() == dashed(rest).last());
        assert(dashed(p + y) =~= dashed(p) + dashed(y));
    }
}

proof fn dashed_word_end(x: Seq<char>)
    requires
        x.len() > 0,
        is_alnum(x.last()),
    ensures
        dashed(x).len() > 0,
        dashed(x).last() != '-',
{
}

/// Two names with anything but letters and digits between them have their
/// slugs with one dash between them.
pub proof fn slugs_are_joined_by_one_dash(
    x: &str,
    gap: Seq<char>,
    y: &str,
    z: &str,
    first: String,
    second: String,
    both: String,
)
    requires
        x@.len() > 0,
        y@.len() > 0,
        ({
            let c = x@.last() as int;
            48 <= c <= 57 || 65 <= c <= 90 || 97 <= c <= 122
        }),
        ({
            let c = y@[0] as int;
            48 <= c <= 57 || 65 <= c <= 90 || 97 <= c <= 122
        }),
        gap.len() > 0,
        forall|k: int|
            0 <= k < gap.len() ==> {
                let c = (#[trigger] gap[k]) as int;
                !(48 <= c <= 57 || 65 <= c <= 90 || 97 <= c <= 122)
            },
        z@ == x@ + gap + y@,
        call_ensures(bundle_slug, (x,), first),
        call_ensures(bundle_slug, (y,), second),
        call_ensures(bundle_slug, (z,), both),
    ensures
        both@ == first@ + seq!['-'] + second@,
{
    dashed_word_end(x@);
    gap_is_one_dash(x@, gap);
    dashed_behind(x@ + gap, y@);
    let (dx, dy) = (dashed(x@), dashed(y@));
    assert(z@ =~= (x@ + gap) + y@);
    assert(dashed(z@) == dx.push('-') + dy);
    assert(dashed(z@).last() == dy.last());
    assert(first@ == dx);
    y_starts_plain(y@);
    if dy.last() == '-' {
        assert(dashed(z@).drop_last() =~= dx.push('-') + dy.drop_last());
        assert(dy.len() > 1);
        assert(second@ == dy.drop_last());
        assert(both@ =~= first@ + seq!['-'] + second@);
    } else {
        assert(second@ == dy);
        assert(both@ =~= first@ + seq!['-'] + second@);
    }
}

proof fn y_starts_plain(y: Seq<char>)
    requires
        y.len() > 0,
        is_alnum(y[0]),
    ensures
        dashed(y).len() > 0,
        dashed(y)[0] != '-',
    decreases y.len(),
{
    if y.len() > 1 {
        assert(y.drop_last()[0] == y[0]);
        y_starts_plain(y.drop_last());
    } else {
        assert(y.drop_last() =~= Seq::<char>::empty());
        assert(dashed(y.drop_last()) =~= Seq::<char>::empty());
        assert(dashed(y) =~= seq![lower(y[0])]);
    }
}

proof fn gap_is_one_dash(x: Seq<char>, gap: Seq<char>)
    requires
        dashed(x).len() > 0,
        dashed(x).last() != '-',
        gap.len() > 0,
        forall|k: int|
            0 <= k < gap.len() ==> {
                let c = (#[trigger] gap[k]) as int;
                !(48 <= c <= 57 || 65 <= c <= 90 || 97 <= c <= 122)
            },
    ensures
        dashed(x + gap) == dashed(x).push('-'),
    decreases gap.len(),
{
    let rest = gap.drop_last();
    assert((x + gap).drop_last() =~= x + rest);
    assert((x + gap).last() == gap[gap.len() - 1]);
    if gap.len() > 1 {
        assert forall|k: int| 0 <= k < rest.len() implies {
            let c = (#[trigger] rest[k]) as int;
            !(48 <= c <= 57 || 65 <= c <= 90 || 97 <= c <= 122)
        } by {
            assert(rest[k] == gap[k]);
        }
        gap_is_one_dash(x, rest);
    } else {
        assert(x + rest =~= x);
    }
}

proof fn escaped_concat(x: Seq<char>, y: Seq<char>)
    ensures
        escaped(x + y) == escaped(x) + escaped(y),
    decreases y.len(),
{
    if y.len() == 0 {
        assert(x + y =~= x);
        assert(escaped(x + y) =~= escaped(x) + escaped(y));
    } else {
        escaped_concat(x, y.drop_last());
        assert((x + y).drop_last() =~= x + y.drop_last());
        assert((x + y).last() == y.last());
        assert(escaped(x + y) =~= escaped(x) + escaped(y));
    }
}

/// Escaping goes through a text piece by piece.
pub proof fn escaping_goes_piece_by_piece(
    x: &str,
    y: &str,
    z: &str,
    first: String,
    second: String,
    both: String,
)
    requires
        z@ == x@ + y@,
        call_ensures(xml_escape, (x,), first),
        call_ensures(xml_escape, (y,), second),
        call_ensures(xml_escape, (z,), both),
    ensures
        both@ == first@ + second@,
{
    escaped_concat(x@, y@);
}

/// The markup characters are written by their names and every other character
/// as it is; nothing is written as nothing.
pub proof fn markup_is_escaped(s: &str, c: char, r: String)
    requires
        call_ensures(xml_escape, (s,), r),
    ensures
        s@.len() == 0 ==> r@.len() == 0,
        s@ == seq![c] ==> {
            &&& c as int == 38 ==> r@ == seq!['&', 'a', 'm', 'p', ';']
            &&& c as int == 60 ==> r@ == seq!['&', 'l', 't', ';']
            &&& c as int == 62 ==> r@ == seq!['&', 'g', 't', ';']
            &&& c as int != 38 && c as int != 60 && c as int != 62 ==> r@ == seq![c]
        },
{
    reveal_strlit("&amp;");
    reveal_strlit("&lt;");
    reveal_strlit("&gt;");
    if s@ == seq![c] {
        assert(s@.drop_last() =~= Seq::<char>::empty());
        assert(escaped(Seq::<char>::empty()) =~= Seq::<char>::empty());
        assert(r@ =~= escape_char(c));
        assert("&amp;"@ =~= seq!['&', 'a', 'm', 'p', ';']);
        assert("&lt;"@ =~= seq!['&', 'l', 't', ';']);
        assert("&gt;"@ =~= seq!['&', 'g', 't', ';']);
    }
}

/// A bundle stands in a directory that no other has, named by its stem where
/// that is free and else with a number from two on behind it; its executable
/// lies inside and has the directory's name without `.app`.
pub proof fn bundle_is_named_after_its_application(
    name: &str,
    taken: &Vec<String>,
    plan: BundlePlan,
    stem: String,
    i: int,
    m: nat,
) -> (n: nat)
    requires
        call_ensures(plan_bundle, (name, taken), plan),
        call_ensures(dir_stem, (name,), stem),
    ensures
        n >= 1,
        ({
            let own = if n == 1 { stem@ } else { stem@ + seq![' '] + decimal(n) };
            &&& plan.bundle.dir@ == own + seq!['.', 'a', 'p', 'p']
            &&& plan.bundle.exe@ == plan.bundle.dir@ + "/Contents/MacOS/"@ + own
        }),
        0 <= i < taken@.len() ==> taken@[i]@ != plan.bundle.dir@,
        n > 1 ==> exists|k: int|
            0 <= k < taken@.len() && #[trigger] taken@[k]@ == stem@ + seq!['.', 'a', 'p', 'p'],
        1 < m < n ==> exists|k: int|
            0 <= k < taken@.len() && #[trigger] taken@[k]@ == stem@ + seq![' '] + decimal(m) + seq![
                '.',
                'a',
                'p',
                'p',
            ],
{
    reveal_strlit(" ");
    reveal_strlit(".app");
    assert(" "@ =~= seq![' ']);
    assert(".app"@ =~= seq!['.', 'a', 'p', 'p']);
    let base = stem_of(name@);
    let n = free_number(base, taken@);
    assert(first_free(base, taken@, n));
    assert(plan.bundle.dir@ == dir_of(candidate(base, n)));
    if 0 <= i < taken@.len() && taken@[i]@ == plan.bundle.dir@ {
        assert(claimed(taken@, dir_of(candidate(base, n))));
    }
    if n > 1 {
        assert(candidate(base, 1) == base);
        assert(claimed(taken@, dir_of(candidate(base, 1))));
        let k = choose|k: int| 0 <= k < taken@.len() && #[trigger] taken@[k]@ == dir_of(base);
        assert(taken@[k]@ == stem@ + seq!['.', 'a', 'p', 'p']);
    }
    if 1 < m < n {
        assert(claimed(taken@, dir_of(candidate(base, m))));
        let k = choose|k: int|
            0 <= k < taken@.len() && #[trigger] taken@[k]@ == dir_of(candidate(base, m));
        assert(taken@[k]@ == stem@ + seq![' '] + decimal(m) + seq!['.', 'a', 'p', 'p']);
    }
    n
}

/// The property list names the application as it is shown, its executable, and
/// an identifier made of the executable's slug, each in its own place.
pub proof fn property_list_names_its_bundle(
    display: &str,
    exe: &str,
    r: String,
    shown: String,
    program: String,
    slug: String,
)
    requires
        call_ensures(plist_for, (display, exe), r),
        call_ensures(xml_escape, (display,), shown),
        call_ensures(xml_escape, (exe,), program),
        call_ensures(bundle_slug, (exe,), slug),
    ensures
        r@ == "<?xml version=\"1.0\" encoding=\"UTF-8\"?>\n<!DOCTYPE plist PUBLIC \"-//Apple//DTD PLIST 1.0//EN\" \"http://www.apple.com/DTDs/PropertyList-1.0.dtd\">\n<plist version=\"1.0\">\n<dict>\n\t<key>CFBundleName</key>\n\t<string>"@ + shown@
            + "</string>\n\t<key>CFBundleDisplayName</key>\n\t<string>"@ + shown@
            + "</string>\n\t<key>CFBundleIdentifier</key>\n\t<string>io.shebbak.mirror."@ + slug@
            + "</string>\n\t<key>CFBundleExecutable</key>\n\t<string>"@ + program@ + "</string>\n\t<key>CFBundlePackageType</key>\n\t<string>APPL</string>\n\t<key>CFBundleInfoDictionaryVersion</key>\n\t<string>6.0</string>\n\t<key>NSHighResolutionCapable</key>\n\t<true/>\n</dict>\n</plist>\n"@,
{
}

} // verus!

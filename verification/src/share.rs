//! Choosing the applications to share.

use crate::text::{chars_of, trim_end, trim_start, trimmed_range};
use vstd::prelude::*;

verus! {

/// Why a choice was not understood.
#[derive(Debug, Clone, Copy, PartialEq, Eq, Structural)]
pub enum ShareError {
    NotANumber,
    OutOfRange { index: u64 },
}

/// The text without the white space around it.
pub open spec fn trimmed(s: Seq<char>) -> Seq<char> {
    trim_end(trim_start(s))
}

/// The pieces of a text between commas; a text without commas is one piece.
pub open spec fn pieces(s: Seq<char>) -> Seq<Seq<char>>
    decreases s.len(),
{
    if s.len() == 0 {
        seq![Seq::empty()]
    } else {
        let before = pieces(s.drop_last());
        if s.last() == ',' {
            before.push(Seq::empty())
        } else {
            before.drop_last().push(before.last().push(s.last()))
        }
    }
}

pub open spec fn is_digit(c: char) -> bool {
    '0' <= c <= '9'
}

/// The number that some digits spell; `None` unless they are digits, and at
/// least one.
pub open spec fn digits_value(s: Seq<char>) -> Option<nat>
    decreases s.len(),
{
    if s.len() == 0 || !is_digit(s.last()) {
        None
    } else if s.len() == 1 {
        Some((s[0] as u32 - 48) as nat)
    } else {
        match digits_value(s.drop_last()) {
            Some(n) => Some((10 * n + (s.last() as u32 - 48)) as nat),
            None => None,
        }
    }
}

/// The number that a text spells: digits, after a sign where there is one.
pub open spec fn signed_value(s: Seq<char>) -> Option<int> {
    if s.len() > 0 && s[0] == '-' {
        match digits_value(s.drop_first()) {
            Some(n) => Some(-(n as int)),
            None => None,
        }
    } else if s.len() > 0 && s[0] == '+' {
        match digits_value(s.drop_first()) {
            Some(n) => Some(n as int),
            None => None,
        }
    } else {
        match digits_value(s) {
            Some(n) => Some(n as int),
            None => None,
        }
    }
}

/// The process id that a text spells.
pub open spec fn pid_of(s: Seq<char>) -> Option<i32> {
    match signed_value(s) {
        Some(n) => if i32::MIN <= n <= i32::MAX {
            Some(n as i32)
        } else {
            None
        },
        None => None,
    }
}

/// The index that a text spells; a minus sign spells none.
pub open spec fn index_of(s: Seq<char>) -> Option<u64> {
    if s.len() > 0 && s[0] == '-' {
        None
    } else {
        match signed_value(s) {
            Some(n) => if n <= u64::MAX {
                Some(n as u64)
            } else {
                None
            },
            None => None,
        }
    }
}

/// The process ids in a list of texts; the first that is none is the error.
pub open spec fn pids_of(texts: Seq<Seq<char>>) -> Result<Seq<i32>, ShareError>
    decreases texts.len(),
{
    if texts.len() == 0 {
        Ok(Seq::empty())
    } else {
        match pids_of(texts.drop_last()) {
            Err(e) => Err(e),
            Ok(before) => match pid_of(trimmed(texts.last())) {
                Some(pid) => Ok(before.push(pid)),
                None => Err(ShareError::NotANumber),
            },
        }
    }
}

/// The applications that a list of indices chooses; the first index that is
/// none, or too large, is the error.
pub open spec fn chosen(texts: Seq<Seq<char>>, apps: Seq<i32>) -> Result<Seq<i32>, ShareError>
    decreases texts.len(),
{
    if texts.len() == 0 {
        Ok(Seq::empty())
    } else {
        match chosen(texts.drop_last(), apps) {
            Err(e) => Err(e),
            Ok(before) => match index_of(trimmed(texts.last())) {
                Some(index) => if index < apps.len() {
                    Ok(before.push(apps[index as int]))
                } else {
                    Err(ShareError::OutOfRange { index })
                },
                None => Err(ShareError::NotANumber),
            },
        }
    }
}

pub open spec fn list_view(r: Result<Vec<i32>, ShareError>) -> Result<Seq<i32>, ShareError> {
    match r {
        Ok(v) => Ok(v@),
        Err(e) => Err(e),
    }
}

/// A list has at least one piece.
pub proof fn pieces_not_empty(s: Seq<char>)
    ensures
        pieces(s).len() > 0,
    decreases s.len(),
{
    if s.len() > 0 {
        pieces_not_empty(s.drop_last());
    }
}

/// A list that is understood chooses at least one application.
pub proof fn choice_is_not_empty(line: Seq<char>, apps: Seq<i32>)
    ensures
        match chosen(pieces(trimmed(line)), apps) {
            Ok(v) => v.len() > 0,
            Err(_) => true,
        },
        match pids_of(pieces(line)) {
            Ok(v) => v.len() > 0,
            Err(_) => true,
        },
{
    pieces_not_empty(trimmed(line));
    pieces_not_empty(line);
}

/// Some texts, as sequences of characters.
pub open spec fn texts(v: Seq<Vec<char>>) -> Seq<Seq<char>> {
    v.map_values(|t: Vec<char>| t@)
}

/// The pieces of `chars[from..to]`.
fn split(chars: &Vec<char>, from: usize, to: usize) -> (r: Vec<Vec<char>>)
    requires
        from <= to <= chars@.len(),
    ensures
        texts(r@) == pieces(chars@.subrange(from as int, to as int)),
{
    let ghost s = chars@.subrange(from as int, to as int);
    let mut done: Vec<Vec<char>> = Vec::new();
    let mut current: Vec<char> = Vec::new();
    let mut i: usize = from;
    assert(s.take(0) =~= Seq::<char>::empty());
    assert(texts(done@).push(current@) =~= pieces(s.take(0)));
    while i < to
        invariant
            from <= i <= to <= chars@.len(),
            s == chars@.subrange(from as int, to as int),
            texts(done@).push(current@) == pieces(s.take(i - from)),
        decreases to - i,
    {
        let c: char = chars[i];
        let ghost k = i - from;
        let ghost before = texts(done@).push(current@);
        assert(s.take(k + 1).drop_last() =~= s.take(k));
        assert(s.take(k + 1).last() == c);
        assert(before.last() == current@);
        assert(before.drop_last() =~= texts(done@));
        if c == ',' {
            let ghost was = current@;
            let ghost done_before = texts(done@);
            done.push(current);
            current = Vec::new();
            assert(texts(done@) =~= done_before.push(was));
            assert(texts(done@).push(current@) =~= before.push(Seq::empty()));
        } else {
            current.push(c);
        }
        i += 1;
    }
    assert(s.take(to - from) =~= s);
    let ghost was = current@;
    let ghost done_before = texts(done@);
    done.push(current);
    assert(texts(done@) =~= done_before.push(was));
    done
}

/// The number that the digits `chars[from..to]` spell, as far as it fits.
fn number(chars: &Vec<char>, from: usize, to: usize) -> (r: Option<u64>)
    requires
        from <= to <= chars@.len(),
    ensures
        match digits_value(chars@.subrange(from as int, to as int)) {
            Some(n) => if n <= u64::MAX {
                r == Some(n as u64)
            } else {
                r is None
            },
            None => r is None,
        },
{
    let ghost s = chars@.subrange(from as int, to as int);
    if from == to {
        return None;
    }
    let mut value: u64 = 0;
    let mut i: usize = from;
    while i < to
        invariant
            from <= i <= to <= chars@.len(),
            from < to,
            s == chars@.subrange(from as int, to as int),
            i == from ==> value == 0,
            i > from ==> digits_value(s.take(i - from)) == Some(value as nat),
        decreases to - i,
    {
        let c: char = chars[i];
        let ghost k = i - from;
        assert(s.take(k + 1).drop_last() =~= s.take(k));
        assert(s.take(k + 1).last() == c);
        if !('0' <= c && c <= '9') {
            proof {
                no_value_beyond(s, k + 1);
            }
            return None;
        }
        let d: u64 = (c as u32 - 48) as u64;
        assert(digits_value(s.take(k + 1)) == Some((10 * value + d) as nat)) by {
            if k == 0 {
                assert(s.take(1).len() == 1);
            }
        }
        if value > (u64::MAX - d) / 10 {
            assert(10 * value + d > u64::MAX);
            proof {
                value_grows(s, k + 1);
            }
            return None;
        }
        value = 10 * value + d;
        i += 1;
    }
    assert(s.take(to - from) =~= s);
    Some(value)
}

/// What starts with something that is no number is none.
proof fn no_value_beyond(s: Seq<char>, k: int)
    requires
        0 < k <= s.len(),
        digits_value(s.take(k)) is None,
    ensures
        digits_value(s) is None,
    decreases s.len() - k,
{
    if k < s.len() {
        assert(s.take(k + 1).drop_last() =~= s.take(k));
        no_value_beyond(s, k + 1);
    } else {
        assert(s.take(k) =~= s);
    }
}

/// More digits spell no smaller number.
proof fn value_grows(s: Seq<char>, k: int)
    requires
        0 < k <= s.len(),
        digits_value(s.take(k)) is Some,
    ensures
        digits_value(s) is Some ==> digits_value(s)->0 >= digits_value(s.take(k))->0,
    decreases s.len() - k,
{
    if k < s.len() {
        assert(s.take(k + 1).drop_last() =~= s.take(k));
        if digits_value(s.take(k + 1)) is Some {
            value_grows(s, k + 1);
        } else {
            no_value_beyond(s, k + 1);
        }
    } else {
        assert(s.take(k) =~= s);
    }
}

/// The process id that a piece spells.
fn parse_pid(piece: &Vec<char>) -> (r: Option<i32>)
    ensures
        r == pid_of(trimmed(piece@)),
{
    let (from, to): (usize, usize) = trimmed_range(piece);
    let ghost s = piece@.subrange(from as int, to as int);
    if from == to {
        return None;
    }
    let first: char = piece[from];
    assert(s[0] == first);
    let signed: bool = first == '-' || first == '+';
    let start: usize = if signed {
        from + 1
    } else {
        from
    };
    assert(signed ==> piece@.subrange(start as int, to as int) =~= s.drop_first());
    match number(piece, start, to) {
        None => None,
        Some(n) => {
            if first == '-' {
                if n <= 2147483648 {
                    Some((-(n as i64)) as i32)
                } else {
                    None
                }
            } else if n <= 2147483647 {
                Some(n as i32)
            } else {
                None
            }
        },
    }
}

/// The index that a piece spells.
fn parse_index(piece: &Vec<char>) -> (r: Option<u64>)
    ensures
        r == index_of(trimmed(piece@)),
{
    let (from, to): (usize, usize) = trimmed_range(piece);
    let ghost s = piece@.subrange(from as int, to as int);
    if from == to {
        return None;
    }
    let first: char = piece[from];
    assert(s[0] == first);
    if first == '-' {
        return None;
    }
    let start: usize = if first == '+' {
        from + 1
    } else {
        from
    };
    assert(first == '+' ==> piece@.subrange(start as int, to as int) =~= s.drop_first());
    number(piece, start, to)
}

/// The processes that a comma-separated list names.
pub fn parse_pids(raw: &str) -> (r: Result<Vec<i32>, ShareError>)
    ensures
        list_view(r) == pids_of(pieces(raw@)),
{
    let chars: Vec<char> = chars_of(raw);
    let parts: Vec<Vec<char>> = split(&chars, 0, chars.len());
    assert(chars@.subrange(0, chars@.len() as int) =~= raw@);
    let ghost all = texts(parts@);
    let mut pids: Vec<i32> = Vec::new();
    let mut i: usize = 0;
    assert(all.take(0) =~= Seq::<Seq<char>>::empty());
    while i < parts.len()
        invariant
            i <= parts@.len(),
            all == texts(parts@),
            all == pieces(raw@),
            pids_of(all.take(i as int)) == Ok::<Seq<i32>, ShareError>(pids@),
        decreases parts@.len() - i,
    {
        assert(all.take(i + 1).drop_last() =~= all.take(i as int));
        assert(all.take(i + 1).last() == parts@[i as int]@);
        match parse_pid(&parts[i]) {
            Some(pid) => {
                pids.push(pid);
            },
            None => {
                proof {
                    pids_error_stays(all, i + 1, ShareError::NotANumber);
                }
                return Err(ShareError::NotANumber);
            },
        }
        i += 1;
    }
    assert(all.take(i as int) =~= all);
    Ok(pids)
}

proof fn pids_error_stays(all: Seq<Seq<char>>, k: int, e: ShareError)
    requires
        0 <= k <= all.len(),
        pids_of(all.take(k)) == Err::<Seq<i32>, ShareError>(e),
    ensures
        pids_of(all) == Err::<Seq<i32>, ShareError>(e),
    decreases all.len() - k,
{
    if k < all.len() {
        assert(all.take(k + 1).drop_last() =~= all.take(k));
        pids_error_stays(all, k + 1, e);
    } else {
        assert(all.take(k) =~= all);
    }
}

proof fn choice_error_stays(all: Seq<Seq<char>>, apps: Seq<i32>, k: int, e: ShareError)
    requires
        0 <= k <= all.len(),
        chosen(all.take(k), apps) == Err::<Seq<i32>, ShareError>(e),
    ensures
        chosen(all, apps) == Err::<Seq<i32>, ShareError>(e),
    decreases all.len() - k,
{
    if k < all.len() {
        assert(all.take(k + 1).drop_last() =~= all.take(k));
        choice_error_stays(all, apps, k + 1, e);
    } else {
        assert(all.take(k) =~= all);
    }
}

/// The processes that a comma-separated list of indices chooses among the
/// listed applications.
pub fn choose_apps(line: &str, apps: &Vec<i32>) -> (r: Result<Vec<i32>, ShareError>)
    ensures
        list_view(r) == chosen(pieces(trimmed(line@)), apps@),
{
    let chars: Vec<char> = chars_of(line);
    let (from, to): (usize, usize) = trimmed_range(&chars);
    let parts: Vec<Vec<char>> = split(&chars, from, to);
    let ghost all = texts(parts@);
    let mut pids: Vec<i32> = Vec::new();
    let mut i: usize = 0;
    assert(all.take(0) =~= Seq::<Seq<char>>::empty());
    while i < parts.len()
        invariant
            i <= parts@.len(),
            all == texts(parts@),
            all == pieces(trimmed(line@)),
            chosen(all.take(i as int), apps@) == Ok::<Seq<i32>, ShareError>(pids@),
        decreases parts@.len() - i,
    {
        assert(all.take(i + 1).drop_last() =~= all.take(i as int));
        assert(all.take(i + 1).last() == parts@[i as int]@);
        match parse_index(&parts[i]) {
            Some(index) => {
                if index < apps.len() as u64 {
                    pids.push(apps[index as usize]);
                } else {
                    let e = ShareError::OutOfRange { index };
                    proof {
                        choice_error_stays(all, apps@, i + 1, e);
                    }
                    return Err(e);
                }
            },
            None => {
                proof {
                    choice_error_stays(all, apps@, i + 1, ShareError::NotANumber);
                }
                return Err(ShareError::NotANumber);
            },
        }
        i += 1;
    }
    assert(all.take(i as int) =~= all);
    Ok(pids)
}

} // verus!

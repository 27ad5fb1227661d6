//! Decimal numbers, file names and the map text.

use vstd::prelude::*;
use vstd::string::StrSliceExecFns;
use vstd::string::StringExecFns;
use crate::entry::Placement;

verus! {

/// The character of a decimal digit.
pub open spec fn digit_char(d: int) -> char {
    if d == 0 {
        '0'
    } else if d == 1 {
        '1'
    } else if d == 2 {
        '2'
    } else if d == 3 {
        '3'
    } else if d == 4 {
        '4'
    } else if d == 5 {
        '5'
    } else if d == 6 {
        '6'
    } else if d == 7 {
        '7'
    } else if d == 8 {
        '8'
    } else {
        '9'
    }
}

/// A number in decimal, without leading zeros.
pub open spec fn decimal(n: nat) -> Seq<char>
    decreases n,
{
    if n < 10 {
        seq![digit_char(n as int)]
    } else {
        decimal(n / 10).push(digit_char((n % 10) as int))
    }
}

/// Whether a character is a decimal digit.
pub open spec fn is_digit(c: char) -> bool {
    exists|d: int| 0 <= d < 10 && c == #[trigger] digit_char(d)
}

/// A number in decimal is made of digits only, at least one, and starts with
/// a zero only where it is zero.
pub proof fn lemma_decimal_shape(n: nat)
    ensures
        decimal(n).len() >= 1,
        forall|i: int| 0 <= i < decimal(n).len() ==> is_digit(#[trigger] decimal(n)[i]),
        decimal(n)[0] == '0' <==> n == 0,
    decreases n,
{
    if n < 10 {
        assert(is_digit(digit_char(n as int)));
    } else {
        lemma_decimal_shape(n / 10);
        assert(is_digit(digit_char((n % 10) as int)));
        assert(decimal(n)[0] == decimal(n / 10)[0]);
    }
}

/// What follows the last `/` of a path, or all of it.
pub open spec fn last_segment(path: Seq<char>) -> Seq<char>
    decreases path.len(),
{
    if path.len() == 0 {
        path
    } else if path.last() == '/' {
        Seq::empty()
    } else {
        last_segment(path.drop_last()).push(path.last())
    }
}

/// A path without what does not count at its end: separators, and `.`
/// segments that follow a separator.
pub open spec fn trimmed(path: Seq<char>) -> Seq<char>
    decreases path.len(),
{
    if path.len() > 0 && path.last() == '/' {
        trimmed(path.drop_last())
    } else if path.len() >= 2 && path.last() == '.' && path[path.len() - 2] == '/' {
        trimmed(path.drop_last())
    } else {
        path
    }
}

/// The file name of a path: the last segment of the trimmed path. There is
/// none where that segment is empty, `.` or `..`: in the empty path, in a path
/// of separators only, in `.` and in a path that ends in `..`.
pub open spec fn file_name(path: Seq<char>) -> Option<Seq<char>> {
    let segment = last_segment(trimmed(path));
    if segment.len() == 0 || segment == seq!['.'] || segment == seq!['.', '.'] {
        None
    } else {
        Some(segment)
    }
}

/// A separator at the end of a path does not change its file name, nor does a
/// `.` segment after a separator.
pub proof fn lemma_file_name_skips_trailing(path: Seq<char>)
    ensures
        file_name(path.push('/')) == file_name(path),
        file_name(path.push('/').push('.')) == file_name(path),
{
    let slash = path.push('/');
    let dot = slash.push('.');
    assert(slash.drop_last() =~= path);
    assert(dot.drop_last() =~= slash);
    assert(dot[dot.len() - 2] == '/');
    assert(trimmed(slash) == trimmed(path));
    assert(trimmed(dot) == trimmed(slash));
}

/// The name under which a path stands in the map: its file name, or the empty
/// text where it has none.
pub open spec fn basename(path: Seq<char>) -> Seq<char> {
    match file_name(path) {
        Some(name) => name,
        None => Seq::empty(),
    }
}

/// The map line of one placed entry: the file name of its path (nothing
/// where the path has none), top-left corner, bottom-right corner.
pub open spec fn map_line(p: Placement) -> Seq<char> {
    basename(p.filename) + seq![':'] + decimal(p.x as nat) + seq![','] + decimal(p.y as nat)
        + seq!['-'] + decimal((p.x + p.width) as nat) + seq![','] + decimal(
        (p.y + p.height) as nat,
    ) + seq!['\n']
}

/// The map text of a canvas: one line per placed entry, in placement order.
pub open spec fn map_text(placements: Seq<Placement>) -> Seq<char>
    decreases placements.len(),
{
    if placements.len() == 0 {
        Seq::empty()
    } else {
        map_text(placements.drop_last()) + map_line(placements.last())
    }
}

/// A whole number in decimal, with a minus sign where it is negative.
pub open spec fn signed_decimal(i: int) -> Seq<char> {
    if i < 0 {
        seq!['-'] + decimal((-i) as nat)
    } else {
        decimal(i as nat)
    }
}

fn digit_str(d: u64) -> (s: &'static str)
    requires
        d < 10,
    ensures
        s@ == seq![digit_char(d as int)],
{
    proof {
        reveal_strlit("0");
        reveal_strlit("1");
        reveal_strlit("2");
        reveal_strlit("3");
        reveal_strlit("4");
        reveal_strlit("5");
        reveal_strlit("6");
        reveal_strlit("7");
        reveal_strlit("8");
        reveal_strlit("9");
    }
    let s = if d == 0 {
        "0"
    } else if d == 1 {
        "1"
    } else if d == 2 {
        "2"
    } else if d == 3 {
        "3"
    } else if d == 4 {
        "4"
    } else if d == 5 {
        "5"
    } else if d == 6 {
        "6"
    } else if d == 7 {
        "7"
    } else if d == 8 {
        "8"
    } else {
        "9"
    };
    assert(s@ =~= seq![digit_char(d as int)]);
    s
}

/// Writes a number in decimal.
pub fn decimal_string(n: u64) -> (s: String)
    ensures
        s@ == decimal(n as nat),
    decreases n,
{
    if n < 10 {
        String::from_str(digit_str(n))
    } else {
        let mut s = decimal_string(n / 10);
        s.append(digit_str(n % 10));
        assert(s@ =~= decimal((n / 10) as nat).push(digit_char((n % 10) as int)));
        s
    }
}

/// Writes a whole number in decimal.
pub fn signed_decimal_string(i: i64) -> (s: String)
    ensures
        s@ == signed_decimal(i as int),
{
    if i < 0 {
        proof {
            reveal_strlit("-");
            assert("-"@ =~= seq!['-']);
        }
        let magnitude: u64 = (0 - (i as i128)) as u64;
        String::from_str("-").concat(decimal_string(magnitude).as_str())
    } else {
        decimal_string(i as u64)
    }
}

/// Finds the file name of a path.
pub fn file_name_of(path: &str) -> (name: Option<String>)
    ensures
        match name {
            Some(s) => file_name(path@) == Some(s@),
            None => file_name(path@) is None,
        },
{
    let n = path.unicode_len();
    let mut end: usize = n;
    let mut done = false;
    proof {
        assert(path@.take(n as int) =~= path@);
    }
    while end > 0 && !done
        invariant
            n == path@.len(),
            end <= n,
            trimmed(path@) == trimmed(path@.take(end as int)),
            done ==> trimmed(path@.take(end as int)) == path@.take(end as int),
        decreases end + if done { 0int } else { 1int },
    {
        let c = path.get_char(end - 1);
        let skip = if c == '/' {
            true
        } else if c == '.' && end >= 2 {
            path.get_char(end - 2) == '/'
        } else {
            false
        };
        proof {
            assert(path@.take(end as int).last() == c);
            assert(path@.take(end as int).drop_last() =~= path@.take(end - 1));
            if end >= 2 {
                assert(path@.take(end as int)[end - 2] == path@[end - 2]);
            }
        }
        if skip {
            end = end - 1;
        } else {
            done = true;
        }
    }
    let mut start: usize = 0;
    let mut i: usize = 0;
    while i < end
        invariant
            n == path@.len(),
            start <= i <= end <= n,
            last_segment(path@.take(i as int)) == path@.subrange(start as int, i as int),
        decreases end - i,
    {
        let c = path.get_char(i);
        proof {
            assert(path@.take(i + 1).drop_last() =~= path@.take(i as int));
            assert(path@.take(i + 1).last() == c);
        }
        if c == '/' {
            start = i + 1;
            assert(path@.subrange(start as int, start as int) =~= Seq::<char>::empty());
        } else {
            assert(path@.subrange(start as int, i as int).push(c) =~= path@.subrange(
                start as int,
                i + 1,
            ));
        }
        i = i + 1;
    }
    let ghost segment = path@.subrange(start as int, end as int);
    proof {
        assert(trimmed(path@) == path@.take(end as int));
        assert(last_segment(trimmed(path@)) == segment);
    }
    let length = end - start;
    if length == 0 {
        return None;
    }
    let first = path.get_char(start);
    if length == 1 && first == '.' {
        assert(segment =~= seq!['.']);
        return None;
    }
    if length == 2 && first == '.' && path.get_char(start + 1) == '.' {
        assert(segment =~= seq!['.', '.']);
        return None;
    }
    proof {
        assert(segment[0] == first);
        if length == 2 {
            assert(segment[1] == path@[start + 1]);
        }
        assert(segment != seq!['.']);
        assert(segment != seq!['.', '.']);
    }
    Some(path.substring_char(start, end).to_owned())
}

/// Finds the name under which a path stands in the map.
pub fn basename_of(path: &str) -> (name: String)
    ensures
        name@ == basename(path@),
{
    match file_name_of(path) {
        Some(name) => name,
        None => String::new(),
    }
}

/// Writes the map line of the rectangle `(x, y, width, height)` under the
/// name `filename`.
pub fn map_line_string(filename: &str, x: u32, y: u32, width: u32, height: u32) -> (line: String)
    ensures
        line@ == map_line(
            Placement {
                filename: filename@,
                x: x as int,
                y: y as int,
                width: width as int,
                height: height as int,
            },
        ),
{
    proof {
        reveal_strlit(":");
        reveal_strlit(",");
        reveal_strlit("-");
        reveal_strlit("\n");
        assert(":"@ =~= seq![':']);
        assert(","@ =~= seq![',']);
        assert("-"@ =~= seq!['-']);
        assert("\n"@ =~= seq!['\n']);
    }
    let mut line = basename_of(filename);
    line.append(":");
    line.append(decimal_string(x as u64).as_str());
    line.append(",");
    line.append(decimal_string(y as u64).as_str());
    line.append("-");
    line.append(decimal_string(x as u64 + width as u64).as_str());
    line.append(",");
    line.append(decimal_string(y as u64 + height as u64).as_str());
    line.append("\n");
    line
}

} // verus!

use vstd::prelude::*;
use vstd::string::StringExecFns;
use crate::time::CivilTime;

verus! {

/// The decimal digit character for `d` in `0..10`.
pub open spec fn digit_char(d: int) -> char {
    seq!['0', '1', '2', '3', '4', '5', '6', '7', '8', '9'][d]
}

/// `n` in decimal, left-padded with zeros to at least `width` digits.
pub open spec fn padded(n: nat, width: nat) -> Seq<char>
    decreases n + width,
{
    if n < 10 && width <= 1 {
        seq![digit_char(n as int)]
    } else {
        padded(n / 10, if width > 0 { (width - 1) as nat } else { 0 }).push(digit_char((n % 10) as int))
    }
}

/// A year as the archive name writes it: four digits for years `0..=9999`,
/// else a sign followed by at least four digits.
pub open spec fn year_text(y: int) -> Seq<char> {
    if 0 <= y <= 9999 {
        padded(y as nat, 4)
    } else if y > 9999 {
        seq!['+'] + padded(y as nat, 4)
    } else {
        seq!['-'] + padded((-y) as nat, 4)
    }
}

/// `YYYYMMDD-HHMMSS` for a wall-clock reading.
pub open spec fn stamp_text(c: CivilTime) -> Seq<char> {
    year_text(c.year as int) + padded(c.month as nat, 2) + padded(c.day as nat, 2) + seq!['-']
        + padded(c.hour as nat, 2) + padded(c.minute as nat, 2) + padded(c.second as nat, 2)
}

/// The archive file name for a batch whose oldest member was created at the
/// wall-clock reading `c`: `submissions-YYYYMMDD-HHMMSS.tar.xz`.
pub open spec fn archive_name_spec(c: CivilTime) -> Seq<char> {
    "submissions-"@ + stamp_text(c) + ".tar.xz"@
}

fn digit_str(d: u32) -> (r: &'static str)
    requires
        d < 10,
    ensures
        r@ == seq![digit_char(d as int)],
{
    proof {
        reveal_strlit("0");
        reveal_strlit("1");
        reveal_strlit("2");
        reveal_strlit("3");
        reveal_strlit("4");
        reveal_strlit("5");
        reveal_strlit("6");
        reveal_strlit("7");
        reveal_strlit("8");
        reveal_strlit("9");
    }
    match d {
        0 => "0",
        1 => "1",
        2 => "2",
        3 => "3",
        4 => "4",
        5 => "5",
        6 => "6",
        7 => "7",
        8 => "8",
        _ => "9",
    }
}

fn push_padded(out: &mut String, n: u32, width: u32)
    ensures
        final(out)@ == old(out)@ + padded(n as nat, width as nat),
    decreases n + width,
{
    if !(n < 10 && width <= 1) {
        let w: u32 = if width > 0 { width - 1 } else { 0 };
        push_padded(out, n / 10, w);
    }
    out.append(digit_str(n % 10));
    proof {
        assert(out@ =~= old(out)@ + padded(n as nat, width as nat));
    }
}

fn push_year(out: &mut String, y: i32)
    ensures
        final(out)@ == old(out)@ + year_text(y as int),
{
    if 0 <= y && y <= 9999 {
        push_padded(out, y as u32, 4);
    } else if y > 9999 {
        proof {
            reveal_strlit("+");
        }
        out.append("+");
        push_padded(out, y as u32, 4);
        assert(out@ =~= old(out)@ + year_text(y as int));
    } else {
        proof {
            reveal_strlit("-");
        }
        out.append("-");
        let a: u32 = if y == i32::MIN {
            2147483648u32
        } else {
            (-y) as u32
        };
        push_padded(out, a, 4);
        assert(out@ =~= old(out)@ + year_text(y as int));
    }
}

/// The archive file name for a batch whose oldest member was created at the
/// wall-clock reading `c`.
pub fn archive_name(c: CivilTime) -> (r: String)
    ensures
        r@ == archive_name_spec(c),
{
    let mut out = String::from_str("submissions-");
    push_year(&mut out, c.year);
    push_padded(&mut out, c.month, 2);
    push_padded(&mut out, c.day, 2);
    proof {
        reveal_strlit("-");
    }
    out.append("-");
    push_padded(&mut out, c.hour, 2);
    push_padded(&mut out, c.minute, 2);
    push_padded(&mut out, c.second, 2);
    out.append(".tar.xz");
    assert(out@ =~= archive_name_spec(c));
    out
}

} // verus!

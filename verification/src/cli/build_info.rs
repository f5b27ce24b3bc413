//! What a build says of itself.
use crate::script::date::civil_from_days;
use crate::text::{chars_of, join2, nat_text, same, u64_text};
use vstd::prelude::*;

verus! {

broadcast use vstd::string::group_string_axioms;

/// So many zeros.
pub open spec fn zeros(n: nat) -> Seq<char> {
    Seq::new(n, |i: int| '0')
}

/// A number in decimal digits, at least `width` of them.
pub open spec fn padded(n: nat, width: nat) -> Seq<char> {
    let digits = nat_text(n);
    if digits.len() < width {
        zeros((width - digits.len()) as nat) + digits
    } else {
        digits
    }
}

/// The date and time in UTC of seconds since 1970, by RFC 3339.
pub open spec fn utc_text(secs: nat) -> Seq<char> {
    let (y, m, d) = civil_from_days((secs / 86400) as int);
    let t = secs % 86400;
    padded(y as nat, 4) + "-"@ + padded(m as nat, 2) + "-"@ + padded(d as nat, 2) + "T"@ + padded(
        t / 3600,
        2,
    ) + ":"@ + padded((t % 3600) / 60, 2) + ":"@ + padded(t % 60, 2) + "Z"@
}

fn push_padded(out: &mut String, n: u64, width: usize)
    ensures
        final(out)@ == old(out)@ + padded(n as nat, width as nat),
{
    let ghost before = out@;
    let digits = u64_text(n);
    let len: usize = chars_of(&digits).len();
    let mut i: usize = len;
    while i < width
        invariant
            len <= i,
            len < width ==> i <= width,
            len >= width ==> i == len,
            len == nat_text(n as nat).len(),
            out@ =~= before + zeros((i - len) as nat),
        decreases width - i,
    {
        out.push('0');
        i += 1;
    }
    out.append(&digits);
    assert(out@ =~= before + padded(n as nat, width as nat));
}

/// The date, counted from 1970, of a day: year, month and day.
fn date_of(days: u64) -> (r: (u64, u64, u64))
    requires
        days <= u64::MAX / 86400,
    ensures
        (r.0 as int, r.1 as int, r.2 as int) == civil_from_days(days as int),
{
    let z: u64 = days + 719468;
    let era: u64 = z / 146097;
    let doe: u64 = z % 146097;
    assert(doe / 1460 <= 100 && doe / 36524 <= 4 && doe / 146096 <= 1);
    let yoe: u64 = (doe - doe / 1460 + doe / 36524 - doe / 146096) / 365;
    assert(yoe <= 399);
    let doy: u64 = doe - (365 * yoe + yoe / 4 - yoe / 100);
    assert(doy <= 365);
    let mp: u64 = (5 * doy + 2) / 153;
    let d: u64 = doy - (153 * mp + 2) / 5 + 1;
    let m: u64 = if mp < 10 {
        mp + 3
    } else {
        mp - 9
    };
    let y: u64 = yoe + era * 400;
    if m <= 2 {
        (y + 1, m, d)
    } else {
        (y, m, d)
    }
}

/// The date and time in UTC of seconds since 1970, by RFC 3339.
pub fn rfc3339_utc(secs: u64) -> (r: String)
    ensures
        r@ == utc_text(secs as nat),
{
    let rem: u64 = secs % 86400;
    let (y, m, d) = date_of(secs / 86400);
    let mut out = String::new();
    assert(out@ + padded(y as nat, 4) =~= padded(y as nat, 4));
    push_padded(&mut out, y, 4);
    out.append("-");
    push_padded(&mut out, m, 2);
    out.append("-");
    push_padded(&mut out, d, 2);
    out.append("T");
    push_padded(&mut out, rem / 3600, 2);
    out.append(":");
    push_padded(&mut out, (rem % 3600) / 60, 2);
    out.append(":");
    push_padded(&mut out, rem % 60, 2);
    out.append("Z");
    out
}

/// The commit that a build shows: the one it was made from, marked where the
/// tree differed from it, or `unknown`.
pub fn build_sha(commit: &Option<String>, dirty: bool) -> (r: String)
    ensures
        r@ == (match *commit {
            Some(s) => if dirty && s@ != "unknown"@ {
                s@ + "-dirty"@
            } else {
                s@
            },
            None => "unknown"@,
        }),
{
    match commit {
        Some(s) => if dirty && !same(s, "unknown") {
            join2(s, "-dirty")
        } else {
            s.clone()
        },
        None => "unknown".to_owned(),
    }
}

} // verus!

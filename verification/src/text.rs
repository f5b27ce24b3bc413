//! Text as sequences of characters: comparison, decimal numbers, trimming,
//! searching and splitting.
use vstd::prelude::*;

verus! {

broadcast use vstd::string::group_string_axioms;

/// `String::push`: appends one character.
pub assume_specification[ String::push ](s: &mut String, c: char)
    ensures
        final(s)@ == old(s)@.push(c),
;

/// `<str as PartialEq>::eq`: two texts are equal exactly if they hold the same
/// characters in the same order.
#[verifier::external_body]
pub(crate) fn same(a: &str, b: &str) -> (r: bool)
    ensures
        r == (a@ == b@),
{
    a == b
}

/// The characters of a text, one by one.
pub fn chars_of(s: &str) -> (r: Vec<char>)
    ensures
        r@ == s@,
{
    let mut out: Vec<char> = Vec::new();
    for c in it: s.chars()
        invariant
            out@ == s@.subrange(0, it.index()),
            it.seq() == s@,
    {
        assert(s@.subrange(0, it.index() + 1) =~= s@.subrange(0, it.index()).push(c));
        out.push(c);
    }
    assert(out@ =~= s@);
    out
}

/// The text made of the characters of `c` from `from` up to `to`.
pub fn string_of(c: &[char], from: usize, to: usize) -> (r: String)
    requires
        from <= to <= c@.len(),
    ensures
        r@ == c@.subrange(from as int, to as int),
{
    let mut out = String::new();
    let mut i: usize = from;
    while i < to
        invariant
            from <= i <= to <= c@.len(),
            out@ == c@.subrange(from as int, i as int),
        decreases to - i,
    {
        assert(c@.subrange(from as int, i + 1) =~= c@.subrange(from as int, i as int).push(
            c@[i as int],
        ));
        out.push(c[i]);
        i += 1;
    }
    out
}

/// Whether `c` is a decimal digit of ASCII.
pub open spec fn is_digit(c: char) -> bool {
    '0' <= c <= '9'
}

/// The value of a decimal digit.
pub open spec fn digit_value(c: char) -> int {
    c as int - '0' as int
}

/// Whether every character of `s` is a decimal digit.
pub open spec fn all_digits(s: Seq<char>) -> bool {
    forall|i: int| 0 <= i < s.len() ==> is_digit(#[trigger] s[i])
}

/// The number that a run of decimal digits denotes.
pub open spec fn digits_value(s: Seq<char>) -> nat
    decreases s.len(),
{
    if s.len() == 0 {
        0
    } else {
        (digits_value(s.drop_last()) * 10 + digit_value(s.last())) as nat
    }
}

/// A letter of ASCII.
pub open spec fn is_letter(c: char) -> bool {
    'a' <= c <= 'z' || 'A' <= c <= 'Z'
}

pub fn char_is_digit(c: char) -> (r: bool)
    ensures
        r == is_digit(c),
{
    '0' <= c && c <= '9'
}

pub fn char_is_letter(c: char) -> (r: bool)
    ensures
        r == is_letter(c),
{
    ('a' <= c && c <= 'z') || ('A' <= c && c <= 'Z')
}

/// The characters of Unicode's White_Space property.
pub open spec fn is_white(c: char) -> bool {
    let n = c as int;
    (9 <= n <= 13) || n == 0x20 || n == 0x85 || n == 0xa0 || n == 0x1680 || (0x2000 <= n <= 0x200a)
        || n == 0x2028 || n == 0x2029 || n == 0x202f || n == 0x205f || n == 0x3000
}

pub fn char_is_white(c: char) -> (r: bool)
    ensures
        r == is_white(c),
{
    let n: u32 = c as u32;
    (9 <= n && n <= 13) || n == 0x20 || n == 0x85 || n == 0xa0 || n == 0x1680 || (0x2000 <= n && n
        <= 0x200a) || n == 0x2028 || n == 0x2029 || n == 0x202f || n == 0x205f || n == 0x3000
}

/// Digits one after another denote ten times the first ones plus the last.
pub proof fn lemma_digits_push(s: Seq<char>, c: char)
    ensures
        digits_value(s.push(c)) == (digits_value(s) * 10 + digit_value(c)) as nat,
{
    assert(s.push(c).drop_last() =~= s);
}

/// The value of a run of digits from `from` up to `to`, if it fits.
pub fn digits_u64(c: &[char], from: usize, to: usize) -> (r: Option<u64>)
    requires
        from <= to <= c@.len(),
        all_digits(c@.subrange(from as int, to as int)),
    ensures
        match r {
            Some(n) => n == digits_value(c@.subrange(from as int, to as int)),
            None => digits_value(c@.subrange(from as int, to as int)) > u64::MAX,
        },
{
    let mut n: u64 = 0;
    let mut fits: bool = true;
    let mut i: usize = from;
    let ghost all = c@.subrange(from as int, to as int);
    while i < to
        invariant
            from <= i <= to <= c@.len(),
            all == c@.subrange(from as int, to as int),
            all_digits(all),
            fits ==> n == digits_value(c@.subrange(from as int, i as int)),
            !fits ==> digits_value(c@.subrange(from as int, i as int)) > u64::MAX,
        decreases to - i,
    {
        let ghost before = c@.subrange(from as int, i as int);
        proof {
            assert(all[i - from] == c@[i as int]);
            assert(c@.subrange(from as int, i + 1) =~= before.push(c@[i as int]));
            lemma_digits_push(before, c@[i as int]);
        }
        if fits {
            let d: u64 = (c[i] as u32 - 48) as u64;
            if n <= (u64::MAX - d) / 10 {
                n = n * 10 + d;
            } else {
                fits = false;
            }
        }
        i += 1;
    }
    if fits {
        Some(n)
    } else {
        None
    }
}

/// `a` followed by `b`.
pub fn join2(a: &str, b: &str) -> (r: String)
    ensures
        r@ == a@ + b@,
{
    let mut out = a.to_owned();
    out.append(b);
    out
}

/// `a`, `b` and `c` in a row.
pub fn join3(a: &str, b: &str, c: &str) -> (r: String)
    ensures
        r@ == a@ + b@ + c@,
{
    let mut out = a.to_owned();
    out.append(b);
    out.append(c);
    out
}

/// The decimal spelling of a natural number, without leading zeros.
pub open spec fn nat_text(n: nat) -> Seq<char>
    decreases n,
{
    if n < 10 {
        seq![digit_char(n as int)]
    } else {
        nat_text(n / 10).push(digit_char((n % 10) as int))
    }
}

/// The character of a digit from 0 to 9.
pub open spec fn digit_char(d: int) -> char {
    (d + '0' as int) as char
}

/// The decimal spelling of an integer.
pub open spec fn int_text(n: int) -> Seq<char> {
    if n < 0 {
        seq!['-'] + nat_text((-n) as nat)
    } else {
        nat_text(n as nat)
    }
}

fn digit_of(d: u64) -> (r: char)
    requires
        d < 10,
    ensures
        r == digit_char(d as int),
{
    ((d as u8) + 48u8) as char
}

fn push_nat(out: &mut String, n: u64)
    ensures
        final(out)@ == old(out)@ + nat_text(n as nat),
    decreases n,
{
    if n >= 10 {
        push_nat(out, n / 10);
    }
    out.push(digit_of(n % 10));
}

pub fn u64_text(n: u64) -> (r: String)
    ensures
        r@ == nat_text(n as nat),
{
    let mut out = String::new();
    push_nat(&mut out, n);
    assert(out@ =~= nat_text(n as nat));
    out
}

pub fn i64_text(n: i64) -> (r: String)
    ensures
        r@ == int_text(n as int),
{
    let mut out = String::new();
    if n < 0 {
        out.push('-');
        let m: u64 = if n == i64::MIN { 0x8000_0000_0000_0000u64 } else { (-n) as u64 };
        push_nat(&mut out, m);
        assert(out@ =~= seq!['-'] + nat_text(m as nat));
    } else {
        push_nat(&mut out, n as u64);
        assert(out@ =~= nat_text(n as nat));
    }
    out
}

/// Whether `p` stands in `s` at position `i`.
pub open spec fn occurs_at<T>(s: Seq<T>, p: Seq<T>, i: int) -> bool {
    0 <= i && i + p.len() <= s.len() && s.subrange(i, i + p.len()) == p
}

/// The first position at or behind `i` at which `p` stands in `s`.
pub open spec fn find_from<T>(s: Seq<T>, p: Seq<T>, i: int) -> Option<int>
    decreases s.len() - i,
{
    if i < 0 || i + p.len() > s.len() {
        None
    } else if occurs_at(s, p, i) {
        Some(i)
    } else if i >= s.len() {
        None
    } else {
        find_from(s, p, i + 1)
    }
}

pub proof fn lemma_find_from<T>(s: Seq<T>, p: Seq<T>, i: int)
    ensures
        match find_from(s, p, i) {
            Some(k) => i <= k && occurs_at(s, p, k) && forall|j: int|
                i <= j < k ==> !occurs_at(s, p, j),
            None => i >= 0 ==> forall|j: int| i <= j ==> !occurs_at(s, p, j),
        },
    decreases s.len() - i,
{
    if i >= 0 && i + p.len() <= s.len() && !occurs_at(s, p, i) && i < s.len() {
        lemma_find_from(s, p, i + 1);
    }
}

fn chars_at(s: &Vec<char>, p: &Vec<char>, i: usize) -> (r: bool)
    requires
        i + p@.len() <= s@.len(),
    ensures
        r == occurs_at(s@, p@, i as int),
{
    let mut k: usize = 0;
    while k < p.len()
        invariant
            k <= p@.len(),
            i + p@.len() <= s.len(),
            forall|j: int| 0 <= j < k ==> s@[i + j] == #[trigger] p@[j],
        decreases p@.len() - k,
    {
        if s[i + k] != p[k] {
            assert(s@.subrange(i as int, i + p@.len())[k as int] != p@[k as int]);
            return false;
        }
        k += 1;
    }
    assert(s@.subrange(i as int, i + p@.len()) =~= p@);
    true
}

/// The first position at or behind `from` at which `p` stands in `s`.
pub fn find_chars(s: &Vec<char>, p: &Vec<char>, from: usize) -> (r: Option<usize>)
    ensures
        match r {
            Some(k) => find_from(s@, p@, from as int) == Some(k as int) && from <= k && k + p@.len()
                <= s.len(),
            None => find_from(s@, p@, from as int) is None,
        },
{
    let mut i: usize = from;
    while i <= s.len() && p.len() <= s.len() - i
        invariant
            from <= i,
            find_from(s@, p@, from as int) == find_from(s@, p@, i as int),
        decreases s@.len() + 1 - i,
    {
        if chars_at(s, p, i) {
            return Some(i);
        }
        if i >= s.len() {
            return None;
        }
        i += 1;
    }
    None
}

/// The first position at which the bytes `p` stand in the bytes `s`.
pub fn find_bytes(s: &[u8], p: &[u8]) -> (r: Option<usize>)
    ensures
        match r {
            Some(k) => find_from(s@, p@, 0) == Some(k as int) && k + p@.len() <= s@.len(),
            None => find_from(s@, p@, 0) is None,
        },
{
    let mut i: usize = 0;
    while i <= s.len() && p.len() <= s.len() - i
        invariant
            find_from(s@, p@, 0) == find_from(s@, p@, i as int),
        decreases s@.len() + 1 - i,
    {
        let mut k: usize = 0;
        while k < p.len() && s[i + k] == p[k]
            invariant
                k <= p@.len(),
                i + p@.len() <= s.len(),
                forall|j: int| 0 <= j < k ==> s@[i + j] == #[trigger] p@[j],
            decreases p@.len() - k,
        {
            k += 1;
        }
        if k == p.len() {
            assert(s@.subrange(i as int, i + p@.len()) =~= p@);
            return Some(i);
        }
        assert(s@.subrange(i as int, i + p@.len())[k as int] != p@[k as int]);
        if i >= s.len() {
            return None;
        }
        i += 1;
    }
    None
}

/// The pieces of `s` between the occurrences of `p` found from `from` on,
/// where the current piece begins at `start`, behind the pieces `acc`. An
/// empty `p` occurs before and behind each character.
pub open spec fn split_from(
    s: Seq<char>,
    p: Seq<char>,
    start: int,
    from: int,
    acc: Seq<Seq<char>>,
) -> Seq<Seq<char>>
    decreases s.len() + 1 - from,
{
    proof {
        lemma_find_from(s, p, from);
    }
    match find_from(s, p, from) {
        None => acc.push(s.subrange(start, s.len() as int)),
        Some(i) => split_from(
            s,
            p,
            i + p.len(),
            if p.len() == 0 {
                i + 1
            } else {
                i + p.len()
            },
            acc.push(s.subrange(start, i)),
        ),
    }
}

/// The pieces of `s` between the occurrences of `p`.
pub open spec fn split_text(s: Seq<char>, p: Seq<char>) -> Seq<Seq<char>> {
    split_from(s, p, 0, 0, Seq::empty())
}

pub open spec fn texts_view(v: Seq<String>) -> Seq<Seq<char>> {
    v.map_values(|s: String| s@)
}

/// The pieces of `s` between the occurrences of `p`.
pub fn split(s: &str, p: &str) -> (r: Vec<String>)
    ensures
        texts_view(r@) == split_text(s@, p@),
        r@.len() >= 1,
{
    let c = chars_of(s);
    let pc = chars_of(p);
    let mut out: Vec<String> = Vec::new();
    let mut start: usize = 0;
    let mut from: usize = 0;
    assert(texts_view(out@) =~= Seq::<Seq<char>>::empty());
    loop
        invariant
            c@ == s@,
            pc@ == p@,
            start <= from <= start + 1,
            start <= c@.len(),
            split_text(s@, p@) == split_from(
                s@,
                p@,
                start as int,
                from as int,
                texts_view(out@),
            ),
        decreases c@.len() + 1 - from,
    {
        let ghost before = texts_view(out@);
        match find_chars(&c, &pc, from) {
            None => {
                let piece = string_of(c.as_slice(), start, c.len());
                let ghost v = piece@;
                out.push(piece);
                assert(texts_view(out@) =~= before.push(v));
                return out;
            },
            Some(i) => {
                let piece = string_of(c.as_slice(), start, i);
                let ghost v = piece@;
                out.push(piece);
                assert(texts_view(out@) =~= before.push(v));
                start = c.len() - (c.len() - i - pc.len());
                if pc.len() > 0 {
                    from = start;
                } else if i < c.len() {
                    from = i + 1;
                } else {
                    let ghost before = texts_view(out@);
                    let rest = string_of(c.as_slice(), i, i);
                    let ghost v = rest@;
                    out.push(rest);
                    assert(texts_view(out@) =~= before.push(v));
                    assert(find_from(s@, p@, i + 1) is None);
                    assert(split_from(s@, p@, i as int, i + 1, before) == before.push(
                        s@.subrange(i as int, s@.len() as int),
                    ));
                    return out;
                }
            },
        }
    }
}

/// `s` with each occurrence of `p` found from `from` on replaced by `to`; what
/// stands before `start` is done and is `acc`.
pub open spec fn replace_from(
    s: Seq<char>,
    p: Seq<char>,
    to: Seq<char>,
    start: int,
    from: int,
    acc: Seq<char>,
) -> Seq<char>
    decreases s.len() + 1 - from,
{
    proof {
        lemma_find_from(s, p, from);
    }
    match find_from(s, p, from) {
        None => acc + s.subrange(start, s.len() as int),
        Some(i) => replace_from(
            s,
            p,
            to,
            i + p.len(),
            if p.len() == 0 {
                i + 1
            } else {
                i + p.len()
            },
            acc + s.subrange(start, i) + to,
        ),
    }
}

/// `s` with each occurrence of `p` replaced by `to`.
pub open spec fn replace_text(s: Seq<char>, p: Seq<char>, to: Seq<char>) -> Seq<char> {
    replace_from(s, p, to, 0, 0, Seq::empty())
}

/// `s` with each occurrence of `p` replaced by `to`.
pub fn replace_all(s: &str, p: &str, to: &str) -> (r: String)
    ensures
        r@ == replace_text(s@, p@, to@),
{
    let c = chars_of(s);
    let pc = chars_of(p);
    let mut out = String::new();
    let mut start: usize = 0;
    let mut from: usize = 0;
    loop
        invariant
            c@ == s@,
            pc@ == p@,
            start <= from <= start + 1,
            start <= c@.len(),
            replace_text(s@, p@, to@) == replace_from(
                s@,
                p@,
                to@,
                start as int,
                from as int,
                out@,
            ),
        decreases c@.len() + 1 - from,
    {
        match find_chars(&c, &pc, from) {
            None => {
                out.append(&string_of(c.as_slice(), start, c.len()));
                return out;
            },
            Some(i) => {
                out.append(&string_of(c.as_slice(), start, i));
                out.append(to);
                start = c.len() - (c.len() - i - pc.len());
                if pc.len() > 0 {
                    from = start;
                } else if i < c.len() {
                    from = i + 1;
                } else {
                    assert(find_from(s@, p@, i + 1) is None);
                    assert(replace_from(s@, p@, to@, i as int, i + 1, out@) == out@ + s@.subrange(
                        i as int,
                        s@.len() as int,
                    ));
                    assert(out@ + s@.subrange(i as int, i as int) =~= out@);
                    return out;
                }
            },
        }
    }
}

/// Whether `p` occurs in `s`.
pub fn contains(s: &str, p: &str) -> (r: bool)
    ensures
        r == (find_from(s@, p@, 0) is Some),
{
    find_chars(&chars_of(s), &chars_of(p), 0).is_some()
}

/// Whether `s` begins with `p`.
pub fn starts_with(s: &str, p: &str) -> (r: bool)
    ensures
        r == p@.is_prefix_of(s@),
{
    let c = chars_of(s);
    let pc = chars_of(p);
    pc.len() <= c.len() && chars_at(&c, &pc, 0)
}

/// Whether `s` ends with `p`.
pub fn ends_with(s: &str, p: &str) -> (r: bool)
    ensures
        r == p@.is_suffix_of(s@),
{
    let c = chars_of(s);
    let pc = chars_of(p);
    pc.len() <= c.len() && chars_at(&c, &pc, c.len() - pc.len())
}

/// The first position at or behind `i` that holds no white space, or the end.
pub open spec fn white_end(s: Seq<char>, i: int) -> int
    decreases s.len() - i,
{
    if i >= s.len() || !is_white(s[i]) {
        i
    } else {
        white_end(s, i + 1)
    }
}

/// The position behind the last character before `j` that is no white space,
/// at least `low`.
pub open spec fn white_start(s: Seq<char>, low: int, j: int) -> int
    decreases j - low,
{
    if j <= low || !is_white(s[j - 1]) {
        j
    } else {
        white_start(s, low, j - 1)
    }
}

/// The text without white space at both ends.
pub open spec fn trim_text(s: Seq<char>) -> Seq<char> {
    let a = white_end(s, 0);
    s.subrange(a, white_start(s, a, s.len() as int))
}

/// The text without white space at its end.
pub open spec fn trim_end_text(s: Seq<char>) -> Seq<char> {
    s.subrange(0, white_start(s, 0, s.len() as int))
}

fn scan_white(c: &Vec<char>) -> (r: usize)
    ensures
        r == white_end(c@, 0),
        r <= c@.len(),
{
    let mut i: usize = 0;
    while i < c.len() && char_is_white(c[i])
        invariant
            i <= c@.len(),
            white_end(c@, 0) == white_end(c@, i as int),
        decreases c@.len() - i,
    {
        i += 1;
    }
    i
}

fn scan_white_back(c: &Vec<char>, low: usize) -> (r: usize)
    requires
        low <= c@.len(),
    ensures
        r == white_start(c@, low as int, c@.len() as int),
        low <= r <= c@.len(),
{
    let mut j: usize = c.len();
    while j > low && char_is_white(c[j - 1])
        invariant
            low <= j <= c@.len(),
            white_start(c@, low as int, c@.len() as int) == white_start(c@, low as int, j as int),
        decreases j,
    {
        j -= 1;
    }
    j
}

/// The text without white space at both ends.
pub fn trim(s: &str) -> (r: String)
    ensures
        r@ == trim_text(s@),
{
    let c = chars_of(s);
    let a = scan_white(&c);
    let b = scan_white_back(&c, a);
    string_of(c.as_slice(), a, b)
}

/// The text without white space at its end.
pub fn trim_end(s: &str) -> (r: String)
    ensures
        r@ == trim_end_text(s@),
{
    let c = chars_of(s);
    let b = scan_white_back(&c, 0);
    string_of(c.as_slice(), 0, b)
}

/// The integer that a text spells: digits, with a sign before them or not.
pub open spec fn int_of_text(s: Seq<char>) -> Option<int> {
    if s.len() == 0 {
        None
    } else if s[0] == '-' || s[0] == '+' {
        let d = s.subrange(1, s.len() as int);
        if d.len() == 0 || !all_digits(d) {
            None
        } else if s[0] == '-' {
            Some(-(digits_value(d) as int))
        } else {
            Some(digits_value(d) as int)
        }
    } else if all_digits(s) {
        Some(digits_value(s) as int)
    } else {
        None
    }
}

/// The `i64` that a text spells, if it spells one.
pub open spec fn i64_of_text(s: Seq<char>) -> Option<i64> {
    match int_of_text(s) {
        Some(n) => if i64::MIN <= n <= i64::MAX {
            Some(n as i64)
        } else {
            None
        },
        None => None,
    }
}

pub proof fn lemma_nat_text(n: nat)
    ensures
        nat_text(n).len() > 0,
        all_digits(nat_text(n)),
        digits_value(nat_text(n)) == n,
    decreases n,
{
    if n < 10 {
        let s = seq![digit_char(n as int)];
        assert(s =~= Seq::<char>::empty().push(digit_char(n as int)));
        lemma_digits_push(Seq::empty(), digit_char(n as int));
    } else {
        lemma_nat_text(n / 10);
        lemma_digits_push(nat_text(n / 10), digit_char((n % 10) as int));
    }
}

/// An integer is read back from its decimal spelling, which holds nothing but
/// digits behind a sign.
pub proof fn int_text_reads_back(n: int)
    ensures
        int_of_text(int_text(n)) == Some(n),
        int_text(n).len() > 0,
        int_text(n)[0] == '-' || is_digit(int_text(n)[0]),
        all_digits(int_text(n).skip(1)),
{
    if n < 0 {
        let d = nat_text((-n) as nat);
        lemma_nat_text((-n) as nat);
        assert(int_text(n).subrange(1, int_text(n).len() as int) =~= d);
        assert(int_text(n).skip(1) =~= d);
    } else {
        lemma_nat_text(n as nat);
        let d = nat_text(n as nat);
        assert(is_digit(d[0]));
        assert forall|i: int| 0 <= i < d.skip(1).len() implies is_digit(#[trigger] d.skip(1)[i]) by {
            assert(d.skip(1)[i] == d[i + 1]);
        }
    }
}

fn digits_only(c: &Vec<char>, from: usize) -> (r: bool)
    requires
        from <= c@.len(),
    ensures
        r == all_digits(c@.subrange(from as int, c@.len() as int)),
{
    let mut i: usize = from;
    let ghost d = c@.subrange(from as int, c@.len() as int);
    while i < c.len()
        invariant
            from <= i <= c@.len(),
            d == c@.subrange(from as int, c@.len() as int),
            forall|k: int| 0 <= k < i - from ==> is_digit(#[trigger] d[k]),
        decreases c@.len() - i,
    {
        assert(d[i - from] == c@[i as int]);
        if !char_is_digit(c[i]) {
            return false;
        }
        i += 1;
    }
    true
}

/// The `i64` that a text spells, if it spells one.
pub fn parse_i64(s: &str) -> (r: Option<i64>)
    ensures
        r == i64_of_text(s@),
{
    let c = chars_of(s);
    if c.len() == 0 {
        return None;
    }
    let signed = c[0] == '-' || c[0] == '+';
    let from: usize = if signed {
        1
    } else {
        0
    };
    assert(c@.subrange(0, c@.len() as int) =~= c@);
    if from == c.len() || !digits_only(&c, from) {
        return None;
    }
    match digits_u64(c.as_slice(), from, c.len()) {
        None => None,
        Some(n) => {
            if c[0] == '-' {
                if n < 0x8000_0000_0000_0000 {
                    Some(-(n as i64))
                } else if n == 0x8000_0000_0000_0000 {
                    Some(i64::MIN)
                } else {
                    None
                }
            } else if n <= 0x7fff_ffff_ffff_ffff {
                Some(n as i64)
            } else {
                None
            }
        },
    }
}

/// A letter of ASCII in lower case; any other character as it is.
pub open spec fn ascii_lower(c: char) -> char {
    if 'A' <= c <= 'Z' {
        (c as int + 32) as char
    } else {
        c
    }
}

/// The upper-case letter of an ASCII letter; any other character itself.
pub open spec fn ascii_upper(c: char) -> char {
    if 'a' <= c <= 'z' {
        (c as int - 32) as char
    } else {
        c
    }
}

/// A text of ASCII characters alone.
pub open spec fn is_ascii(s: Seq<char>) -> bool {
    forall|i: int| 0 <= i < s.len() ==> #[trigger] s[i] <= '\u{7f}'
}

pub fn lower_char(c: char) -> (r: char)
    ensures
        r == ascii_lower(c),
{
    if 'A' <= c && c <= 'Z' {
        ((c as u8) + 32) as char
    } else {
        c
    }
}

/// Whether two texts differ at most in the case of letters of ASCII.
pub open spec fn same_ignoring_case(a: Seq<char>, b: Seq<char>) -> bool {
    a.map_values(|c: char| ascii_lower(c)) == b.map_values(|c: char| ascii_lower(c))
}

pub fn eq_ignore_case(a: &str, b: &str) -> (r: bool)
    ensures
        r == same_ignoring_case(a@, b@),
{
    let x = chars_of(a);
    let y = chars_of(b);
    let ghost p = a@.map_values(|c: char| ascii_lower(c));
    let ghost q = b@.map_values(|c: char| ascii_lower(c));
    if x.len() != y.len() {
        assert(p.len() != q.len());
        return false;
    }
    let mut i: usize = 0;
    while i < x.len()
        invariant
            i <= x@.len() == y@.len(),
            x@ == a@,
            y@ == b@,
            p == a@.map_values(|c: char| ascii_lower(c)),
            q == b@.map_values(|c: char| ascii_lower(c)),
            forall|k: int| 0 <= k < i ==> #[trigger] p[k] == q[k],
        decreases x@.len() - i,
    {
        if lower_char(x[i]) != lower_char(y[i]) {
            assert(p[i as int] != q[i as int]);
            return false;
        }
        i += 1;
    }
    assert(p =~= q);
    true
}

/// The text in upper case, by Unicode's rules.
pub uninterp spec fn upper_text(s: Seq<char>) -> Seq<char>;

/// `str::to_uppercase`, a function of the text alone, which [`upper_text`]
/// names. Stated of it besides: it takes the ASCII letters of a text of ASCII
/// characters to upper case, one by one.
#[verifier::external_body]
pub(crate) fn to_upper(s: &str) -> (r: String)
    ensures
        r@ == upper_text(s@),
        is_ascii(s@) ==> r@ == s@.map_values(|c: char| ascii_upper(c)),
{
    s.to_uppercase()
}

/// The text in lower case, by Unicode's rules.
pub uninterp spec fn lower_text(s: Seq<char>) -> Seq<char>;

/// `str::to_lowercase`, a function of the text alone, which [`lower_text`]
/// names. Stated of it besides: it takes the ASCII letters of a text of ASCII
/// characters to lower case, one by one.
#[verifier::external_body]
pub(crate) fn to_lower(s: &str) -> (r: String)
    ensures
        r@ == lower_text(s@),
        is_ascii(s@) ==> r@ == s@.map_values(|c: char| ascii_lower(c)),
{
    s.to_lowercase()
}

/// The first position at or behind `i` of white space, or the end.
pub open spec fn dark_end(s: Seq<char>, i: int) -> int
    decreases s.len() - i,
{
    if i >= s.len() || is_white(s[i]) {
        i
    } else {
        dark_end(s, i + 1)
    }
}

pub proof fn lemma_word(s: Seq<char>, i: int)
    ensures
        i <= white_end(s, i),
        i <= dark_end(s, i),
        i <= s.len() ==> white_end(s, i) <= s.len() && dark_end(s, i) <= s.len(),
    decreases s.len() - i,
{
    if i < s.len() {
        lemma_word(s, i + 1);
    }
}

/// The words of a text from `i` on, between white space, behind `acc`.
pub open spec fn words_from(s: Seq<char>, i: int, acc: Seq<Seq<char>>) -> Seq<Seq<char>>
    decreases s.len() - i,
{
    proof {
        lemma_word(s, i);
        lemma_word(s, white_end(s, i) + 1);
    }
    let a = white_end(s, i);
    if a < 0 || a >= s.len() {
        acc
    } else {
        let b = dark_end(s, a + 1);
        words_from(s, b, acc.push(s.subrange(a, b)))
    }
}

/// The words of a text, between white space.
pub fn words(s: &str) -> (r: Vec<String>)
    ensures
        texts_view(r@) == words_from(s@, 0, Seq::empty()),
{
    let c = chars_of(s);
    let mut out: Vec<String> = Vec::new();
    let mut i: usize = 0;
    assert(texts_view(out@) =~= Seq::<Seq<char>>::empty());
    loop
        invariant
            i <= c@.len(),
            c@ == s@,
            words_from(s@, 0, Seq::empty()) == words_from(s@, i as int, texts_view(out@)),
        decreases c@.len() - i,
    {
        let mut a: usize = i;
        while a < c.len() && char_is_white(c[a])
            invariant
                i <= a <= c@.len(),
                white_end(c@, i as int) == white_end(c@, a as int),
            decreases c@.len() - a,
        {
            a += 1;
        }
        if a >= c.len() {
            return out;
        }
        let mut b: usize = a + 1;
        while b < c.len() && !char_is_white(c[b])
            invariant
                a < b <= c@.len(),
                dark_end(c@, a + 1) == dark_end(c@, b as int),
            decreases c@.len() - b,
        {
            b += 1;
        }
        let w = string_of(c.as_slice(), a, b);
        let ghost before = texts_view(out@);
        out.push(w);
        assert(texts_view(out@) =~= before.push(w@));
        i = b;
    }
}

/// A text without one carriage return at its end.
pub open spec fn without_return(s: Seq<char>) -> Seq<char> {
    if s.len() > 0 && s.last() == '\r' {
        s.drop_last()
    } else {
        s
    }
}

/// The lines of a text from `i` on, behind `acc`: a line feed, or a carriage
/// return and a line feed, ends a line, and behind the last one there is none.
pub open spec fn lines_from(s: Seq<char>, i: int, acc: Seq<Seq<char>>) -> Seq<Seq<char>>
    decreases s.len() - i,
{
    proof {
        reveal_strlit("\n");
        lemma_find_from(s, "\n"@, i);
    }
    if i < 0 || i >= s.len() {
        acc
    } else {
        match find_from(s, "\n"@, i) {
            None => acc.push(s.subrange(i, s.len() as int)),
            Some(k) => lines_from(s, k + 1, acc.push(without_return(s.subrange(i, k)))),
        }
    }
}

/// The lines of a text.
pub fn lines(s: &str) -> (r: Vec<String>)
    ensures
        texts_view(r@) == lines_from(s@, 0, Seq::empty()),
{
    proof {
        reveal_strlit("\n");
    }
    let c = chars_of(s);
    let feed = chars_of("\n");
    let mut out: Vec<String> = Vec::new();
    let mut i: usize = 0;
    assert(texts_view(out@) =~= Seq::<Seq<char>>::empty());
    while i < c.len()
        invariant
            i <= c@.len(),
            c@ == s@,
            feed@ == "\n"@,
            "\n"@.len() == 1,
            lines_from(s@, 0, Seq::empty()) == lines_from(s@, i as int, texts_view(out@)),
        decreases c@.len() - i,
    {
        let ghost before = texts_view(out@);
        match find_chars(&c, &feed, i) {
            None => {
                let w = string_of(c.as_slice(), i, c.len());
                out.push(w);
                assert(texts_view(out@) =~= before.push(w@));
                return out;
            },
            Some(k) => {
                let end = if k > i && c[k - 1] == '\r' {
                    k - 1
                } else {
                    k
                };
                let w = string_of(c.as_slice(), i, end);
                assert(w@ =~= without_return(s@.subrange(i as int, k as int)));
                out.push(w);
                assert(texts_view(out@) =~= before.push(w@));
                i = k + 1;
            },
        }
    }
    out
}

} // verus!

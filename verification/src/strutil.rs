//! Small verified text helpers: rendering a number in decimal, reading a
//! number out of text the way the standard parser does, and recognizing
//! `HH:MM` clock times.

use vstd::prelude::*;

verus! {

/// The character for one decimal digit.
pub open spec fn digit_char(d: int) -> char {
    if d == 0 {
        '0'
    } else if d == 1 {
        '1'
    } else if d == 2 {
        '2'
    } else if d == 3 {
        '3'
    } else if d == 4 {
        '4'
    } else if d == 5 {
        '5'
    } else if d == 6 {
        '6'
    } else if d == 7 {
        '7'
    } else if d == 8 {
        '8'
    } else {
        '9'
    }
}

/// The decimal rendering of a number, most significant digit first.
pub open spec fn spec_dec(n: nat) -> Seq<char>
    decreases n,
{
    if n < 10 {
        seq![digit_char(n as int)]
    } else {
        spec_dec(n / 10).push(digit_char((n % 10) as int))
    }
}

fn digit_str(d: u64) -> (r: &'static str)
    requires
        d < 10,
    ensures
        r@ == seq![digit_char(d as int)],
{
    let r: &'static str = match d {
        0 => "0",
        1 => "1",
        2 => "2",
        3 => "3",
        4 => "4",
        5 => "5",
        6 => "6",
        7 => "7",
        8 => "8",
        _ => "9",
    };
    proof {
        reveal_strlit("0");
        reveal_strlit("1");
        reveal_strlit("2");
        reveal_strlit("3");
        reveal_strlit("4");
        reveal_strlit("5");
        reveal_strlit("6");
        reveal_strlit("7");
        reveal_strlit("8");
        reveal_strlit("9");
        assert(r@ =~= seq![digit_char(d as int)]);
    }
    r
}

/// Renders a number in decimal.
pub fn u64_to_dec(n: u64) -> (r: String)
    ensures
        r@ == spec_dec(n as nat),
    decreases n,
{
    if n < 10 {
        String::from_str(digit_str(n))
    } else {
        let mut s = u64_to_dec(n / 10);
        s.append(digit_str(n % 10));
        proof {
            assert(s@ =~= spec_dec(n as nat));
        }
        s
    }
}

/// Whether a character is a decimal digit.
pub open spec fn is_dec_digit(c: char) -> bool {
    48 <= c as int <= 57
}

/// The numeric value of a digit character.
pub open spec fn digit_val(c: char) -> int {
    c as int - 48
}

/// Whether every character of the text is a decimal digit.
pub open spec fn all_digits(s: Seq<char>) -> bool {
    forall|i: int| 0 <= i < s.len() ==> is_dec_digit(s[i])
}

/// The value of a digit string, most significant digit first.
pub open spec fn digits_val(s: Seq<char>) -> int
    decreases s.len(),
{
    if s.len() == 0 {
        0
    } else {
        digits_val(s.drop_last()) * 10 + digit_val(s.last())
    }
}

proof fn lemma_digits_val_nonneg(s: Seq<char>)
    requires
        all_digits(s),
    ensures
        digits_val(s) >= 0,
    decreases s.len(),
{
    if s.len() > 0 {
        assert(all_digits(s.drop_last()));
        lemma_digits_val_nonneg(s.drop_last());
    }
}

/// A digit string is worth at least any of its prefixes.
proof fn lemma_digits_val_prefix(s: Seq<char>, k: int)
    requires
        all_digits(s),
        0 <= k <= s.len(),
    ensures
        digits_val(s) >= digits_val(s.subrange(0, k)),
    decreases s.len() - k,
{
    if k == s.len() {
        assert(s.subrange(0, k) =~= s);
    } else {
        lemma_digits_val_prefix(s, k + 1);
        let p1 = s.subrange(0, k + 1);
        let p0 = s.subrange(0, k);
        assert(p1.drop_last() =~= p0);
        assert(all_digits(p0));
        lemma_digits_val_nonneg(p0);
        assert(digits_val(p1) == digits_val(p0) * 10 + digit_val(p1.last()));
        assert(digit_val(p1.last()) >= 0);
        assert(digits_val(p1) >= digits_val(p0));
    }
}

/// What the standard parser makes of the text as an unsigned 32-bit
/// number: an optional leading plus sign, then one or more digits, and a
/// value that fits.
pub open spec fn spec_parse_u32(s: Seq<char>) -> Option<u32> {
    let body = if s.len() > 0 && s[0] == '+' {
        s.subrange(1, s.len() as int)
    } else {
        s
    };
    if body.len() == 0 || !all_digits(body) {
        None
    } else if digits_val(body) > u32::MAX {
        None
    } else {
        Some(digits_val(body) as u32)
    }
}

/// Reads an unsigned 32-bit number out of text, accepting exactly what
/// the standard parser accepts.
pub fn parse_u32(s: &str) -> (r: Option<u32>)
    ensures
        r == spec_parse_u32(s@),
{
    let n: usize = s.unicode_len();
    let mut i: usize = 0;
    if n > 0 && s.get_char(0) == '+' {
        i = 1;
    }
    let ghost body = s@.subrange(i as int, n as int);
    proof {
        assert(s@.subrange(0, n as int) =~= s@);
    }
    if i == n {
        return None;
    }
    let mut acc: u64 = 0;
    let mut j: usize = i;
    while j < n
        invariant
            0 <= i <= j <= n,
            n == s@.len(),
            i < n,
            (s@.len() > 0 && s@[0] == '+') ==> i == 1,
            !(s@.len() > 0 && s@[0] == '+') ==> i == 0,
            body == s@.subrange(i as int, n as int),
            body == (if s@.len() > 0 && s@[0] == '+' {
                s@.subrange(1, s@.len() as int)
            } else {
                s@
            }),
            all_digits(s@.subrange(i as int, j as int)),
            acc == digits_val(s@.subrange(i as int, j as int)),
            acc <= u32::MAX,
        decreases n - j,
    {
        let c = s.get_char(j);
        let d: u32 = c as u32;
        let ghost pre = s@.subrange(i as int, j as int);
        let ghost cur = s@.subrange(i as int, j as int + 1);
        proof {
            assert(cur.drop_last() =~= pre);
            assert(cur.last() == s@[j as int]);
        }
        if d < 48 || d > 57 {
            proof {
                assert(body[j - i] == s@[j as int]);
                assert(!is_dec_digit(body[j - i]));
            }
            return None;
        }
        let acc2: u64 = acc * 10 + (d - 48) as u64;
        proof {
            assert(digits_val(cur) == digits_val(pre) * 10 + digit_val(cur.last()));
            assert(acc2 == digits_val(cur));
        }
        if acc2 > u32::MAX as u64 {
            proof {
                if all_digits(body) {
                    assert(cur =~= body.subrange(0, j as int + 1 - i));
                    lemma_digits_val_prefix(body, j as int + 1 - i);
                }
            }
            return None;
        }
        acc = acc2;
        j = j + 1;
    }
    proof {
        assert(s@.subrange(i as int, n as int) =~= body);
    }
    Some(acc as u32)
}

/// Whether one part of a clock time reads as a number below the bound.
pub open spec fn spec_part_below(p: Seq<char>, bound: u32) -> bool {
    match spec_parse_u32(p) {
        Some(v) => v < bound,
        None => false,
    }
}

/// Whether the text is a clock time `HH:MM`: a single colon, an hour
/// below 24 before it and a minute below 60 after it.
pub open spec fn spec_valid_time(s: Seq<char>) -> bool {
    exists|i: int|
        0 <= i < s.len() && #[trigger] s[i] == ':' && (forall|j: int|
            0 <= j < s.len() && j != i ==> s[j] != ':') && spec_part_below(s.subrange(0, i), 24)
            && spec_part_below(s.subrange(i + 1, s.len() as int), 60)
}

/// Checks whether the text is a clock time `HH:MM`.
pub fn check_time_format(s: &str) -> (r: bool)
    ensures
        r == spec_valid_time(s@),
{
    let n: usize = s.unicode_len();
    let mut first: Option<usize> = None;
    let mut second: Option<usize> = None;
    let mut i: usize = 0;
    while i < n
        invariant
            0 <= i <= n,
            n == s@.len(),
            match first {
                Some(p) => p < i && s@[p as int] == ':' && (forall|j: int|
                    0 <= j < p ==> s@[j] != ':'),
                None => forall|j: int| 0 <= j < i ==> s@[j] != ':',
            },
            match second {
                Some(q) => first matches Some(p) && p < q < i && s@[q as int] == ':',
                None => first matches Some(p) ==> (forall|j: int| p < j < i ==> s@[j] != ':'),
            },
        decreases n - i,
    {
        if s.get_char(i) == ':' {
            match first {
                None => { first = Some(i); },
                Some(_) => {
                    if second.is_none() {
                        second = Some(i);
                    }
                },
            }
        }
        i = i + 1;
    }
    match (first, second) {
        (Some(p), None) => {
            let hour_part = s.substring_char(0, p);
            let minute_part = s.substring_char(p + 1, n);
            let hour_ok = match parse_u32(hour_part) {
                Some(h) => h < 24,
                None => false,
            };
            let minute_ok = match parse_u32(minute_part) {
                Some(m) => m < 60,
                None => false,
            };
            let r = hour_ok && minute_ok;
            proof {
                if r {
                    assert(spec_valid_time(s@)) by {
                        assert(s@[p as int] == ':');
                    }
                } else {
                    assert(!spec_valid_time(s@)) by {
                        if exists|ii: int|
                            0 <= ii < s@.len() && #[trigger] s@[ii] == ':' && (forall|j: int|
                                0 <= j < s@.len() && j != ii ==> s@[j] != ':') && spec_part_below(
                                s@.subrange(0, ii),
                                24,
                            ) && spec_part_below(s@.subrange(ii + 1, s@.len() as int), 60) {
                            let ii = choose|ii: int|
                                0 <= ii < s@.len() && #[trigger] s@[ii] == ':' && (forall|j: int|
                                    0 <= j < s@.len() && j != ii ==> s@[j] != ':')
                                    && spec_part_below(s@.subrange(0, ii), 24) && spec_part_below(
                                    s@.subrange(ii + 1, s@.len() as int),
                                    60,
                                );
                            assert(ii == p);
                        }
                    }
                }
            }
            r
        },
        (None, _) => {
            proof {
                assert(!spec_valid_time(s@));
            }
            false
        },
        (Some(p), Some(q)) => {
            proof {
                assert(!spec_valid_time(s@)) by {
                    assert(forall|ii: int|
                        0 <= ii < s@.len() && #[trigger] s@[ii] == ':' && ii != p ==> !(forall|
                            j: int,
                        | 0 <= j < s@.len() && j != ii ==> s@[j] != ':')) by {
                        assert(s@[p as int] == ':');
                    }
                    assert(s@[q as int] == ':');
                }
            }
            false
        },
    }
}

} // verus!

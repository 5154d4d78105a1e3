//! Character-sequence helpers: decimal digits, searching and slicing.

use vstd::prelude::*;

verus! {

/// An ASCII decimal digit.
pub open spec fn is_digit(c: char) -> bool {
    '0' <= c && c <= '9'
}

/// The numeric value of a digit character.
pub open spec fn digit_val(c: char) -> nat {
    (c as int - '0' as int) as nat
}

/// Every character of `s` is a decimal digit.
pub open spec fn all_digits(s: Seq<char>) -> bool {
    forall|i: int| 0 <= i < s.len() ==> is_digit(#[trigger] s[i])
}

/// The value of a string of decimal digits, most significant first.
pub open spec fn digits_value(s: Seq<char>) -> nat
    decreases s.len(),
{
    if s.len() == 0 {
        0
    } else {
        digits_value(s.drop_last()) * 10 + digit_val(s.last())
    }
}

/// The digit character for `d < 10`.
pub open spec fn digit_char(d: nat) -> char {
    ((d + 48) as u32) as char
}

/// The shortest decimal rendering of `n`.
pub open spec fn decimal(n: nat) -> Seq<char>
    decreases n,
{
    if n < 10 {
        seq![digit_char(n)]
    } else {
        decimal(n / 10).push(digit_char(n % 10))
    }
}

/// Index of the first occurrence of `c` in `s`, if any.
pub open spec fn first_index(s: Seq<char>, c: char) -> Option<int>
    decreases s.len(),
{
    if s.len() == 0 {
        None
    } else if s[0] == c {
        Some(0)
    } else {
        match first_index(s.drop_first(), c) {
            Some(i) => Some(i + 1),
            None => None,
        }
    }
}

/// `str::split_once` on a single character: the parts before and after the
/// first occurrence of `c`.
pub open spec fn split_once(s: Seq<char>, c: char) -> Option<(Seq<char>, Seq<char>)> {
    match first_index(s, c) {
        Some(i) => Some((s.subrange(0, i), s.subrange(i + 1, s.len() as int))),
        None => None,
    }
}

pub proof fn lemma_first_index(s: Seq<char>, c: char)
    ensures
        match first_index(s, c) {
            Some(i) => 0 <= i < s.len() && s[i] == c && forall|j: int| 0 <= j < i ==> s[j] != c,
            None => forall|j: int| 0 <= j < s.len() ==> s[j] != c,
        },
    decreases s.len(),
{
    if s.len() > 0 && s[0] != c {
        lemma_first_index(s.drop_first(), c);
        match first_index(s.drop_first(), c) {
            Some(i) => {
                assert forall|j: int| 0 <= j < i + 1 implies s[j] != c by {
                    if j > 0 {
                        assert(s[j] == s.drop_first()[j - 1]);
                    }
                }
            },
            None => {
                assert forall|j: int| 0 <= j < s.len() implies s[j] != c by {
                    if j > 0 {
                        assert(s[j] == s.drop_first()[j - 1]);
                    }
                }
            },
        }
    }
}

/// The first occurrence is characterised by its position.
pub proof fn lemma_first_index_at(s: Seq<char>, c: char, i: int)
    requires
        0 <= i < s.len(),
        s[i] == c,
        forall|j: int| 0 <= j < i ==> s[j] != c,
    ensures
        first_index(s, c) == Some(i),
{
    lemma_first_index(s, c);
    match first_index(s, c) {
        Some(k) => {
            if k < i {
            } else if k > i {
            }
        },
        None => {},
    }
}

pub proof fn lemma_digits_value_push(s: Seq<char>, c: char)
    ensures
        digits_value(s.push(c)) == digits_value(s) * 10 + digit_val(c),
{
    assert(s.push(c).drop_last() =~= s);
}

/// Facts about a digit character.
pub proof fn lemma_digit_char(d: nat)
    requires
        d < 10,
    ensures
        is_digit(digit_char(d)),
        digit_val(digit_char(d)) == d,
{
}

/// The decimal rendering of `n` is a non-empty run of digits worth `n`.
pub proof fn lemma_decimal(n: nat)
    ensures
        decimal(n).len() > 0,
        all_digits(decimal(n)),
        digits_value(decimal(n)) == n,
    decreases n,
{
    if n < 10 {
        lemma_digit_char(n);
        lemma_digits_value_push(Seq::<char>::empty(), digit_char(n));
        assert(decimal(n) =~= Seq::<char>::empty().push(digit_char(n)));
        assert(digits_value(Seq::<char>::empty()) == 0);
    } else {
        lemma_decimal(n / 10);
        lemma_digit_char(n % 10);
        lemma_digits_value_push(decimal(n / 10), digit_char(n % 10));
        vstd::arithmetic::div_mod::lemma_fundamental_div_mod(n as int, 10);
        assert(decimal(n) == decimal(n / 10).push(digit_char(n % 10)));
        let s = decimal(n);
        assert forall|i: int| 0 <= i < s.len() implies is_digit(#[trigger] s[i]) by {
            if i < s.len() - 1 {
                assert(s[i] == decimal(n / 10)[i]);
            }
        }
    }
}

/// Splitting `a + [c] + b` at the first `c`, when `a` holds no `c`, gives `a` and `b`.
pub proof fn lemma_split_once_at(a: Seq<char>, c: char, b: Seq<char>)
    requires
        forall|j: int| 0 <= j < a.len() ==> a[j] != c,
    ensures
        split_once(a + seq![c] + b, c) == Some((a, b)),
{
    let s = a + seq![c] + b;
    assert forall|j: int| 0 <= j < a.len() implies s[j] != c by {
        assert(s[j] == a[j]);
    }
    lemma_first_index_at(s, c, a.len() as int);
    assert(s.subrange(0, a.len() as int) =~= a);
    assert(s.subrange(a.len() as int + 1, s.len() as int) =~= b);
}

/// A one-character string holding the digit `d`.
pub fn digit_str(d: u64) -> (r: &'static str)
    requires
        d < 10,
    ensures
        r@ == seq![digit_char(d as nat)],
{
    match d {
        0 => {
            proof {
                reveal_strlit("0");
            }
            "0"
        },
        1 => {
            proof {
                reveal_strlit("1");
            }
            "1"
        },
        2 => {
            proof {
                reveal_strlit("2");
            }
            "2"
        },
        3 => {
            proof {
                reveal_strlit("3");
            }
            "3"
        },
        4 => {
            proof {
                reveal_strlit("4");
            }
            "4"
        },
        5 => {
            proof {
                reveal_strlit("5");
            }
            "5"
        },
        6 => {
            proof {
                reveal_strlit("6");
            }
            "6"
        },
        7 => {
            proof {
                reveal_strlit("7");
            }
            "7"
        },
        8 => {
            proof {
                reveal_strlit("8");
            }
            "8"
        },
        _ => {
            proof {
                reveal_strlit("9");
            }
            "9"
        },
    }
}

/// Appends the decimal rendering of `n`.
pub fn push_decimal(s: &mut String, n: u64)
    ensures
        final(s)@ == old(s)@ + decimal(n as nat),
    decreases n,
{
    if n >= 10 {
        push_decimal(s, n / 10);
    }
    s.append(digit_str(n % 10));
    proof {
        if n >= 10 {
            assert(decimal(n as nat) == decimal((n / 10) as nat).push(digit_char((n % 10) as nat)));
        }
    }
    assert(s@ =~= old(s)@ + decimal(n as nat));
}

/// Copies the characters of a string into a vector.
pub fn to_chars(s: &str) -> (r: Vec<char>)
    ensures
        r@ == s@,
{
    let n = s.unicode_len();
    let mut r: Vec<char> = Vec::new();
    let mut i: usize = 0;
    while i < n
        invariant
            n == s@.len(),
            i <= n,
            r@ == s@.subrange(0, i as int),
        decreases n - i,
    {
        let c = s.get_char(i);
        r.push(c);
        i = i + 1;
        assert(r@ =~= s@.subrange(0, i as int));
    }
    assert(r@ =~= s@);
    r
}

/// Whether `cs[start..end]` spells the string `lit`.
pub fn chars_eq(cs: &Vec<char>, start: usize, end: usize, lit: &str) -> (r: bool)
    requires
        start <= end <= cs@.len(),
    ensures
        r == (cs@.subrange(start as int, end as int) == lit@),
{
    let n = lit.unicode_len();
    if end - start != n {
        assert(cs@.subrange(start as int, end as int).len() != lit@.len());
        return false;
    }
    let mut i: usize = 0;
    while i < n
        invariant
            n == lit@.len(),
            start <= end <= cs@.len(),
            end - start == n,
            i <= n,
            forall|j: int| 0 <= j < i ==> cs@[start + j] == lit@[j],
        decreases n - i,
    {
        if cs[start + i] != lit.get_char(i) {
            assert(cs@.subrange(start as int, end as int)[i as int] != lit@[i as int]);
            return false;
        }
        i = i + 1;
    }
    assert(cs@.subrange(start as int, end as int) =~= lit@);
    true
}

/// The first index in `start..end` that holds `c`.
pub fn find_char(cs: &Vec<char>, start: usize, end: usize, c: char) -> (r: Option<usize>)
    requires
        start <= end <= cs@.len(),
    ensures
        match r {
            Some(i) => first_index(cs@.subrange(start as int, end as int), c) == Some(i - start)
                && start <= i < end,
            None => first_index(cs@.subrange(start as int, end as int), c) is None,
        },
{
    let ghost sub = cs@.subrange(start as int, end as int);
    let mut i = start;
    while i < end
        invariant
            start <= i <= end <= cs@.len(),
            sub == cs@.subrange(start as int, end as int),
            forall|j: int| start <= j < i ==> cs@[j] != c,
        decreases end - i,
    {
        if cs[i] == c {
            proof {
                assert forall|j: int| 0 <= j < i - start implies sub[j] != c by {
                    assert(sub[j] == cs@[j + start]);
                }
                lemma_first_index_at(sub, c, i - start);
            }
            return Some(i);
        }
        i = i + 1;
    }
    proof {
        lemma_first_index(sub, c);
        if first_index(sub, c) is Some {
            let k = first_index(sub, c)->0;
            assert(sub[k] == cs@[k + start]);
        }
    }
    None
}

/// Parses the digits in `cs[start..end]`: `Some` of their value when the range
/// is a non-empty run of digits whose value is at most `max`.
pub fn parse_digits(cs: &Vec<char>, start: usize, end: usize, max: u32) -> (r: Option<u32>)
    requires
        start <= end <= cs@.len(),
        max < 100000,
    ensures
        r == (if end > start && all_digits(cs@.subrange(start as int, end as int))
            && digits_value(cs@.subrange(start as int, end as int)) <= max {
            Some(digits_value(cs@.subrange(start as int, end as int)) as u32)
        } else {
            None::<u32>
        }),
{
    if start == end {
        return None;
    }
    let cap: u32 = max + 1;
    let mut acc: u32 = 0;
    let mut i = start;
    assert(cs@.subrange(start as int, start as int) =~= Seq::<char>::empty());
    while i < end
        invariant
            start <= i <= end <= cs@.len(),
            max < 100000,
            cap == max + 1,
            all_digits(cs@.subrange(start as int, i as int)),
            acc == (if digits_value(cs@.subrange(start as int, i as int)) <= max {
                digits_value(cs@.subrange(start as int, i as int))
            } else {
                cap as nat
            }),
        decreases end - i,
    {
        let c = cs[i];
        if !(c >= '0' && c <= '9') {
            assert(cs@.subrange(start as int, end as int)[i - start] == c);
            return None;
        }
        let ghost pre = cs@.subrange(start as int, i as int);
        proof {
            lemma_digits_value_push(pre, c);
            assert(cs@.subrange(start as int, i + 1) =~= pre.push(c));
        }
        let d: u32 = (c as u32) - 48;
        if acc <= max {
            let t = acc * 10 + d;
            if t > max {
                acc = cap;
            } else {
                acc = t;
            }
        }
        i = i + 1;
    }
    if acc <= max {
        Some(acc)
    } else {
        None
    }
}

} // verus!

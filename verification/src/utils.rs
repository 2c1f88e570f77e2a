//! Small verified helpers: character search in strings, string equality,
//! decimal rendering of integers, and the `key=value` splitting used by the
//! tag query's attribute filter.

use vstd::prelude::*;

verus! {

/// The position of the first occurrence of `c` in `s` at or after `i`,
/// if there is one.
pub open spec fn find_char_at(s: Seq<char>, c: char, i: int) -> Option<int>
    decreases s.len() - i when 0 <= i <= s.len()
{
    if i >= s.len() {
        None
    } else if s[i] == c {
        Some(i)
    } else {
        find_char_at(s, c, i + 1)
    }
}

/// `find_char_at` scanned from `lo` finds exactly the first hit.
pub proof fn lemma_find_char_at(s: Seq<char>, c: char, lo: int, i: int)
    requires
        0 <= lo <= i <= s.len(),
        forall|k: int| lo <= k < i ==> s[k] != c,
        i == s.len() || s[i] == c,
    ensures
        find_char_at(s, c, lo) == (if i == s.len() { None::<int> } else { Some(i) }),
    decreases i - lo,
{
    if lo < i {
        lemma_find_char_at(s, c, lo + 1, i);
    }
}

/// Whether two string slices hold the same characters.
pub fn str_eq(a: &str, b: &str) -> (r: bool)
    ensures
        r == (a@ == b@),
{
    let an = a.unicode_len();
    let bn = b.unicode_len();
    if an != bn {
        return false;
    }
    let mut i: usize = 0;
    while i < an
        invariant
            i <= an,
            an == a@.len(),
            an == b@.len(),
            forall|k: int| 0 <= k < i ==> a@[k] == b@[k],
        decreases an - i,
    {
        if a.get_char(i) != b.get_char(i) {
            return false;
        }
        i = i + 1;
    }
    proof {
        assert(a@ =~= b@);
    }
    true
}

/// The character for one decimal digit.
pub open spec fn digit_char(d: int) -> char {
    if d == 0 { '0' }
    else if d == 1 { '1' }
    else if d == 2 { '2' }
    else if d == 3 { '3' }
    else if d == 4 { '4' }
    else if d == 5 { '5' }
    else if d == 6 { '6' }
    else if d == 7 { '7' }
    else if d == 8 { '8' }
    else { '9' }
}

/// The decimal rendering of a natural number, most significant digit first.
pub open spec fn dec_str(n: nat) -> Seq<char>
    decreases n,
{
    if n < 10 {
        seq![digit_char(n as int)]
    } else {
        dec_str(n / 10).push(digit_char((n % 10) as int))
    }
}

/// The decimal rendering of an integer: a minus sign before the digits when
/// it is negative.
pub open spec fn dec_str_int(n: int) -> Seq<char> {
    if n < 0 {
        seq!['-'] + dec_str((-n) as nat)
    } else {
        dec_str(n as nat)
    }
}

fn digit_str(d: usize) -> (r: &'static str)
    requires
        d < 10,
    ensures
        r@ == seq![digit_char(d as int)],
{
    let r: &'static str = match d {
        0 => "0",
        1 => "1",
        2 => "2",
        3 => "3",
        4 => "4",
        5 => "5",
        6 => "6",
        7 => "7",
        8 => "8",
        _ => "9",
    };
    proof {
        reveal_strlit("0");
        reveal_strlit("1");
        reveal_strlit("2");
        reveal_strlit("3");
        reveal_strlit("4");
        reveal_strlit("5");
        reveal_strlit("6");
        reveal_strlit("7");
        reveal_strlit("8");
        reveal_strlit("9");
        assert(r@ =~= seq![digit_char(d as int)]);
    }
    r
}

/// Renders `n` in decimal.
pub fn usize_to_string(n: usize) -> (r: String)
    ensures
        r@ == dec_str(n as nat),
    decreases n,
{
    if n < 10 {
        digit_str(n).to_owned()
    } else {
        let prefix = usize_to_string(n / 10);
        let r = prefix.concat(digit_str(n % 10));
        proof {
            assert(r@ =~= dec_str(n as nat));
        }
        r
    }
}

/// Renders `n` in decimal, with a minus sign when it is negative.
pub fn i32_to_string(n: i32) -> (r: String)
    ensures
        r@ == dec_str_int(n as int),
{
    if n >= 0 {
        usize_to_string(n as usize)
    } else {
        let wide: i64 = n as i64;
        let mag: usize = (-wide) as usize;
        let mut r = String::new();
        r.append("-");
        let digits = usize_to_string(mag);
        r.append(digits.as_str());
        proof {
            reveal_strlit("-");
            assert(r@ =~= dec_str_int(n as int));
        }
        r
    }
}

/// The key part of an attribute filter: everything before the first `=`,
/// or all of it when there is none.
pub open spec fn key_of(s: Seq<char>) -> Seq<char> {
    match find_char_at(s, '=', 0) {
        None => s,
        Some(i) => s.subrange(0, i),
    }
}

/// The value part of an attribute filter: the text between the first `=`
/// and the second (or the end), or nothing when there is no `=` at all.
pub open spec fn value_of(s: Seq<char>) -> Option<Seq<char>> {
    match find_char_at(s, '=', 0) {
        None => None,
        Some(i) => Some(
            match find_char_at(s, '=', i + 1) {
                None => s.subrange(i + 1, s.len() as int),
                Some(j) => s.subrange(i + 1, j),
            },
        ),
    }
}

/// Finds the first `=` at or after `from`, as `find_char_at` describes.
fn find_eq(s: &str, from: usize) -> (r: Option<usize>)
    requires
        from <= s@.len(),
    ensures
        match r {
            Some(i) => from <= i < s@.len() && find_char_at(s@, '=', from as int) == Some(i as int),
            None => find_char_at(s@, '=', from as int) is None,
        },
{
    let n = s.unicode_len();
    let mut i: usize = from;
    while i < n
        invariant
            from <= i <= n,
            n == s@.len(),
            forall|k: int| from <= k < i ==> s@[k] != '=',
        decreases n - i,
    {
        if s.get_char(i) == '=' {
            proof {
                lemma_find_char_at(s@, '=', from as int, i as int);
            }
            return Some(i);
        }
        i = i + 1;
    }
    proof {
        lemma_find_char_at(s@, '=', from as int, n as int);
    }
    None
}

/// Splits an optional `key` or `key=value` attribute filter into its key
/// and value parts, as `key_of` and `value_of` describe.
pub fn parse_key_value(attribute: Option<String>) -> (r: (Option<String>, Option<String>))
    ensures
        match attribute {
            None => r.0 is None && r.1 is None,
            Some(s) => {
                &&& match r.0 {
                    Some(k) => k@ == key_of(s@),
                    None => false,
                }
                &&& match value_of(s@) {
                    Some(v) => r.1 matches Some(vs) && vs@ == v,
                    None => r.1 is None,
                }
            },
        },
{
    match attribute {
        None => (None, None),
        Some(s) => {
            let n = s.as_str().unicode_len();
            match find_eq(s.as_str(), 0) {
                None => (Some(s), None),
                Some(i) => {
                    let key = s.as_str().substring_char(0, i).to_owned();
                    let value = match find_eq(s.as_str(), i + 1) {
                        None => s.as_str().substring_char(i + 1, n).to_owned(),
                        Some(j) => s.as_str().substring_char(i + 1, j).to_owned(),
                    };
                    (Some(key), Some(value))
                },
            }
        },
    }
}

} // verus!

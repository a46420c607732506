//! Small verified helpers on strings: equality, decimal rendering of
//! integers, and leading-zero prefixes of hash strings.
use vstd::prelude::*;
use vstd::string::StrSliceExecFns;

verus! {

/// The decimal digit character for `d` (0 to 9).
pub open spec fn digit_char(d: int) -> char {
    if d == 0 {
        '0'
    } else if d == 1 {
        '1'
    } else if d == 2 {
        '2'
    } else if d == 3 {
        '3'
    } else if d == 4 {
        '4'
    } else if d == 5 {
        '5'
    } else if d == 6 {
        '6'
    } else if d == 7 {
        '7'
    } else if d == 8 {
        '8'
    } else {
        '9'
    }
}

/// The usual decimal rendering of a nonnegative integer, most significant
/// digit first, no leading zeros (except for 0 itself).
pub open spec fn spec_dec(n: int) -> Seq<char>
    recommends
        n >= 0,
    decreases n,
{
    if n < 10 {
        seq![digit_char(n)]
    } else {
        spec_dec(n / 10).push(digit_char(n % 10))
    }
}

/// The decimal rendering of a signed integer: a `-` sign followed by the
/// digits of the magnitude when negative.
pub open spec fn spec_dec_i64(n: int) -> Seq<char> {
    if n >= 0 {
        spec_dec(n)
    } else {
        seq!['-'] + spec_dec(-n)
    }
}

fn digit_str(d: u64) -> (s: &'static str)
    requires
        d < 10,
    ensures
        s@ == seq![digit_char(d as int)],
{
    proof {
        reveal_strlit("0");
        reveal_strlit("1");
        reveal_strlit("2");
        reveal_strlit("3");
        reveal_strlit("4");
        reveal_strlit("5");
        reveal_strlit("6");
        reveal_strlit("7");
        reveal_strlit("8");
        reveal_strlit("9");
    }
    let s: &'static str = if d == 0 {
        "0"
    } else if d == 1 {
        "1"
    } else if d == 2 {
        "2"
    } else if d == 3 {
        "3"
    } else if d == 4 {
        "4"
    } else if d == 5 {
        "5"
    } else if d == 6 {
        "6"
    } else if d == 7 {
        "7"
    } else if d == 8 {
        "8"
    } else {
        "9"
    };
    assert(s@ =~= seq![digit_char(d as int)]);
    s
}

/// Renders `n` in decimal.
pub fn u64_to_dec(n: u64) -> (s: String)
    ensures
        s@ == spec_dec(n as int),
    decreases n,
{
    if n < 10 {
        let d = digit_str(n);
        let s = d.to_owned();
        assert(s@ =~= spec_dec(n as int));
        s
    } else {
        let mut s = u64_to_dec(n / 10);
        s.append(digit_str(n % 10));
        assert(s@ =~= spec_dec(n as int));
        s
    }
}

/// Renders `n` in decimal, with a leading `-` when negative.
pub fn i64_to_dec(n: i64) -> (s: String)
    ensures
        s@ == spec_dec_i64(n as int),
{
    if n >= 0 {
        u64_to_dec(n as u64)
    } else {
        let mag: u64 = if n == i64::MIN {
            9223372036854775808u64
        } else {
            (-n) as u64
        };
        proof {
            reveal_strlit("-");
        }
        let mut s = ("-").to_owned();
        let digits = u64_to_dec(mag);
        s.append(digits.as_str());
        assert(s@ =~= spec_dec_i64(n as int));
        s
    }
}

/// Character-wise string equality; `r` holds exactly when the two views
/// are the same character sequence.
pub fn str_eq(a: &str, b: &str) -> (r: bool)
    ensures
        r == (a@ == b@),
{
    let la = a.unicode_len();
    let lb = b.unicode_len();
    if la != lb {
        return false;
    }
    let mut i: usize = 0;
    while i < la
        invariant
            la == a@.len(),
            la == b@.len(),
            i <= la,
            forall|k: int| 0 <= k < i ==> a@[k] == b@[k],
        decreases la - i,
    {
        if a.get_char(i) != b.get_char(i) {
            return false;
        }
        i = i + 1;
    }
    proof {
        assert(a@ =~= b@);
    }
    true
}

/// True when the first `n` characters of `s` exist and are all `'0'`.
pub open spec fn spec_zero_prefix(s: Seq<char>, n: int) -> bool {
    s.len() >= n && (forall|k: int| 0 <= k < n ==> s[k] == '0')
}

/// Checks the proof-of-work target: `n` leading `'0'` characters.
pub fn has_zero_prefix(s: &str, n: usize) -> (r: bool)
    ensures
        r == spec_zero_prefix(s@, n as int),
{
    let l = s.unicode_len();
    if l < n {
        return false;
    }
    let mut i: usize = 0;
    while i < n
        invariant
            l == s@.len(),
            n <= l,
            i <= n,
            forall|k: int| 0 <= k < i ==> s@[k] == '0',
        decreases n - i,
    {
        if s.get_char(i) != '0' {
            return false;
        }
        i = i + 1;
    }
    true
}

} // verus!

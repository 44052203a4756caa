//! Small text helpers: moving between `String` and `Vec<char>`, decimal
//! rendering of ordinals, ASCII-whitespace trimming, and concatenation of
//! character sequences.

use vstd::prelude::*;
use vstd::string::StringExecFns;

verus! {

/// The characters of a sequence of lines, in order.
pub open spec fn concat_chars(s: Seq<Seq<char>>) -> Seq<char>
    decreases s.len(),
{
    if s.len() == 0 {
        Seq::<char>::empty()
    } else {
        concat_chars(s.drop_last()) + s.last()
    }
}

/// Relies on str::chars: it yields the characters of the string in order.
#[verifier::external_body]
pub fn str_to_chars(s: &str) -> (r: Vec<char>)
    ensures
        r@ == s@,
{
    s.chars().collect()
}

/// Relies on String: FromIterator<char>: collecting characters builds the
/// string that holds exactly those characters in order.
#[verifier::external_body]
pub fn chars_to_string(v: &Vec<char>) -> (r: String)
    ensures
        r@ == v@,
{
    v.iter().collect()
}

/// Whether two character vectors hold the same characters.
pub fn chars_eq(a: &Vec<char>, b: &Vec<char>) -> (r: bool)
    ensures
        r == (a@ == b@),
{
    if a.len() != b.len() {
        assert(a@ != b@);
        return false;
    }
    let mut i: usize = 0;
    while i < a.len()
        invariant
            0 <= i <= a@.len(),
            a@.len() == b@.len(),
            forall|j: int| 0 <= j < i ==> a@[j] == b@[j],
        decreases a@.len() - i,
    {
        if a[i] != b[i] {
            assert(a@ != b@);
            return false;
        }
        i += 1;
    }
    assert(a@ =~= b@);
    true
}

/// The decimal digits of `n`, most significant first.
pub open spec fn dec_digits(n: nat) -> Seq<char>
    decreases n,
{
    if n < 10 {
        seq![digit_char(n)]
    } else {
        dec_digits(n / 10).push(digit_char(n % 10))
    }
}

pub open spec fn digit_char(d: nat) -> char {
    ((48 + d) as u8) as char
}

/// Appends the decimal digits of `n` to `out`.
pub fn push_decimal(n: u64, out: &mut Vec<char>)
    ensures
        final(out)@ == old(out)@ + dec_digits(n as nat),
    decreases n,
{
    if n < 10 {
        let d: u8 = 48 + (n as u8);
        out.push(d as char);
        assert(out@ =~= old(out)@ + dec_digits(n as nat));
    } else {
        push_decimal(n / 10, out);
        let d: u8 = 48 + ((n % 10) as u8);
        out.push(d as char);
        assert(out@ =~= old(out)@ + dec_digits(n as nat));
    }
}

/// Whether `c` is ASCII whitespace.
pub open spec fn is_ws(c: char) -> bool {
    c == ' ' || c == '\t' || c == '\n' || c == '\r'
}

pub fn is_ws_exec(c: char) -> (r: bool)
    ensures
        r == is_ws(c),
{
    c == ' ' || c == '\t' || c == '\n' || c == '\r'
}

/// `s` without its leading ASCII whitespace.
pub open spec fn trim_front(s: Seq<char>) -> Seq<char>
    decreases s.len(),
{
    if s.len() > 0 && is_ws(s[0]) {
        trim_front(s.drop_first())
    } else {
        s
    }
}

/// `s` without its trailing ASCII whitespace.
pub open spec fn trim_back(s: Seq<char>) -> Seq<char>
    decreases s.len(),
{
    if s.len() > 0 && is_ws(s.last()) {
        trim_back(s.drop_last())
    } else {
        s
    }
}

/// `s` without leading and trailing ASCII whitespace.
pub open spec fn trim_ws(s: Seq<char>) -> Seq<char> {
    trim_back(trim_front(s))
}

/// Trims ASCII whitespace from both ends of a character vector.
pub fn trim_chars(s: &Vec<char>) -> (r: Vec<char>)
    ensures
        r@ == trim_ws(s@),
{
    proof {
        assert(s@.subrange(0, s@.len() as int) =~= s@);
    }
    let mut lo: usize = 0;
    while lo < s.len() && is_ws_exec(s[lo])
        invariant
            0 <= lo <= s@.len(),
            trim_front(s@) == trim_front(s@.subrange(lo as int, s@.len() as int)),
        decreases s@.len() - lo,
    {
        proof {
            assert(s@.subrange(lo as int, s@.len() as int).drop_first() =~= s@.subrange(
                lo as int + 1,
                s@.len() as int,
            ));
        }
        lo += 1;
    }
    proof {
        assert(trim_front(s@) =~= s@.subrange(lo as int, s@.len() as int));
    }
    let mut hi: usize = s.len();
    while hi > lo && is_ws_exec(s[hi - 1])
        invariant
            lo <= hi <= s@.len(),
            trim_front(s@) == s@.subrange(lo as int, s@.len() as int),
            trim_back(trim_front(s@)) == trim_back(s@.subrange(lo as int, hi as int)),
        decreases hi,
    {
        proof {
            assert(s@.subrange(lo as int, hi as int).drop_last() =~= s@.subrange(
                lo as int,
                hi as int - 1,
            ));
        }
        hi -= 1;
    }
    proof {
        assert(trim_back(s@.subrange(lo as int, hi as int)) =~= s@.subrange(lo as int, hi as int));
    }
    let mut r: Vec<char> = Vec::new();
    let mut i: usize = lo;
    while i < hi
        invariant
            lo <= i <= hi <= s@.len(),
            r@ == s@.subrange(lo as int, i as int),
        decreases hi - i,
    {
        r.push(s[i]);
        i += 1;
        proof {
            assert(r@ =~= s@.subrange(lo as int, i as int));
        }
    }
    proof {
        assert(r@ =~= s@.subrange(lo as int, hi as int));
    }
    r
}

} // verus!

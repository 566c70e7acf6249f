//! Small string helpers: pushing a character, prefix tests, character
//! buffers, and decimal rendering of counters.

use vstd::prelude::*;
use vstd::string::StrSliceExecFns;

verus! {

/// Relies on std's `String::push`: appends exactly the given character.
#[verifier::external_body]
pub fn push_char(s: &mut String, c: char)
    ensures
        final(s)@ == old(s)@.push(c),
{
    s.push(c);
}

/// The characters of `s`, in order, as a vector.
pub fn str_to_chars(s: &str) -> (v: Vec<char>)
    ensures
        v@ == s@,
{
    let n = s.unicode_len();
    let mut v: Vec<char> = Vec::new();
    let mut i: usize = 0;
    while i < n
        invariant
            n == s@.len(),
            i <= n,
            v@ == s@.subrange(0, i as int),
        decreases n - i,
    {
        v.push(s.get_char(i));
        proof {
            assert(v@ =~= s@.subrange(0, i + 1 as int));
        }
        i = i + 1;
    }
    proof {
        assert(v@ =~= s@);
    }
    v
}

/// A string holding exactly the given characters, in order.
pub fn chars_to_string(v: &Vec<char>) -> (s: String)
    ensures
        s@ == v@,
{
    let mut s = String::new();
    let mut i: usize = 0;
    while i < v.len()
        invariant
            i <= v@.len(),
            s@ == v@.subrange(0, i as int),
        decreases v@.len() - i,
    {
        push_char(&mut s, v[i]);
        proof {
            assert(s@ =~= v@.subrange(0, i + 1 as int));
        }
        i = i + 1;
    }
    proof {
        assert(s@ =~= v@);
    }
    s
}

/// Whether `p` is a prefix of `s`.
pub open spec fn spec_starts_with(s: Seq<char>, p: Seq<char>) -> bool {
    p.len() <= s.len() && s.subrange(0, p.len() as int) == p
}

/// Whether the string starts with the given prefix.
pub fn starts_with(s: &str, p: &str) -> (r: bool)
    ensures
        r == spec_starts_with(s@, p@),
{
    let np = p.unicode_len();
    let ns = s.unicode_len();
    if ns < np {
        proof {
            assert(!spec_starts_with(s@, p@));
        }
        return false;
    }
    let mut i: usize = 0;
    while i < np
        invariant
            np == p@.len(),
            ns == s@.len(),
            np <= ns,
            i <= np,
            s@.subrange(0, i as int) == p@.subrange(0, i as int),
        decreases np - i,
    {
        if s.get_char(i) != p.get_char(i) {
            proof {
                assert(s@.subrange(0, np as int)[i as int] == s@[i as int]);
                assert(p@.subrange(0, np as int) =~= p@);
                assert(!spec_starts_with(s@, p@));
            }
            return false;
        }
        proof {
            assert(s@.subrange(0, i + 1 as int) =~= s@.subrange(0, i as int).push(s@[i as int]));
            assert(p@.subrange(0, i + 1 as int) =~= p@.subrange(0, i as int).push(p@[i as int]));
        }
        i = i + 1;
    }
    proof {
        assert(s@.subrange(0, np as int) =~= p@.subrange(0, np as int));
        assert(p@.subrange(0, np as int) =~= p@);
    }
    true
}

/// The decimal digits of `n`, most significant first.
pub open spec fn spec_decimal(n: nat) -> Seq<char>
    decreases n,
{
    let digit = seq![digit_char((n % 10) as nat)];
    if n < 10 {
        digit
    } else {
        spec_decimal((n / 10) as nat) + digit
    }
}

/// The character of one decimal digit.
pub open spec fn digit_char(d: nat) -> char {
    if d == 0 { '0' }
    else if d == 1 { '1' }
    else if d == 2 { '2' }
    else if d == 3 { '3' }
    else if d == 4 { '4' }
    else if d == 5 { '5' }
    else if d == 6 { '6' }
    else if d == 7 { '7' }
    else if d == 8 { '8' }
    else { '9' }
}

/// The decimal rendering of a counter.
pub fn usize_to_string(n: usize) -> (s: String)
    ensures
        s@ == spec_decimal(n as nat),
{
    let mut digits: Vec<char> = Vec::new();
    let mut rest: usize = n;
    proof {
        assert(spec_decimal(n as nat) =~= spec_decimal(rest as nat) + digits@);
    }
    loop
        invariant_except_break
            spec_decimal(n as nat) == spec_decimal(rest as nat) + digits@,
        ensures
            spec_decimal(n as nat) == digits@,
        decreases rest,
    {
        let d: usize = rest % 10;
        let c: char = if d == 0 { '0' }
            else if d == 1 { '1' }
            else if d == 2 { '2' }
            else if d == 3 { '3' }
            else if d == 4 { '4' }
            else if d == 5 { '5' }
            else if d == 6 { '6' }
            else if d == 7 { '7' }
            else if d == 8 { '8' }
            else { '9' };
        let ghost prev = digits@;
        digits.insert(0, c);
        proof {
            assert(digits@ =~= seq![c] + prev);
            assert(c == digit_char((rest % 10) as nat));
        }
        if rest < 10 {
            proof {
                assert(spec_decimal(rest as nat) == seq![digit_char((rest % 10) as nat)]);
                assert(spec_decimal(n as nat) =~= digits@);
            }
            break;
        }
        proof {
            assert(spec_decimal(rest as nat) == spec_decimal((rest / 10) as nat) + seq![
                digit_char((rest % 10) as nat),
            ]);
            assert(spec_decimal((rest / 10) as nat) + digits@ =~= spec_decimal(rest as nat) + prev);
        }
        rest = rest / 10;
    }
    chars_to_string(&digits)
}

/// Whether two strings hold the same characters.
pub fn str_eq(a: &str, b: &str) -> (r: bool)
    ensures
        r == (a@ == b@),
{
    let na = a.unicode_len();
    let nb = b.unicode_len();
    if na != nb {
        proof {
            assert(a@ != b@);
        }
        return false;
    }
    let mut i: usize = 0;
    while i < na
        invariant
            na == a@.len(),
            na == b@.len(),
            i <= na,
            a@.subrange(0, i as int) == b@.subrange(0, i as int),
        decreases na - i,
    {
        if a.get_char(i) != b.get_char(i) {
            proof {
                if a@ == b@ {
                    assert(a@[i as int] == b@[i as int]);
                }
            }
            return false;
        }
        proof {
            assert(a@.subrange(0, i + 1 as int) =~= a@.subrange(0, i as int).push(a@[i as int]));
            assert(b@.subrange(0, i + 1 as int) =~= b@.subrange(0, i as int).push(b@[i as int]));
        }
        i = i + 1;
    }
    proof {
        assert(a@.subrange(0, na as int) =~= a@);
        assert(b@.subrange(0, na as int) =~= b@);
    }
    true
}

} // verus!

use vstd::prelude::*;

verus! {

/// Whitespace that may pad a combo token or a returned text.
pub open spec fn is_space_char(c: char) -> bool {
    c == ' ' || c == '\t' || c == '\n' || c == '\r'
}

/// `s` with leading and trailing whitespace removed.
pub open spec fn spec_trimmed(s: Seq<char>) -> Seq<char>
    decreases s.len(),
{
    if s.len() > 0 && is_space_char(s[0]) {
        spec_trimmed(s.drop_first())
    } else if s.len() > 0 && is_space_char(s.last()) {
        spec_trimmed(s.drop_last())
    } else {
        s
    }
}

/// Whether `c` is whitespace that may pad a token.
pub fn is_space(c: char) -> (r: bool)
    ensures
        r == is_space_char(c),
{
    c == ' ' || c == '\t' || c == '\n' || c == '\r'
}

/// `c` matches the lower-case letter `l` up to ASCII case.
pub open spec fn char_matches_ci(c: char, l: char) -> bool {
    c == l || (65 <= c as int <= 90 && c as int + 32 == l as int)
}

/// `t` spells the lower-case word `kw` up to ASCII case.
pub open spec fn matches_keyword(t: Seq<char>, kw: Seq<char>) -> bool {
    t.len() == kw.len() && forall|i: int| 0 <= i < t.len() ==> char_matches_ci(t[i], kw[i])
}

/// Whether `t` spells the lower-case word `kw` up to ASCII case.
pub fn eq_ignore_case(t: &str, kw: &str) -> (r: bool)
    ensures
        r == matches_keyword(t@, kw@),
{
    let n = t.unicode_len();
    if n != kw.unicode_len() {
        return false;
    }
    let mut i: usize = 0;
    while i < n
        invariant
            i <= n,
            n == t@.len(),
            n == kw@.len(),
            forall|j: int| 0 <= j < i ==> char_matches_ci(t@[j], kw@[j]),
        decreases n - i,
    {
        let cu = t.get_char(i) as u32;
        let lu = kw.get_char(i) as u32;
        if !(cu == lu || (cu >= 65 && cu <= 90 && cu + 32 == lu)) {
            proof {
                assert(!char_matches_ci(t@[i as int], kw@[i as int]));
            }
            return false;
        }
        i = i + 1;
    }
    true
}

/// Returns `s` with leading and trailing whitespace removed.
pub fn trim_str(s: &str) -> (r: String)
    ensures
        r@ == spec_trimmed(s@),
{
    let n = s.unicode_len();
    let mut lo: usize = 0;
    proof {
        assert(s@.skip(0) =~= s@);
    }
    while lo < n && is_space(s.get_char(lo))
        invariant
            lo <= n,
            n == s@.len(),
            spec_trimmed(s@) == spec_trimmed(s@.skip(lo as int)),
        decreases n - lo,
    {
        proof {
            assert(s@.skip(lo as int).drop_first() =~= s@.skip(lo as int + 1));
        }
        lo = lo + 1;
    }
    let mut hi: usize = n;
    while hi > lo && is_space(s.get_char(hi - 1))
        invariant
            lo <= hi <= n,
            n == s@.len(),
            lo < n ==> !is_space_char(s@[lo as int]),
            spec_trimmed(s@) == spec_trimmed(s@.subrange(lo as int, hi as int)),
        decreases hi,
    {
        proof {
            assert(s@.subrange(lo as int, hi as int).drop_last()
                =~= s@.subrange(lo as int, hi as int - 1));
        }
        hi = hi - 1;
    }
    let r = s.substring_char(lo, hi).to_owned();
    proof {
        assert(s@.skip(lo as int) =~= s@.subrange(lo as int, n as int));
    }
    r
}

} // verus!

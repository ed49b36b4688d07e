use vstd::prelude::*;

verus! {

/// ASCII whitespace, as it separates tokens in a version banner.
pub open spec fn is_space(b: u8) -> bool {
    b == 32 || b == 9 || b == 10 || b == 13
}

fn byte_is_space(b: u8) -> (r: bool)
    ensures
        r == is_space(b),
{
    b == 32 || b == 9 || b == 10 || b == 13
}

/// The marker a version banner carries right before the version token:
/// the bytes of "version ".
pub open spec fn marker() -> Seq<u8> {
    seq![118u8, 101u8, 114u8, 115u8, 105u8, 111u8, 110u8, 32u8]
}

/// The banner has a version match at position i: the marker stands
/// there, followed by at least one non-whitespace byte (an empty token
/// is no match; the search goes on past it).
pub open spec fn match_at(s: Seq<u8>, i: int) -> bool {
    &&& 0 <= i
    &&& i + 8 < s.len()
    &&& s.subrange(i, i + 8) == marker()
    &&& !is_space(s[i + 8])
}

/// The first version match at or after `from`, if any.
pub open spec fn find_match(s: Seq<u8>, from: int) -> Option<int>
    decreases s.len() - from,
{
    if from + 8 >= s.len() {
        None
    } else if match_at(s, from) {
        Some(from)
    } else {
        find_match(s, from + 1)
    }
}

/// Where the token that starts at `from` ends: the first position at
/// or after `from` that holds whitespace, or the banner's end.
pub open spec fn token_end(s: Seq<u8>, from: int) -> int
    decreases s.len() - from,
{
    if from < 0 || from >= s.len() {
        from
    } else if is_space(s[from]) {
        from
    } else {
        token_end(s, from + 1)
    }
}

proof fn lemma_token_end_bounds(s: Seq<u8>, from: int)
    requires
        0 <= from <= s.len(),
    ensures
        from <= token_end(s, from) <= s.len(),
    decreases s.len() - from,
{
    if from < s.len() && !is_space(s[from]) {
        lemma_token_end_bounds(s, from + 1);
    }
}

/// The version token of a banner: the maximal non-whitespace run that
/// follows the first "version " marker followed by a non-whitespace
/// byte; nothing when no such marker occurs.
pub open spec fn parse_version_spec(s: Seq<u8>) -> Option<Seq<u8>> {
    match find_match(s, 0) {
        None => None,
        Some(i) => Some(s.subrange(i + 8, token_end(s, i + 8))),
    }
}

fn marker_matches(s: &Vec<u8>, i: usize) -> (b: bool)
    requires
        i + 8 <= s@.len(),
    ensures
        b == (s@.subrange(i as int, i as int + 8) == marker()),
{
    let n = s.len();
    let ok = i + 8 <= n && s[i] == 118 && s[i + 1] == 101 && s[i + 2] == 114 && s[i + 3] == 115
        && s[i + 4] == 105 && s[i + 5] == 111 && s[i + 6] == 110 && s[i + 7] == 32;
    proof {
        let sub = s@.subrange(i as int, i as int + 8);
        if ok {
            assert(sub =~= marker());
        } else {
            assert(sub != marker()) by {
                assert(sub[0] == s@[i as int]);
                assert(sub[1] == s@[i as int + 1]);
                assert(sub[2] == s@[i as int + 2]);
                assert(sub[3] == s@[i as int + 3]);
                assert(sub[4] == s@[i as int + 4]);
                assert(sub[5] == s@[i as int + 5]);
                assert(sub[6] == s@[i as int + 6]);
                assert(sub[7] == s@[i as int + 7]);
            }
        }
    }
    ok
}

/// Extracts the version token from a binary's version banner: the
/// first maximal run of non-whitespace bytes standing after a
/// "version " marker. A banner without such a token identifies no
/// runnable binary, and the caller reports it so.
pub fn parse_version(banner: &Vec<u8>) -> (r: Option<Vec<u8>>)
    ensures
        match r {
            Some(v) => parse_version_spec(banner@) == Some(v@),
            None => parse_version_spec(banner@) is None,
        },
{
    let n = banner.len();
    if n < 9 {
        return None;
    }
    let mut i: usize = 0;
    while i <= n - 9
        invariant
            9 <= n == banner@.len(),
            i <= n - 8,
            find_match(banner@, 0) == find_match(banner@, i as int),
        decreases n - i,
    {
        if marker_matches(banner, i) && !byte_is_space(banner[i + 8]) {
            assert(match_at(banner@, i as int));
            assert(find_match(banner@, i as int) == Some(i as int));
            let start = i + 8;
            proof {
                lemma_token_end_bounds(banner@, start as int);
            }
            let mut j = start;
            let mut out: Vec<u8> = Vec::new();
            while j < n && !byte_is_space(banner[j])
                invariant
                    start <= j <= n,
                    n == banner@.len(),
                    token_end(banner@, start as int) == token_end(banner@, j as int),
                    out@ == banner@.subrange(start as int, j as int),
                decreases n - j,
            {
                out.push(banner[j]);
                proof {
                    assert(out@ =~= banner@.subrange(start as int, j as int + 1));
                }
                j = j + 1;
            }
            proof {
                assert(token_end(banner@, j as int) == j);
                assert(out@ == banner@.subrange(start as int, token_end(banner@, start as int)));
            }
            return Some(out);
        }
        assert(!match_at(banner@, i as int));
        i = i + 1;
    }
    proof {
        assert(find_match(banner@, i as int) is None);
    }
    None
}

} // verus!

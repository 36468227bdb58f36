//! Resident memory from `/proc/self/statm`.

use vstd::prelude::*;

use crate::decimal::{parse_u64, spec_parse_u64};
use crate::text::{
    chars_of, end_of_token, lemma_skip_token, skip_whitespace, skip_ws, sub_vec, token_end,
    tokens_from,
};

verus! {

/// `rustix::param::page_size`: the system page size, which with rustix's
/// default `use-libc-auxv` feature is `sysconf(_SC_PAGESIZE)`. Its value
/// comes from the running system; what is stated is that a page holds at
/// least one byte.
#[verifier::external_body]
fn page_size() -> (r: usize)
    ensures
        r >= 1,
{
    rustix::param::page_size()
}

/// The resident page count of a `statm` text: its second field, 0 when
/// missing or not a number.
pub open spec fn statm_pages(text: Seq<char>) -> u64 {
    let t = tokens_from(text, 0);
    if t.len() >= 2 {
        match spec_parse_u64(t[1]) {
            Some(n) => n,
            None => 0,
        }
    } else {
        0
    }
}

/// Resident bytes: pages times page size, saturating.
pub open spec fn spec_rss(text: Seq<char>, page_size: u64) -> u64 {
    let p = statm_pages(text);
    if p * page_size > u64::MAX {
        u64::MAX
    } else {
        (p * page_size) as u64
    }
}

/// Resident bytes from a `statm` text and a page size.
pub fn rss_from_statm(text: &str, page_size: u64) -> (r: u64)
    ensures
        r == spec_rss(text@, page_size),
{
    let v = chars_of(text);
    let n = v.len();
    let ghost s = v@;
    let a0 = skip_whitespace(&v, 0);
    proof {
        lemma_skip_token(s, 0);
    }
    let pages: u64 = if a0 >= n {
        proof {
            assert(tokens_from(s, 0) =~= Seq::<Seq<char>>::empty());
        }
        0
    } else {
        let b0 = end_of_token(&v, a0);
        proof {
            lemma_skip_token(s, a0 as int);
            lemma_skip_token(s, b0 as int);
        }
        let a1 = skip_whitespace(&v, b0);
        if a1 >= n {
            proof {
                assert(tokens_from(s, b0 as int) =~= Seq::<Seq<char>>::empty());
                assert(tokens_from(s, 0) == seq![s.subrange(a0 as int, b0 as int)] + tokens_from(
                    s,
                    b0 as int,
                ));
                assert(tokens_from(s, 0).len() == 1);
            }
            0
        } else {
            let b1 = end_of_token(&v, a1);
            proof {
                lemma_skip_token(s, a1 as int);
                let t0 = tokens_from(s, 0);
                let t1 = tokens_from(s, b0 as int);
                assert(t0 == seq![s.subrange(a0 as int, b0 as int)] + t1);
                assert(t1 == seq![s.subrange(a1 as int, b1 as int)] + tokens_from(s, b1 as int));
                assert(t0[1] == t1[0]);
            }
            let tok = sub_vec(&v, a1, b1);
            match parse_u64(&tok) {
                Some(p) => p,
                None => 0,
            }
        }
    };
    assert(pages == statm_pages(text@));
    match pages.checked_mul(page_size) {
        Some(x) => x,
        None => u64::MAX,
    }
}

/// Resident bytes of the running process from its `statm` text, using the
/// system page size (at least 1): never fewer bytes than resident pages. A
/// text without a readable second field gives 0.
pub fn rss_bytes_of(statm: &str) -> (r: u64)
    ensures
        exists|ps: u64| ps >= 1 && r == spec_rss(statm@, ps),
        statm_pages(statm@) == 0 ==> r == 0,
        r >= statm_pages(statm@),
{
    let ps = page_size() as u64;
    let r = rss_from_statm(statm, ps);
    let ghost p = statm_pages(statm@);
    assert(p == 0 ==> 0 * ps == 0);
    assert(p * ps >= p) by (nonlinear_arith)
        requires
            ps >= 1,
    ;
    assert(ps >= 1 && r == spec_rss(statm@, ps));
    r
}

} // verus!

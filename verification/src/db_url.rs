//! Picking a database connection URL apart: the text after the last `/`
//! names the database, the text before it is the bare server URL.

use vstd::prelude::*;
use vstd::string::StrSliceExecFns;
use vstd::string::StringExecFns;

verus! {

/// The greatest index below `upto` where `cs` holds a `/`, or `-1` when
/// there is none.
pub open spec fn last_slash_before(cs: Seq<char>, upto: int) -> int
    decreases upto,
{
    if upto <= 0 {
        -1
    } else if cs[upto - 1] == '/' {
        upto - 1
    } else {
        last_slash_before(cs, upto - 1)
    }
}

/// Splits a connection URL into the database name — the text after the last
/// `/` — and the bare URL before that `/`. A URL without any `/` is all
/// database name, with an empty bare URL.
pub fn split_database_url(url: &str) -> (r: (String, String))
    ensures
        ({
            let cs = url@;
            let j = last_slash_before(cs, cs.len() as int);
            &&& r.0@ == cs.subrange(j + 1, cs.len() as int)
            &&& r.1@ == if j >= 0 {
                cs.subrange(0, j)
            } else {
                Seq::<char>::empty()
            }
        }),
{
    let n = url.unicode_len();
    let mut cut: usize = 0;
    let mut k: usize = 0;
    while k < n
        invariant
            k <= n,
            n == url@.len(),
            cut <= k,
            cut == last_slash_before(url@, k as int) + 1,
        decreases n - k,
    {
        if url.get_char(k) == '/' {
            cut = k + 1;
        }
        k = k + 1;
    }
    let name = String::from_str(url.substring_char(cut, n));
    let bare = if cut > 0 {
        String::from_str(url.substring_char(0, cut - 1))
    } else {
        String::new()
    };
    (name, bare)
}

} // verus!

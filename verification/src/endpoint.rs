//! The address of the remote node: a base URL without trailing slashes, to
//! which paths that start with a slash are appended.

use vstd::prelude::*;

verus! {

/// `url` without the slashes at its end.
pub open spec fn trimmed(url: Seq<char>) -> Seq<char>
    decreases url.len(),
{
    if url.len() > 0 && url.last() == '/' {
        trimmed(url.drop_last())
    } else {
        url
    }
}

/// Trimming leaves a start of the text that does not end in a slash, and
/// only slashes are cut off.
pub proof fn lemma_trimmed(url: Seq<char>)
    ensures
        trimmed(url).len() <= url.len(),
        trimmed(url) == url.subrange(0, trimmed(url).len() as int),
        trimmed(url).len() > 0 ==> trimmed(url).last() != '/',
        forall|i: int| trimmed(url).len() <= i < url.len() ==> url[i] == '/',
    decreases url.len(),
{
    if url.len() > 0 && url.last() == '/' {
        let shorter = url.drop_last();
        lemma_trimmed(shorter);
        assert(trimmed(url) =~= url.subrange(0, trimmed(url).len() as int));
        assert forall|i: int| trimmed(url).len() <= i < url.len() implies url[i] == '/' by {
            if i < shorter.len() {
                assert(url[i] == shorter[i]);
            }
        }
    } else {
        assert(url =~= url.subrange(0, url.len() as int));
    }
}

/// Trimming twice is trimming once.
pub proof fn lemma_trimmed_idempotent(url: Seq<char>)
    ensures
        trimmed(trimmed(url)) == trimmed(url),
    decreases url.len(),
{
    if url.len() > 0 && url.last() == '/' {
        lemma_trimmed_idempotent(url.drop_last());
    }
}

/// `url` without the slashes at its end.
pub fn trim_trailing_slashes(url: &str) -> (out: String)
    ensures
        out@ == trimmed(url@),
{
    let mut end = url.unicode_len();
    proof {
        assert(url@.subrange(0, url@.len() as int) =~= url@);
    }
    while end > 0 && url.get_char(end - 1) == '/'
        invariant
            end <= url@.len(),
            trimmed(url@) == trimmed(url@.subrange(0, end as int)),
        decreases end,
    {
        proof {
            let current = url@.subrange(0, end as int);
            assert(current.last() == url@[end - 1]);
            assert(current.drop_last() =~= url@.subrange(0, end - 1));
        }
        end -= 1;
    }
    proof {
        let current = url@.subrange(0, end as int);
        if end > 0 {
            assert(current.last() == url@[end - 1]);
        }
    }
    url.substring_char(0, end).to_owned()
}

} // verus!

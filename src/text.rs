use vstd::prelude::*;

verus! {

/// The characters of `s` with every backslash left out.
pub open spec fn without_backslashes(s: Seq<char>) -> Seq<char> {
    s.filter(|c: char| c != '\\')
}

/// Removes every backslash from a submission, so that escapes the chat
/// platform uses for formatting do not reach the evaluator.
pub fn strip_backslashes(text: &str) -> (r: String)
    ensures
        r@ == without_backslashes(text@),
{
    let n = text.unicode_len();
    let mut out = String::new();
    let mut i: usize = 0;
    while i < n
        invariant
            n == text@.len(),
            i <= n,
            out@ == without_backslashes(text@.take(i as int)),
        decreases n - i,
    {
        let c = text.get_char(i);
        proof {
            assert(text@.take(i + 1) == text@.take(i as int).push(c));
            text@.take(i as int).lemma_filter_push(c, |c: char| c != '\\');
        }
        if c != '\\' {
            out.append(text.substring_char(i, i + 1));
            assert(text@.subrange(i as int, i + 1) =~= seq![c]);
        }
        i = i + 1;
    }
    assert(text@.take(n as int) =~= text@);
    out
}

} // verus!

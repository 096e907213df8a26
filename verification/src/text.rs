//! Texts as sequences of characters, and the replacement of every occurrence
//! of a pattern in a text.

use vstd::prelude::*;

verus! {

/// Appends one character to a text with `String::push`.
///
/// Trusted: the text grows by that character at its end.
#[verifier::external_body]
pub(crate) fn push_char(text: &mut String, c: char)
    ensures
        final(text)@ == old(text)@.push(c),
{
    text.push(c);
}

/// The characters of a text, one by one.
pub fn characters(text: &str) -> (chars: Vec<char>)
    ensures
        chars@ == text@,
{
    let mut chars: Vec<char> = Vec::new();
    for c in it: text.chars()
        invariant
            chars@ == it.seq().take(it.index() as int),
            it.seq() == text@,
    {
        chars.push(c);
    }
    chars
}

/// `text` with every occurrence of `pattern` replaced by `substitute`:
/// occurrences are found from the left and do not overlap. An empty pattern
/// occurs nowhere, so the text stays as it is.
pub open spec fn replaced(text: Seq<char>, pattern: Seq<char>, substitute: Seq<char>) -> Seq<char>
    decreases text.len(),
{
    if pattern.len() == 0 || text.len() < pattern.len() {
        text
    } else if text.subrange(0, pattern.len() as int) == pattern {
        substitute + replaced(text.subrange(pattern.len() as int, text.len() as int), pattern, substitute)
    } else {
        seq![text[0]] + replaced(text.subrange(1, text.len() as int), pattern, substitute)
    }
}

/// Whether `pattern` stands in `text` at `start`.
fn occurs_at(text: &Vec<char>, start: usize, pattern: &Vec<char>) -> (found: bool)
    requires
        start + pattern.len() <= text.len(),
    ensures
        found == (text@.subrange(start as int, start + pattern.len()) == pattern@),
{
    let mut k: usize = 0;
    while k < pattern.len()
        invariant
            k <= pattern.len(),
            start + pattern.len() <= text.len(),
            forall|j: int| 0 <= j < k ==> text@[start + j] == pattern@[j],
        decreases pattern.len() - k,
    {
        if text[start + k] != pattern[k] {
            assert(text@.subrange(start as int, start + pattern.len())[k as int] != pattern@[k as int]);
            return false;
        }
        k = k + 1;
    }
    assert(text@.subrange(start as int, start + pattern.len()) =~= pattern@);
    true
}

/// Replaces every occurrence of `pattern` in `text` by `substitute`.
pub fn replace_all(text: &str, pattern: &str, substitute: &str) -> (out: String)
    ensures
        out@ == replaced(text@, pattern@, substitute@),
{
    let source = characters(text);
    let wanted = characters(pattern);
    let n: usize = source.len();
    let m: usize = wanted.len();
    if m == 0 {
        return text.to_owned();
    }
    let mut out = String::new();
    let mut i: usize = 0;
    assert(source@.subrange(0, n as int) =~= source@);
    while i < n
        invariant
            i <= n,
            n == source.len(),
            m == wanted.len(),
            m > 0,
            source@ == text@,
            wanted@ == pattern@,
            replaced(text@, pattern@, substitute@) == out@ + replaced(
                source@.subrange(i as int, n as int),
                pattern@,
                substitute@,
            ),
        decreases n - i,
    {
        let ghost rest = source@.subrange(i as int, n as int);
        if n - i >= m && occurs_at(&source, i, &wanted) {
            assert(rest.subrange(0, m as int) =~= source@.subrange(i as int, i + m));
            assert(rest.subrange(m as int, rest.len() as int) =~= source@.subrange(i + m, n as int));
            let ghost so_far = out@;
            out.append(substitute);
            assert(out@ + replaced(source@.subrange(i + m, n as int), pattern@, substitute@) =~= so_far
                + replaced(rest, pattern@, substitute@));
            i = i + m;
        } else {
            assert(rest.subrange(1, rest.len() as int) =~= source@.subrange(i + 1, n as int));
            if n - i >= m {
                assert(rest.subrange(0, m as int) =~= source@.subrange(i as int, i + m));
            } else {
                assert(rest =~= seq![rest[0]] + rest.subrange(1, rest.len() as int));
            }
            let ghost so_far = out@;
            push_char(&mut out, source[i]);
            assert(out@ + replaced(source@.subrange(i + 1, n as int), pattern@, substitute@) =~= so_far
                + replaced(rest, pattern@, substitute@));
            i = i + 1;
        }
    }
    assert(source@.subrange(n as int, n as int) =~= Seq::<char>::empty());
    assert(out@ + Seq::<char>::empty() =~= out@);
    out
}

} // verus!

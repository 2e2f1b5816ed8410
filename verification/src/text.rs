//! The pieces of text that package names are cut into.

use vstd::prelude::*;
use vstd::string::StrSliceExecFns;

verus! {

/// `String::push`: the character is appended to the string.
pub assume_specification[ String::push ](text: &mut String, c: char)
    ensures
        final(text)@ == old(text)@.push(c),
;

/// `part` is what stands in `text` behind the last `separator`: the whole of
/// `text` where it holds no `separator`.
pub open spec fn is_last_segment(text: Seq<char>, separator: char, part: Seq<char>) -> bool {
    &&& part.len() <= text.len()
    &&& part == text.subrange(text.len() - part.len(), text.len() as int)
    &&& !part.contains(separator)
    &&& (part.len() == text.len() || text[text.len() - part.len() - 1] == separator)
}

/// `text` without the run of `lead` characters that it starts with.
pub open spec fn strip_leading(text: Seq<char>, lead: char) -> Seq<char>
    decreases text.len(),
{
    if text.len() > 0 && text[0] == lead {
        strip_leading(text.drop_first(), lead)
    } else {
        text
    }
}

/// `text` with `to` in the place of every `from`.
pub open spec fn replace_char(text: Seq<char>, from: char, to: char) -> Seq<char> {
    Seq::new(
        text.len(),
        |i: int|
            if text[i] == from {
                to
            } else {
                text[i]
            },
    )
}

/// At most one piece of text is the last segment of another.
pub proof fn last_segment_is_unique(text: Seq<char>, separator: char, a: Seq<char>, b: Seq<char>)
    requires
        is_last_segment(text, separator, a),
        is_last_segment(text, separator, b),
    ensures
        a == b,
{
    if a.len() < b.len() {
        let k = text.len() - a.len() - 1;
        assert(b[k - (text.len() - b.len())] == separator);
    } else if b.len() < a.len() {
        let k = text.len() - b.len() - 1;
        assert(a[k - (text.len() - a.len())] == separator);
    }
}

/// What stands in `text` behind its last `separator`.
pub fn last_segment<'a>(text: &'a str, separator: char) -> (part: &'a str)
    ensures
        is_last_segment(text@, separator, part@),
        !text@.contains(separator) ==> part@ == text@,
{
    let n = text.unicode_len();
    let mut i: usize = n;
    while i > 0 && text.get_char(i - 1) != separator
        invariant
            i <= n,
            n == text@.len(),
            forall|j: int| i <= j < n ==> text@[j] != separator,
        decreases i,
    {
        i = i - 1;
    }
    let part = text.substring_char(i, n);
    proof {
        if i == 0 {
            assert(part@ =~= text@);
        } else {
            assert(text@[i - 1] == separator);
        }
    }
    part
}

/// `text` without its leading `lead` characters and with `to` in the place of
/// every `from` that is left.
pub fn strip_and_replace(text: &str, lead: char, from: char, to: char) -> (out: String)
    ensures
        out@ == replace_char(strip_leading(text@, lead), from, to),
{
    let n = text.unicode_len();
    let mut start: usize = 0;
    assert(text@.subrange(0, n as int) =~= text@);
    while start < n && text.get_char(start) == lead
        invariant
            start <= n,
            n == text@.len(),
            strip_leading(text@, lead) == strip_leading(text@.subrange(start as int, n as int), lead),
        decreases n - start,
    {
        proof {
            let rest = text@.subrange(start as int, n as int);
            assert(rest.drop_first() =~= text@.subrange(start + 1, n as int));
        }
        start = start + 1;
    }
    let ghost kept = text@.subrange(start as int, n as int);
    assert(strip_leading(text@, lead) == kept);
    let mut out = String::new();
    let mut i: usize = start;
    while i < n
        invariant
            start <= i <= n,
            n == text@.len(),
            out@ == replace_char(text@.subrange(start as int, i as int), from, to),
        decreases n - i,
    {
        let c = text.get_char(i);
        if c == from {
            out.push(to);
        } else {
            out.push(c);
        }
        i = i + 1;
        assert(out@ =~= replace_char(text@.subrange(start as int, i as int), from, to));
    }
    out
}

} // verus!

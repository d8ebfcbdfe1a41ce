use vstd::prelude::*;

verus! {

/// The characters with the Unicode `White_Space` property, which is what
/// `str::trim` strips from both ends.
pub open spec fn is_blank(c: char) -> bool {
    ||| c == ' '
    ||| c == '\t'
    ||| c == '\n'
    ||| c == '\u{b}'
    ||| c == '\u{c}'
    ||| c == '\r'
    ||| c == '\u{85}'
    ||| c == '\u{a0}'
    ||| c == '\u{1680}'
    ||| ('\u{2000}' <= c && c <= '\u{200a}')
    ||| c == '\u{2028}'
    ||| c == '\u{2029}'
    ||| c == '\u{202f}'
    ||| c == '\u{205f}'
    ||| c == '\u{3000}'
}

/// `s` without its leading blank characters.
pub open spec fn strip_leading(s: Seq<char>) -> Seq<char>
    decreases s.len(),
{
    if s.len() > 0 && is_blank(s[0]) {
        strip_leading(s.drop_first())
    } else {
        s
    }
}

/// `s` without its trailing blank characters.
pub open spec fn strip_trailing(s: Seq<char>) -> Seq<char>
    decreases s.len(),
{
    if s.len() > 0 && is_blank(s.last()) {
        strip_trailing(s.drop_last())
    } else {
        s
    }
}

/// `s` without leading and trailing blank characters.
pub open spec fn trimmed(s: Seq<char>) -> Seq<char> {
    strip_trailing(strip_leading(s))
}

/// Relies on str::trim: it returns the slice left after stripping leading
/// and trailing characters with the Unicode `White_Space` property.
#[verifier::external_body]
pub fn trim_to_string(s: &str) -> (r: String)
    ensures
        r@ == trimmed(s@),
{
    s.trim().to_owned()
}

/// Trimming is idempotent: a trimmed sequence neither starts nor ends with
/// a blank character, so trimming it again changes nothing.
pub proof fn lemma_trimmed_idempotent(s: Seq<char>)
    ensures
        trimmed(trimmed(s)) == trimmed(s),
{
    let u = strip_leading(s);
    let t = strip_trailing(u);
    lemma_strip_leading_no_leading_blank(s);
    lemma_strip_trailing_keeps_head(u);
    lemma_strip_trailing_no_trailing_blank(u);
    assert(strip_leading(t) == t);
    assert(strip_trailing(t) == t);
}

proof fn lemma_strip_leading_no_leading_blank(s: Seq<char>)
    ensures
        strip_leading(s).len() > 0 ==> !is_blank(strip_leading(s)[0]),
    decreases s.len(),
{
    if s.len() > 0 && is_blank(s[0]) {
        lemma_strip_leading_no_leading_blank(s.drop_first());
    }
}

proof fn lemma_strip_trailing_no_trailing_blank(s: Seq<char>)
    ensures
        strip_trailing(s).len() > 0 ==> !is_blank(strip_trailing(s).last()),
    decreases s.len(),
{
    if s.len() > 0 && is_blank(s.last()) {
        lemma_strip_trailing_no_trailing_blank(s.drop_last());
    }
}

/// Stripping trailing blanks keeps the first character, when one is left.
proof fn lemma_strip_trailing_keeps_head(s: Seq<char>)
    ensures
        strip_trailing(s).len() > 0 ==> strip_trailing(s)[0] == s[0],
    decreases s.len(),
{
    if s.len() > 0 && is_blank(s.last()) {
        lemma_strip_trailing_keeps_head(s.drop_last());
    }
}

} // verus!

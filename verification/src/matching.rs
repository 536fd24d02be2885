//! The subsequence matcher and the whitespace tokenizer that the search
//! operation relies on.

use vstd::prelude::*;
use vstd::string::StrSliceExecFns;

verus! {

/// `pattern` occurs inside `text` as a subsequence: all of its characters
/// appear in `text`, in order, not necessarily contiguously.
pub open spec fn subseq_of(pattern: Seq<char>, text: Seq<char>) -> bool
    decreases text.len(),
{
    if pattern.len() == 0 {
        true
    } else if text.len() == 0 {
        false
    } else if pattern[0] == text[0] {
        subseq_of(pattern.skip(1), text.skip(1))
    } else {
        subseq_of(pattern, text.skip(1))
    }
}

/// An empty pattern matches every text.
pub proof fn lemma_empty_pattern_matches(text: Seq<char>)
    ensures
        subseq_of(Seq::<char>::empty(), text),
{
}

/// An empty text is matched exactly by the empty pattern.
pub proof fn lemma_empty_text_matches_only_empty(pattern: Seq<char>)
    ensures
        subseq_of(pattern, Seq::<char>::empty()) <==> pattern.len() == 0,
{
}

/// Dropping the first pattern character preserves a match.
proof fn lemma_subseq_drop_pattern_head(pattern: Seq<char>, text: Seq<char>)
    requires
        pattern.len() > 0,
        subseq_of(pattern, text),
    ensures
        subseq_of(pattern.skip(1), text),
    decreases text.len(),
{
    if text.len() == 0 {
        // contradicts subseq_of(pattern, text) with pattern.len() > 0
    } else if pattern[0] == text[0] {
        let p1 = pattern.skip(1);
        if p1.len() == 0 {
        } else if p1[0] == text[0] {
            lemma_subseq_drop_pattern_head(p1, text.skip(1));
            assert(p1.skip(1) =~= pattern.skip(2));
        } else {
        }
    } else {
        lemma_subseq_drop_pattern_head(pattern, text.skip(1));
        let p1 = pattern.skip(1);
        if p1.len() == 0 {
        } else if p1[0] == text[0] {
            lemma_subseq_drop_pattern_head(p1, text.skip(1));
            assert(p1.skip(1) =~= pattern.skip(2));
        } else {
        }
    }
}

/// A match within the tail of a text is a match within the whole text.
proof fn lemma_subseq_text_extend(pattern: Seq<char>, text: Seq<char>)
    requires
        text.len() > 0,
        subseq_of(pattern, text.skip(1)),
    ensures
        subseq_of(pattern, text),
{
    if pattern.len() == 0 {
    } else if pattern[0] == text[0] {
        lemma_subseq_drop_pattern_head(pattern, text.skip(1));
    } else {
    }
}

/// A prefix of a text matches it.
proof fn lemma_prefix_is_subseq(pattern: Seq<char>, text: Seq<char>)
    requires
        pattern.len() <= text.len(),
        pattern == text.take(pattern.len() as int),
    ensures
        subseq_of(pattern, text),
    decreases pattern.len(),
{
    if pattern.len() == 0 {
    } else {
        assert(pattern[0] == text[0]);
        assert(pattern.skip(1) =~= text.skip(1).take(pattern.len() - 1));
        lemma_prefix_is_subseq(pattern.skip(1), text.skip(1));
    }
}

/// A contiguous substring of a text is in particular a subsequence of it.
pub proof fn lemma_substring_is_subseq(pattern: Seq<char>, text: Seq<char>, k: int)
    requires
        0 <= k,
        k + pattern.len() <= text.len(),
        pattern == text.subrange(k, k + pattern.len()),
    ensures
        subseq_of(pattern, text),
    decreases k,
{
    if k == 0 {
        assert(pattern == text.take(pattern.len() as int));
        lemma_prefix_is_subseq(pattern, text);
    } else {
        assert(pattern =~= text.skip(1).subrange(k - 1, k - 1 + pattern.len()));
        lemma_substring_is_subseq(pattern, text.skip(1), k - 1);
        lemma_subseq_text_extend(pattern, text);
    }
}

/// The Unicode characters with the `White_Space` property: the characters on
/// which descriptions are split into words.
pub open spec fn is_space(c: char) -> bool {
    ||| c == ' '
    ||| c == '\t'
    ||| c == '\n'
    ||| c == '\u{000B}'
    ||| c == '\u{000C}'
    ||| c == '\r'
    ||| c == '\u{0085}'
    ||| c == '\u{00A0}'
    ||| c == '\u{1680}'
    ||| c == '\u{2000}'
    ||| c == '\u{2001}'
    ||| c == '\u{2002}'
    ||| c == '\u{2003}'
    ||| c == '\u{2004}'
    ||| c == '\u{2005}'
    ||| c == '\u{2006}'
    ||| c == '\u{2007}'
    ||| c == '\u{2008}'
    ||| c == '\u{2009}'
    ||| c == '\u{200A}'
    ||| c == '\u{2028}'
    ||| c == '\u{2029}'
    ||| c == '\u{202F}'
    ||| c == '\u{205F}'
    ||| c == '\u{3000}'
}

/// Decides `is_space`.
pub fn is_space_char(c: char) -> (r: bool)
    ensures
        r == is_space(c),
{
    c == ' ' || c == '\t' || c == '\n' || c == '\u{000B}' || c == '\u{000C}' || c == '\r'
        || c == '\u{0085}' || c == '\u{00A0}' || c == '\u{1680}' || c == '\u{2000}'
        || c == '\u{2001}' || c == '\u{2002}' || c == '\u{2003}' || c == '\u{2004}'
        || c == '\u{2005}' || c == '\u{2006}' || c == '\u{2007}' || c == '\u{2008}'
        || c == '\u{2009}' || c == '\u{200A}' || c == '\u{2028}' || c == '\u{2029}'
        || c == '\u{202F}' || c == '\u{205F}' || c == '\u{3000}'
}

/// The length of the leading run of non-space characters.
pub open spec fn token_end(s: Seq<char>) -> int
    decreases s.len(),
{
    if s.len() == 0 || is_space(s[0]) {
        0
    } else {
        1 + token_end(s.skip(1))
    }
}

proof fn lemma_token_end_bounds(s: Seq<char>)
    ensures
        0 <= token_end(s) <= s.len(),
        s.len() > 0 && !is_space(s[0]) ==> 1 <= token_end(s),
    decreases s.len(),
{
    if s.len() == 0 || is_space(s[0]) {
    } else {
        lemma_token_end_bounds(s.skip(1));
    }
}

/// The length of the leading non-space run, read off a scan that stopped at
/// the first space (or at the end).
proof fn lemma_token_end_run(s: Seq<char>, e: int)
    requires
        0 <= e <= s.len(),
        forall|k: int| 0 <= k < e ==> !is_space(#[trigger] s[k]),
        e == s.len() || is_space(s[e]),
    ensures
        token_end(s) == e,
    decreases e,
{
    if e == 0 {
    } else {
        assert(!is_space(s[0]));
        lemma_token_end_run(s.skip(1), e - 1);
    }
}

/// The whitespace-delimited words of a text, in order: the maximal runs of
/// non-space characters.
pub open spec fn tokens(s: Seq<char>) -> Seq<Seq<char>>
    decreases s.len(),
    via tokens_decreases
{
    if s.len() == 0 {
        Seq::empty()
    } else if is_space(s[0]) {
        tokens(s.skip(1))
    } else {
        seq![s.take(token_end(s))] + tokens(s.skip(token_end(s)))
    }
}

#[via_fn]
proof fn tokens_decreases(s: Seq<char>) {
    if s.len() != 0 && !is_space(s[0]) {
        lemma_token_end_bounds(s);
    }
}

/// Splits `text` into its whitespace-delimited words.
pub fn split_tokens(text: &str) -> (r: Vec<String>)
    ensures
        r.deep_view() == tokens(text@),
{
    let m = text.unicode_len();
    let mut r: Vec<String> = Vec::new();
    let mut i: usize = 0;
    proof {
        assert(text@.skip(0) =~= text@);
        assert(r.deep_view() + tokens(text@) =~= tokens(text@));
    }
    while i < m
        invariant
            i <= m,
            m == text@.len(),
            tokens(text@) == r.deep_view() + tokens(text@.skip(i as int)),
        decreases m - i,
    {
        if is_space_char(text.get_char(i)) {
            proof {
                assert(text@.skip(i as int).skip(1) =~= text@.skip(i + 1));
            }
            i += 1;
        } else {
            let ghost rest = text@.skip(i as int);
            let mut j: usize = i + 1;
            while j < m && !is_space_char(text.get_char(j))
                invariant
                    i < j <= m,
                    m == text@.len(),
                    forall|k: int| i <= k < j ==> !is_space(#[trigger] text@[k]),
                decreases m - j,
            {
                j += 1;
            }
            proof {
                assert(forall|k: int|
                    0 <= k < j - i ==> !is_space(#[trigger] rest[k]));
                assert(j - i == rest.len() || is_space(rest[j - i]));
                lemma_token_end_run(rest, j - i);
                assert(rest.take(j - i) =~= text@.subrange(i as int, j as int));
                assert(rest.skip(j - i) =~= text@.skip(j as int));
            }
            let tok = text.substring_char(i, j).to_owned();
            let ghost old_r = r.deep_view();
            r.push(tok);
            proof {
                assert(r.deep_view() =~= old_r.push(tok@));
                assert(old_r.push(tok@) + tokens(text@.skip(j as int)) =~= old_r + (seq![
                    tok@,
                ] + tokens(text@.skip(j as int))));
            }
            i = j;
        }
    }
    proof {
        assert(text@.skip(m as int) =~= Seq::<char>::empty());
        assert(r.deep_view() + tokens(Seq::<char>::empty()) =~= r.deep_view());
    }
    r
}

/// Decides whether `literal` is a subsequence of `text`, scanning `text` left
/// to right and advancing a cursor into `literal` on each exact character
/// match.
pub fn check_string_involve(literal: &str, text: &str) -> (r: bool)
    ensures
        r == subseq_of(literal@, text@),
{
    let n = literal.unicode_len();
    let m = text.unicode_len();
    let mut li: usize = 0;
    let mut ti: usize = 0;
    proof {
        assert(literal@.skip(0) =~= literal@);
        assert(text@.skip(0) =~= text@);
    }
    while li < n && ti < m
        invariant
            li <= n,
            ti <= m,
            n == literal@.len(),
            m == text@.len(),
            subseq_of(literal@, text@) == subseq_of(
                literal@.skip(li as int),
                text@.skip(ti as int),
            ),
        decreases m - ti,
    {
        let lc = literal.get_char(li);
        let tc = text.get_char(ti);
        proof {
            assert(literal@.skip(li as int)[0] == literal@[li as int]);
            assert(text@.skip(ti as int)[0] == text@[ti as int]);
            if lc == tc {
                assert(literal@.skip(li as int).skip(1) =~= literal@.skip(li + 1));
            }
            assert(text@.skip(ti as int).skip(1) =~= text@.skip(ti + 1));
        }
        if lc == tc {
            li += 1;
        }
        ti += 1;
    }
    proof {
        if li == n {
            assert(literal@.skip(n as int) =~= Seq::<char>::empty());
        }
    }
    li == n
}

} // verus!

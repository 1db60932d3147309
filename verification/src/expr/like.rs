//! Turning user text into a `LIKE` pattern that matches it literally.
use vstd::prelude::*;
use crate::text::{chars_of, string_from_chars};

verus! {

/// `text` with every `%`, `_` and `escape` prefixed by `escape`.
pub open spec fn like_literal(text: Seq<char>, escape: char) -> Seq<char>
    decreases text.len(),
{
    if text.len() == 0 {
        seq![]
    } else {
        let c = text.last();
        like_literal(text.drop_last(), escape) + (if c == '%' || c == '_' || c == escape {
            seq![escape, c]
        } else {
            seq![c]
        })
    }
}

/// What a pattern matches literally under `LIKE … ESCAPE escape`: an
/// `escape` followed by any character stands for that character; every other
/// character stands for itself. Defined for patterns read left to right.
pub open spec fn like_unescape(pattern: Seq<char>, escape: char) -> Seq<char>
    decreases pattern.len(),
{
    if pattern.len() == 0 {
        seq![]
    } else if pattern[0] == escape && pattern.len() >= 2 {
        seq![pattern[1]] + like_unescape(pattern.skip(2), escape)
    } else {
        seq![pattern[0]] + like_unescape(pattern.drop_first(), escape)
    }
}

/// Whether `pattern` holds an unescaped `%` or `_`, which would match more
/// than one string.
pub open spec fn has_open_wildcard(pattern: Seq<char>, escape: char) -> bool
    decreases pattern.len(),
{
    if pattern.len() == 0 {
        false
    } else if pattern[0] == escape && pattern.len() >= 2 {
        has_open_wildcard(pattern.skip(2), escape)
    } else {
        pattern[0] == '%' || pattern[0] == '_' || has_open_wildcard(pattern.drop_first(), escape)
    }
}

/// Prefix every `%`, `_` and `escape` in `text` with `escape`, returning a
/// pattern that matches `text` literally under `LIKE … ESCAPE escape`.
///
/// Wrap the result in `%…%` yourself when you want a contains-search.
pub fn like_pattern_literal(text: &str, escape: char) -> (r: String)
    ensures
        r@ == like_literal(text@, escape),
{
    let s = chars_of(text);
    let mut out: Vec<char> = Vec::new();
    let mut i: usize = 0;
    while i < s.len()
        invariant
            i <= s.len(),
            out@ == like_literal(s@.take(i as int), escape),
        decreases s.len() - i,
    {
        let c = s[i];
        if c == '%' || c == '_' || c == escape {
            out.push(escape);
        }
        out.push(c);
        i = i + 1;
        assert(s@.take(i as int).drop_last() =~= s@.take(i - 1));
    }
    assert(s@.take(s.len() as int) =~= s@);
    string_from_chars(&out)
}

proof fn lemma_unescape_append(p: Seq<char>, q: Seq<char>, escape: char)
    requires
        !ends_in_lone_escape(p, escape),
    ensures
        like_unescape(p + q, escape) == like_unescape(p, escape) + like_unescape(q, escape),
        has_open_wildcard(p + q, escape) == (has_open_wildcard(p, escape) || has_open_wildcard(q, escape)),
    decreases p.len(),
{
    if p.len() == 0 {
        assert(p + q =~= q);
    } else if p[0] == escape && p.len() >= 2 {
        assert((p + q).skip(2) =~= p.skip(2) + q);
        assert(!ends_in_lone_escape(p.skip(2), escape)) by {
            lemma_lone_escape_skip(p, escape, 2);
        }
        lemma_unescape_append(p.skip(2), q, escape);
    } else {
        assert((p + q).drop_first() =~= p.drop_first() + q);
        if p[0] == escape {
            assert(p.len() == 1);
            assert(ends_in_lone_escape(p, escape));
        }
        assert(!ends_in_lone_escape(p.drop_first(), escape)) by {
            lemma_lone_escape_skip(p, escape, 1);
        }
        lemma_unescape_append(p.drop_first(), q, escape);
    }
}

/// Whether reading `p` left to right ends on an escape with nothing after it.
pub open spec fn ends_in_lone_escape(p: Seq<char>, escape: char) -> bool
    decreases p.len(),
{
    if p.len() == 0 {
        false
    } else if p[0] == escape && p.len() >= 2 {
        ends_in_lone_escape(p.skip(2), escape)
    } else if p[0] == escape {
        true
    } else {
        ends_in_lone_escape(p.drop_first(), escape)
    }
}

proof fn lemma_lone_escape_skip(p: Seq<char>, escape: char, n: int)
    requires
        !ends_in_lone_escape(p, escape),
        p.len() > 0,
        (n == 2 && p[0] == escape && p.len() >= 2) || (n == 1 && p[0] != escape),
    ensures
        !ends_in_lone_escape(p.skip(n), escape),
{
    if n == 1 {
        assert(p.skip(1) =~= p.drop_first());
    }
}

proof fn lemma_literal_shape(text: Seq<char>, escape: char)
    ensures
        !ends_in_lone_escape(like_literal(text, escape), escape),
        like_unescape(like_literal(text, escape), escape) == text,
        !has_open_wildcard(like_literal(text, escape), escape),
    decreases text.len(),
{
    if text.len() > 0 {
        let c = text.last();
        let prefix = like_literal(text.drop_last(), escape);
        lemma_literal_shape(text.drop_last(), escape);
        let piece = if c == '%' || c == '_' || c == escape { seq![escape, c] } else { seq![c] };
        if c == '%' || c == '_' || c == escape {
            assert(piece.skip(2) =~= Seq::<char>::empty());
            assert(!ends_in_lone_escape(piece.skip(2), escape));
            assert(!has_open_wildcard(piece.skip(2), escape));
            assert(like_unescape(piece.skip(2), escape) =~= Seq::<char>::empty());
            assert(like_unescape(piece, escape) =~= seq![c]);
        } else {
            assert(piece.drop_first() =~= Seq::<char>::empty());
            assert(!ends_in_lone_escape(piece.drop_first(), escape));
            assert(!has_open_wildcard(piece.drop_first(), escape));
            assert(like_unescape(piece.drop_first(), escape) =~= Seq::<char>::empty());
            assert(like_unescape(piece, escape) =~= seq![c]);
        }
        assert(!ends_in_lone_escape(piece, escape));
        assert(!has_open_wildcard(piece, escape));
        lemma_unescape_append(prefix, piece, escape);
        lemma_lone_escape_append(prefix, piece, escape);
        assert(text.drop_last() + seq![c] =~= text);
    }
}

proof fn lemma_lone_escape_append(p: Seq<char>, q: Seq<char>, escape: char)
    requires
        !ends_in_lone_escape(p, escape),
        !ends_in_lone_escape(q, escape),
    ensures
        !ends_in_lone_escape(p + q, escape),
    decreases p.len(),
{
    if p.len() == 0 {
        assert(p + q =~= q);
    } else if p[0] == escape && p.len() >= 2 {
        assert((p + q).skip(2) =~= p.skip(2) + q);
        lemma_lone_escape_skip(p, escape, 2);
        lemma_lone_escape_append(p.skip(2), q, escape);
    } else {
        assert(p[0] != escape);
        assert((p + q).drop_first() =~= p.drop_first() + q);
        lemma_lone_escape_skip(p, escape, 1);
        lemma_lone_escape_append(p.drop_first(), q, escape);
    }
}

/// The pattern [`like_pattern_literal`] builds matches its text literally:
/// read back under `LIKE … ESCAPE escape` it is exactly `text`, and it holds
/// no unescaped wildcard.
pub proof fn lemma_like_pattern_literal_matches_text(text: Seq<char>, escape: char)
    ensures
        like_unescape(like_literal(text, escape), escape) == text,
        !has_open_wildcard(like_literal(text, escape), escape),
{
    lemma_literal_shape(text, escape);
}

} // verus!

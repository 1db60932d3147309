//! Double-quoting of a SQL identifier, with the embedded-quote escape.
use vstd::prelude::*;
use crate::text::{chars_of, string_from_chars};

verus! {

/// `s` with every double quote doubled.
pub open spec fn escape_quotes(s: Seq<char>) -> Seq<char>
    decreases s.len(),
{
    if s.len() == 0 {
        seq![]
    } else {
        escape_quotes(s.drop_last()) + (if s.last() == '"' {
            seq!['"', '"']
        } else {
            seq![s.last()]
        })
    }
}

/// `"s"`, with every interior double quote doubled.
pub open spec fn quoted(s: Seq<char>) -> Seq<char> {
    seq!['"'] + escape_quotes(s) + seq!['"']
}

/// Appends `src` with every double quote doubled to `out`.
pub fn push_escaped(out: &mut Vec<char>, src: &Vec<char>)
    ensures
        final(out)@ == old(out)@ + escape_quotes(src@),
{
    let mut i: usize = 0;
    while i < src.len()
        invariant
            i <= src.len(),
            out@ == old(out)@ + escape_quotes(src@.take(i as int)),
        decreases src.len() - i,
    {
        let c = src[i];
        if c == '"' {
            out.push('"');
            out.push('"');
        } else {
            out.push(c);
        }
        i = i + 1;
        assert(src@.take(i as int).drop_last() == src@.take((i - 1) as int));
    }
    assert(src@.take(src.len() as int) == src@);
}

/// A double-quoted identifier; an embedded double quote doubles.
///
/// Doubling is the only escape a delimited identifier has in SQLite, Postgres,
/// and Lance, and no other character is special inside the quotes. Once every
/// interior quote is doubled the sole unpaired quotes are the delimiters, so a
/// backslash, `;`, a newline or `--` inside a name are ordinary characters of
/// it rather than a way out of the identifier.
pub fn quote_ident(ident: &str) -> (r: String)
    ensures
        r@ == quoted(ident@),
{
    let src = chars_of(ident);
    let mut out: Vec<char> = Vec::new();
    out.push('"');
    push_escaped(&mut out, &src);
    out.push('"');
    string_from_chars(&out)
}

} // verus!

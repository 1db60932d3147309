//! Placeholder renumbering shared by every raw-SQL node.
use vstd::prelude::*;
use crate::dialect::{Dialect, param_sql};
use crate::text::{is_digit, digit_value, digits_value, chars_of, string_from_chars, push_decimal};

verus! {

/// How many ASCII digits `s` starts with.
pub open spec fn digit_run_len(s: Seq<char>) -> nat
    decreases s.len(),
{
    if s.len() > 0 && is_digit(s[0]) {
        1 + digit_run_len(s.drop_first())
    } else {
        0
    }
}

/// Which of a fragment's own values a `?`-token addresses and the index it
/// renders at, or `None` when the token is not a placeholder: `?0`, or digits
/// no `usize` can hold or shift by `offset`. A bare `?` (no digits) takes one
/// more than the largest number assigned so far.
pub open spec fn placeholder_spec(digits: Seq<char>, highest: nat, offset: nat) -> Option<(nat, nat)> {
    let number: Option<nat> = if digits.len() == 0 {
        if highest + 1 <= usize::MAX { Some((highest + 1) as nat) } else { None }
    } else {
        let v = digits_value(digits);
        if 1 <= v && v <= usize::MAX { Some(v) } else { None }
    };
    match number {
        Some(n) => if n + offset <= usize::MAX { Some((n, (n + offset) as nat)) } else { None },
        None => None,
    }
}

/// The larger of two numbers.
pub open spec fn max_nat(a: nat, b: nat) -> nat {
    if a >= b { a } else { b }
}

/// A raw fragment with its placeholders renumbered in its own frame.
///
/// Every `?N` (`N >= 1`) becomes the dialect's placeholder for `N + offset`;
/// a bare `?` takes one more than the largest number assigned so far;
/// anything that is not a placeholder this renderer owns stays verbatim.
pub open spec fn raw_render(s: Seq<char>, highest: nat, offset: nat, d: Dialect) -> Seq<char>
    decreases s.len(),
{
    if s.len() == 0 {
        seq![]
    } else if s[0] != '?' {
        seq![s[0]] + raw_render(s.drop_first(), highest, offset, d)
    } else {
        let rest = s.drop_first();
        let n = digit_run_len(rest);
        if n <= rest.len() {
            let digits = rest.take(n as int);
            let after = rest.skip(n as int);
            match placeholder_spec(digits, highest, offset) {
                Some((number, index)) => param_sql(d, index) + raw_render(
                    after,
                    max_nat(highest, number),
                    offset,
                    d,
                ),
                None => seq!['?'] + digits + raw_render(after, highest, offset, d),
            }
        } else {
            seq![]
        }
    }
}

/// A raw fragment rendered with its first value at `start`.
pub open spec fn raw_fragment(sql: Seq<char>, start: nat, d: Dialect) -> Seq<char> {
    raw_render(sql, 0, if start == 0 { 0 } else { (start - 1) as nat }, d)
}

proof fn lemma_digit_run_len_bound(s: Seq<char>)
    ensures
        digit_run_len(s) <= s.len(),
        forall|k: int| 0 <= k < digit_run_len(s) ==> is_digit(#[trigger] s[k]),
        digit_run_len(s) < s.len() ==> !is_digit(s[digit_run_len(s) as int]),
    decreases s.len(),
{
    if s.len() > 0 && is_digit(s[0]) {
        lemma_digit_run_len_bound(s.drop_first());
        assert forall|k: int| 0 <= k < digit_run_len(s) implies is_digit(#[trigger] s[k]) by {
            if k > 0 {
                assert(s[k] == s.drop_first()[k - 1]);
            }
        }
    }
}

proof fn lemma_digit_run_len_exact(s: Seq<char>, n: nat)
    requires
        n <= s.len(),
        forall|k: int| 0 <= k < n ==> is_digit(#[trigger] s[k]),
        n < s.len() ==> !is_digit(s[n as int]),
    ensures
        digit_run_len(s) == n,
    decreases n,
{
    if n > 0 {
        assert(is_digit(s[0]));
        assert forall|k: int| 0 <= k < n - 1 implies is_digit(#[trigger] s.drop_first()[k]) by {
            assert(s.drop_first()[k] == s[k + 1]);
        }
        lemma_digit_run_len_exact(s.drop_first(), (n - 1) as nat);
    } else {
        if s.len() > 0 {
            assert(!is_digit(s[0]));
        }
    }
}

proof fn lemma_digits_value_step(s: Seq<char>, k: int)
    requires
        0 <= k < s.len(),
    ensures
        digits_value(s.take(k + 1)) == digits_value(s.take(k)) * 10 + digit_value(s[k]),
{
    assert(s.take(k + 1).drop_last() =~= s.take(k));
}

/// The digit run directly after a `?` at `i - 1`: the index one past it.
fn take_digits(s: &Vec<char>, i: usize) -> (j: usize)
    requires
        i <= s.len(),
    ensures
        i <= j <= s.len(),
        j - i == digit_run_len(s@.skip(i as int)),
{
    let mut j: usize = i;
    while j < s.len() && '0' <= s[j] && s[j] <= '9'
        invariant
            i <= j <= s.len(),
            forall|k: int| i <= k < j ==> is_digit(#[trigger] s@[k]),
        decreases s.len() - j,
    {
        j = j + 1;
    }
    proof {
        let t = s@.skip(i as int);
        assert forall|k: int| 0 <= k < j - i implies is_digit(#[trigger] t[k]) by {
            assert(t[k] == s@[i + k]);
        }
        if j < s.len() {
            assert(t[j - i] == s@[j as int]);
        }
        lemma_digit_run_len_exact(t, (j - i) as nat);
    }
    j
}

/// The value of the digit run `s[from..to]`, or `None` when no `usize`
/// holds it.
fn parse_digits(s: &Vec<char>, from: usize, to: usize) -> (r: Option<usize>)
    requires
        from <= to <= s.len(),
        forall|k: int| from <= k < to ==> is_digit(#[trigger] s@[k]),
    ensures
        match r {
            Some(v) => v == digits_value(s@.subrange(from as int, to as int)),
            None => digits_value(s@.subrange(from as int, to as int)) > usize::MAX,
        },
{
    let ghost t = s@.subrange(from as int, to as int);
    let mut value: usize = 0;
    let mut overflow = false;
    let mut j: usize = from;
    while j < to
        invariant
            from <= j <= to,
            to <= s.len(),
            t == s@.subrange(from as int, to as int),
            forall|k: int| from <= k < to ==> is_digit(#[trigger] s@[k]),
            !overflow ==> value == digits_value(t.take(j - from)),
            overflow ==> digits_value(t.take(j - from)) > usize::MAX,
        decreases to - j,
    {
        let c = s[j];
        assert(is_digit(s@[j as int]));
        let d: u32 = (c as u32) - ('0' as u32);
        proof {
            lemma_digits_value_step(t, (j - from) as int);
            assert(t[j - from] == c);
        }
        if !overflow {
            match value.checked_mul(10) {
                Some(m) => match m.checked_add(d as usize) {
                    Some(v) => {
                        value = v;
                    },
                    None => {
                        overflow = true;
                    },
                },
                None => {
                    overflow = true;
                },
            }
        }
        j = j + 1;
    }
    assert(t.take(to - from) =~= t);
    if overflow { None } else { Some(value) }
}

/// Which of the fragment's own values a token addresses and the index it
/// renders at, or `None` when the token is not a placeholder.
fn placeholder(number: Option<usize>, bare: bool, highest: usize, offset: usize) -> (r: Option<(usize, usize)>)
    ensures
        bare ==> match r {
            Some((n, ix)) => highest + 1 <= usize::MAX && n == highest + 1 && n + offset <= usize::MAX
                && ix == n + offset,
            None => highest + 1 > usize::MAX || highest + 1 + offset > usize::MAX,
        },
        !bare ==> match r {
            Some((n, ix)) => number == Some(n) && n >= 1 && n + offset <= usize::MAX && ix == n + offset,
            None => match number {
                Some(n) => n < 1 || n + offset > usize::MAX,
                None => true,
            },
        },
{
    let n = if bare {
        match highest.checked_add(1) {
            Some(n) => n,
            None => return None,
        }
    } else {
        match number {
            Some(n) => if n >= 1 { n } else { return None },
            None => return None,
        }
    };
    match n.checked_add(offset) {
        Some(ix) => Some((n, ix)),
        None => None,
    }
}

/// Appends the dialect's placeholder for `index`.
pub fn push_param(out: &mut Vec<char>, d: Dialect, index: usize)
    ensures
        final(out)@ == old(out)@ + param_sql(d, index as nat),
{
    match d {
        Dialect::Postgres => out.push('$'),
        _ => out.push('?'),
    }
    push_decimal(out, index);
}

/// Renders a fragment's placeholders in its own frame, where `start` is the
/// index its first value takes. Every number is shifted by `start - 1`, so a
/// placeholder always names the value it was written for.
///
/// - `?N` (`N >= 1`) addresses the fragment's own `N`-th value; the same `N`
///   twice is one parameter referenced twice.
/// - A bare `?` takes one more than the largest number assigned so far.
/// - `?0`, and a digit run that no `usize` can hold or shift, are not
///   placeholders: emitted verbatim.
pub fn number_raw_params(sql: &str, start: usize, dialect: Dialect) -> (r: String)
    ensures
        r@ == raw_fragment(sql@, start as nat, dialect),
{
    let s = chars_of(sql);
    let offset: usize = if start == 0 { 0 } else { start - 1 };
    let mut out: Vec<char> = Vec::new();
    let mut highest: usize = 0;
    let mut i: usize = 0;
    assert(s@.skip(0) =~= s@);
    while i < s.len()
        invariant
            i <= s.len(),
            out@ + raw_render(s@.skip(i as int), highest as nat, offset as nat, dialect)
                == raw_render(s@, 0, offset as nat, dialect),
        decreases s.len() - i,
    {
        let ghost t = s@.skip(i as int);
        let c = s[i];
        assert(t[0] == c);
        if c != '?' {
            out.push(c);
            i = i + 1;
            assert(t.drop_first() =~= s@.skip(i as int));
        } else {
            let j = take_digits(&s, i + 1);
            let ghost rest = t.drop_first();
            assert(rest =~= s@.skip(i + 1));
            proof {
                lemma_digit_run_len_bound(rest);
            }
            let ghost digits = rest.take((j - i - 1) as int);
            assert(digits =~= s@.subrange(i + 1, j as int));
            assert(rest.skip((j - i - 1) as int) =~= s@.skip(j as int));
            assert forall|k: int| i + 1 <= k < j implies is_digit(#[trigger] s@[k]) by {
                assert(s@[k] == rest[k - i - 1]);
            }
            let bare = j == i + 1;
            let number = if bare { None } else { parse_digits(&s, i + 1, j) };
            match placeholder(number, bare, highest, offset) {
                Some((n, index)) => {
                    push_param(&mut out, dialect, index);
                    if n > highest {
                        highest = n;
                    }
                },
                None => {
                    out.push('?');
                    let mut k: usize = i + 1;
                    let ghost base = out@;
                    while k < j
                        invariant
                            i + 1 <= k <= j,
                            j <= s.len(),
                            out@ == base + s@.subrange(i + 1, k as int),
                        decreases j - k,
                    {
                        out.push(s[k]);
                        k = k + 1;
                        assert(s@.subrange(i + 1, k as int) =~= s@.subrange(i + 1, k - 1).push(s@[k - 1]));
                    }
                },
            }
            i = j;
        }
    }
    assert(s@.skip(i as int) =~= Seq::<char>::empty());
    string_from_chars(&out)
}

/// `parts` joined by bare `?`s: `parts[0] ? parts[1] ? … parts[n]`.
pub open spec fn join_bare(parts: Seq<Seq<char>>) -> Seq<char>
    decreases parts.len(),
{
    if parts.len() == 0 {
        seq![]
    } else if parts.len() == 1 {
        parts[0]
    } else {
        parts[0] + (seq!['?'] + join_bare(parts.drop_first()))
    }
}

/// `parts` joined by the placeholders `first`, `first + 1`, … in turn.
pub open spec fn join_numbered(parts: Seq<Seq<char>>, d: Dialect, first: nat) -> Seq<char>
    decreases parts.len(),
{
    if parts.len() == 0 {
        seq![]
    } else if parts.len() == 1 {
        parts[0]
    } else {
        parts[0] + (param_sql(d, first) + join_numbered(parts.drop_first(), d, first + 1))
    }
}

proof fn lemma_raw_render_plain_prefix(p: Seq<char>, t: Seq<char>, highest: nat, offset: nat, d: Dialect)
    requires
        !p.contains('?'),
    ensures
        raw_render(p + t, highest, offset, d) == p + raw_render(t, highest, offset, d),
    decreases p.len(),
{
    if p.len() > 0 {
        assert((p + t)[0] == p[0]);
        assert((p + t).drop_first() =~= p.drop_first() + t);
        assert(!p.drop_first().contains('?')) by {
            if p.drop_first().contains('?') {
                let k: int = choose|k: int| 0 <= k < p.drop_first().len() && p.drop_first()[k] == '?';
                assert(p[k + 1] == '?');
            }
        }
        lemma_raw_render_plain_prefix(p.drop_first(), t, highest, offset, d);
        assert(p + raw_render(t, highest, offset, d) =~= seq![p[0]] + (p.drop_first() + raw_render(
            t,
            highest,
            offset,
            d,
        )));
    } else {
        assert(p + t =~= t);
        assert(p + raw_render(t, highest, offset, d) =~= raw_render(t, highest, offset, d));
    }
}

proof fn lemma_join_bare_numbered(parts: Seq<Seq<char>>, highest: nat, offset: nat, d: Dialect)
    requires
        parts.len() >= 1,
        forall|i: int| 0 <= i < parts.len() ==> !(#[trigger] parts[i]).contains('?'),
        forall|i: int| 1 <= i < parts.len() ==> (#[trigger] parts[i]).len() == 0 || !is_digit(parts[i][0]),
        highest + parts.len() + offset <= usize::MAX + 1,
    ensures
        raw_render(join_bare(parts), highest, offset, d) == join_numbered(parts, d, highest + 1 + offset),
    decreases parts.len(),
{
    if parts.len() == 1 {
        assert(!parts[0].contains('?'));
        lemma_raw_render_plain_prefix(parts[0], seq![], highest, offset, d);
        assert(parts[0] + Seq::<char>::empty() =~= parts[0]);
    } else {
        let rest_parts = parts.drop_first();
        assert forall|i: int| 0 <= i < rest_parts.len() implies !(#[trigger] rest_parts[i]).contains('?') by {
            assert(rest_parts[i] == parts[i + 1]);
        }
        assert forall|i: int| 1 <= i < rest_parts.len() implies (#[trigger] rest_parts[i]).len() == 0 || !is_digit(
            rest_parts[i][0],
        ) by {
            assert(rest_parts[i] == parts[i + 1]);
        }
        lemma_join_bare_numbered(rest_parts, highest + 1, offset, d);
        let rest = join_bare(rest_parts);
        // what follows the `?` does not start with a digit
        assert(rest.len() == 0 || !is_digit(rest[0])) by {
            assert(rest_parts[0] == parts[1]);
            if rest_parts.len() == 1 {
                assert(rest == parts[1]);
            } else {
                assert(rest == parts[1] + (seq!['?'] + join_bare(rest_parts.drop_first())));
                if parts[1].len() == 0 {
                    assert(rest[0] == '?');
                } else {
                    assert(rest[0] == parts[1][0]);
                }
            }
        }
        let q = seq!['?'] + rest;
        assert(q[0] == '?');
        assert(q.drop_first() =~= rest);
        assert(digit_run_len(rest) == 0);
        assert(rest.take(0) =~= Seq::<char>::empty());
        assert(rest.skip(0) =~= rest);
        assert(placeholder_spec(Seq::<char>::empty(), highest, offset) == Some(
            ((highest + 1) as nat, (highest + 1 + offset) as nat),
        ));
        assert(raw_render(q, highest, offset, d) == param_sql(d, highest + 1 + offset) + raw_render(
            rest,
            highest + 1,
            offset,
            d,
        ));
        assert(!parts[0].contains('?'));
        lemma_raw_render_plain_prefix(parts[0], q, highest, offset, d);
    }
}

/// Bare `?`s are numbered in turn: in a fragment whose only placeholders are
/// bare `?`s (no `?` inside the text between them, and no digit right after
/// one), the first renders at `start`, the next at `start + 1`, and so on —
/// each takes one more than the last, so no two address the same value.
pub proof fn lemma_bare_placeholders_count_up(parts: Seq<Seq<char>>, start: nat, d: Dialect)
    requires
        parts.len() >= 1,
        forall|i: int| 0 <= i < parts.len() ==> !(#[trigger] parts[i]).contains('?'),
        forall|i: int| 1 <= i < parts.len() ==> (#[trigger] parts[i]).len() == 0 || !is_digit(parts[i][0]),
        1 <= start,
        start + parts.len() <= usize::MAX + 2,
    ensures
        raw_fragment(join_bare(parts), start, d) == join_numbered(parts, d, start),
{
    lemma_join_bare_numbered(parts, 0, (start - 1) as nat, d);
}

/// A bare `?` after a numbered `?N` takes `N + 1`: in
/// `p0 ?N p1 ? p2` (no other `?`, no digit right after either token) the
/// numbered placeholder renders at `N + start - 1` and the bare one at
/// `N + start`, never at an index an earlier placeholder already took.
pub proof fn lemma_bare_after_numbered(
    p0: Seq<char>,
    digits: Seq<char>,
    p1: Seq<char>,
    p2: Seq<char>,
    start: nat,
    d: Dialect,
)
    requires
        !p0.contains('?'),
        !p1.contains('?'),
        !p2.contains('?'),
        digits.len() > 0,
        forall|k: int| 0 <= k < digits.len() ==> is_digit(#[trigger] digits[k]),
        p1.len() == 0 || !is_digit(p1[0]),
        p2.len() == 0 || !is_digit(p2[0]),
        1 <= digits_value(digits),
        1 <= start,
        digits_value(digits) + start <= usize::MAX,
    ensures
        raw_fragment(p0 + (seq!['?'] + digits) + p1 + (seq!['?'] + p2), start, d) == p0 + param_sql(
            d,
            (digits_value(digits) + start - 1) as nat,
        ) + p1 + param_sql(d, digits_value(digits) + start) + p2,
{
    let o = (start - 1) as nat;
    let n = digits_value(digits);
    // the bare `?` and what follows it
    let tail = seq!['?'] + p2;
    assert(tail[0] == '?');
    assert(tail.drop_first() =~= p2);
    assert(digit_run_len(p2) == 0);
    assert(p2.take(0) =~= Seq::<char>::empty());
    assert(p2.skip(0) =~= p2);
    lemma_raw_render_plain_prefix(p2, seq![], n + 1, o, d);
    assert(p2 + Seq::<char>::empty() =~= p2);
    assert(placeholder_spec(Seq::<char>::empty(), n, o) == Some(((n + 1) as nat, (n + 1 + o) as nat)));
    assert(raw_render(p2, n + 1, o, d) == p2);
    assert(raw_render(tail, n, o, d) == param_sql(d, n + 1 + o) + p2);
    // the numbered `?N`, then the text up to the bare one
    let rest = digits + (p1 + tail);
    assert forall|k: int| 0 <= k < digits.len() implies is_digit(#[trigger] rest[k]) by {
        assert(rest[k] == digits[k]);
    }
    if digits.len() < rest.len() {
        if p1.len() > 0 {
            assert(rest[digits.len() as int] == p1[0]);
        } else {
            assert(rest[digits.len() as int] == '?');
        }
    }
    lemma_digit_run_len_exact(rest, digits.len());
    assert(rest.take(digits.len() as int) =~= digits);
    assert(rest.skip(digits.len() as int) =~= p1 + tail);
    let head = seq!['?'] + rest;
    assert(head[0] == '?');
    assert(head.drop_first() =~= rest);
    lemma_raw_render_plain_prefix(p1, tail, n, o, d);
    assert(raw_render(head, 0, o, d) == param_sql(d, n + o) + (p1 + raw_render(tail, n, o, d)));
    lemma_raw_render_plain_prefix(p0, head, 0, o, d);
    assert(p0 + (seq!['?'] + digits) + p1 + (seq!['?'] + p2) =~= p0 + head);
    assert(p0 + (param_sql(d, n + o) + (p1 + (param_sql(d, n + 1 + o) + p2))) =~= p0 + param_sql(d, n + o) + p1
        + param_sql(d, n + 1 + o) + p2);
}

} // verus!

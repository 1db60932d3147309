//! The values a statement binds to its placeholders.
use vstd::prelude::*;

verus! {

/// One bound parameter.
#[derive(Debug)]
pub enum Value {
    /// SQL `NULL`.
    Null,
    /// A 64-bit integer.
    Integer(i64),
    /// A text value.
    Text(String),
    /// A byte string.
    Blob(Vec<u8>),
}

/// What a [`Value`] holds, as mathematical data.
pub enum ValueView {
    Null,
    Integer(i64),
    Text(Seq<char>),
    Blob(Seq<u8>),
}

impl View for Value {
    type V = ValueView;

    open spec fn view(&self) -> ValueView {
        match self {
            Value::Null => ValueView::Null,
            Value::Integer(i) => ValueView::Integer(*i),
            Value::Text(s) => ValueView::Text(s@),
            Value::Blob(b) => ValueView::Blob(b@),
        }
    }
}

/// The views of a sequence of values, in order.
pub open spec fn values_view(v: Seq<Value>) -> Seq<ValueView> {
    v.map_values(|x: Value| x@)
}

/// A byte-for-byte copy of `b`.
fn copy_bytes(b: &Vec<u8>) -> (r: Vec<u8>)
    ensures
        r@ == b@,
{
    let mut out: Vec<u8> = Vec::new();
    let mut i: usize = 0;
    while i < b.len()
        invariant
            i <= b.len(),
            out@ == b@.take(i as int),
        decreases b.len() - i,
    {
        out.push(b[i]);
        i = i + 1;
        assert(b@.take(i as int) == b@.take((i - 1) as int).push(b@[i - 1]));
    }
    assert(b@.take(b.len() as int) == b@);
    out
}

impl Value {
    /// A copy of this value holding the same data.
    pub fn duplicate(&self) -> (r: Value)
        ensures
            r@ == self@,
    {
        match self {
            Value::Null => Value::Null,
            Value::Integer(i) => Value::Integer(*i),
            Value::Text(s) => Value::Text(s.clone()),
            Value::Blob(b) => Value::Blob(copy_bytes(b)),
        }
    }

    /// A text value holding the characters of `s`.
    pub fn text(s: &str) -> (r: Value)
        ensures
            r@ == ValueView::Text(s@),
    {
        Value::Text(s.to_string())
    }
}

impl Clone for Value {
    fn clone(&self) -> (r: Self)
        ensures
            r@ == self@,
    {
        self.duplicate()
    }
}

/// A copy of every value in `v`, in order.
pub fn copy_values(v: &Vec<Value>) -> (r: Vec<Value>)
    ensures
        values_view(r@) == values_view(v@),
{
    let mut out: Vec<Value> = Vec::new();
    let mut i: usize = 0;
    while i < v.len()
        invariant
            i <= v.len(),
            values_view(out@) == values_view(v@.take(i as int)),
        decreases v.len() - i,
    {
        out.push(v[i].duplicate());
        i = i + 1;
        assert(values_view(v@.take(i as int)) =~= values_view(v@.take((i - 1) as int)).push(
            v@[i - 1]@,
        ));
        assert(values_view(out@) =~= values_view(v@.take(i as int)));
    }
    assert(v@.take(v.len() as int) == v@);
    out
}

/// A copy of every value in the slice `v`, in order.
pub fn copy_slice(v: &[Value]) -> (r: Vec<Value>)
    ensures
        values_view(r@) == values_view(v@),
{
    let mut out: Vec<Value> = Vec::new();
    let mut i: usize = 0;
    while i < v.len()
        invariant
            i <= v.len(),
            values_view(out@) == values_view(v@.take(i as int)),
        decreases v.len() - i,
    {
        let ghost prev = out@;
        out.push(v[i].duplicate());
        i = i + 1;
        assert(values_view(v@.take(i as int)) =~= values_view(v@.take((i - 1) as int)).push(
            v@[i - 1]@,
        ));
        assert(values_view(out@) =~= values_view(prev).push(v@[i - 1]@));
    }
    assert(v@.take(v.len() as int) == v@);
    out
}

/// Appends a copy of every value in `src` to `dst`.
pub fn append_values(dst: &mut Vec<Value>, src: &Vec<Value>)
    ensures
        values_view(final(dst)@) == values_view(old(dst)@) + values_view(src@),
{
    let mut i: usize = 0;
    while i < src.len()
        invariant
            i <= src.len(),
            values_view(dst@) == values_view(old(dst)@) + values_view(src@.take(i as int)),
        decreases src.len() - i,
    {
        let ghost prev = dst@;
        dst.push(src[i].duplicate());
        i = i + 1;
        assert(values_view(dst@) =~= values_view(prev).push(src@[i - 1]@));
        assert(values_view(src@.take(i as int)) =~= values_view(src@.take((i - 1) as int)).push(
            src@[i - 1]@,
        ));
        assert(values_view(dst@) =~= values_view(old(dst)@) + values_view(src@.take(i as int)));
    }
    assert(src@.take(src.len() as int) == src@);
}

} // verus!

//! Dialect-aware SQL rendering of expression trees.
//!
//! Position lives in the [`BoundParams`] buffer: every binding node takes
//! [`BoundParams::next_index`] at the moment it writes, so a node numbers from
//! whatever its siblings already emitted however deeply it is nested.
use vstd::prelude::*;
use crate::dialect::{Dialect, param_sql};
use crate::value::{Value, ValueView, values_view};
use crate::text::{string_from_chars};
use super::binding::{
    BindSource, BoundParams, ListSource, ParamsView, bind_list_spec, bind_spec, next_index, push_value, list_source_values,
};
use super::nodes::{AggregateArg, Expr, ExprKind, Scalar, ScalarKind};
use super::raw_params::{number_raw_params, raw_fragment};

verus! {

/// `parts` separated by `", "`.
pub open spec fn join_comma(parts: Seq<Seq<char>>) -> Seq<char>
    decreases parts.len(),
{
    if parts.len() == 0 {
        seq![]
    } else if parts.len() == 1 {
        parts[0]
    } else {
        join_comma(parts.drop_last()) + ", "@ + parts.last()
    }
}

/// The placeholders `first`, `first + 1`, … (`n` of them), comma-separated.
pub open spec fn param_run(d: Dialect, first: nat, n: nat) -> Seq<char> {
    join_comma(Seq::new(n, |i: int| param_sql(d, (first + i) as nat)))
}

/// `st` with `vals` appended.
pub open spec fn extend_values(st: ParamsView, vals: Seq<ValueView>) -> ParamsView {
    ParamsView { values: st.values + vals, ledger: st.ledger }
}

/// What rendering a predicate node writes, and the buffer state after.
pub open spec fn expr_render(k: ExprKind, st: ParamsView, d: Dialect) -> (Seq<char>, ParamsView)
    decreases k,
{
    match k {
        ExprKind::Comparison { column, op, value } => {
            let (ix, st1) = bind_spec(st, value);
            (column@ + " "@ + op@ + " "@ + param_sql(d, ix), st1)
        },
        ExprKind::InList { column, values, negated } => {
            let (first, n, st1) = bind_list_spec(st, values);
            if n == 0 {
                (if negated { "1 = 1"@ } else { "1 = 0"@ }, st1)
            } else {
                (column@ + (if negated { " NOT IN ("@ } else { " IN ("@ }) + param_run(d, first, n) + ")"@, st1)
            }
        },
        ExprKind::IsNull { column, negated } => {
            (column@ + (if negated { " IS NOT NULL"@ } else { " IS NULL"@ }), st)
        },
        ExprKind::Between { column, low, high } => {
            let st1 = push_value(st, low@);
            let st2 = push_value(st1, high@);
            (column@ + " BETWEEN "@ + param_sql(d, next_index(st)) + " AND "@ + param_sql(d, next_index(st1)), st2)
        },
        ExprKind::Match { target, pattern } => {
            (target@ + " MATCH "@ + param_sql(d, next_index(st)), push_value(st, pattern@))
        },
        ExprKind::TsMatch { document, query_fn, config, pattern } => {
            (
                document@ + " @@ "@ + query_fn@ + "("@ + config@ + ", "@ + param_sql(d, next_index(st)) + ")"@,
                push_value(st, pattern@),
            )
        },
        ExprKind::Compare { left, op, right } => {
            let (l, st1) = scalar_render(left.kind, st, d);
            let (r, st2) = scalar_render(right.kind, st1, d);
            (l + " "@ + op@ + " "@ + r, st2)
        },
        ExprKind::Like { left, pattern, escape } => {
            let (l, st1) = scalar_render(left.kind, st, d);
            let (p, st2) = scalar_render(pattern.kind, st1, d);
            match escape {
                Some(c) => (
                    l + " LIKE "@ + p + " ESCAPE "@ + param_sql(d, next_index(st2)),
                    push_value(st2, ValueView::Text(seq![c])),
                ),
                None => (l + " LIKE "@ + p, st2),
            }
        },
        ExprKind::Exists { query, negated } => {
            let sub = query.select_sql(next_index(st), d);
            ((if negated { "NOT EXISTS ("@ } else { "EXISTS ("@ }) + sub.0 + ")"@, extend_values(st, sub.1))
        },
        ExprKind::InSubquery { left, query, negated } => {
            let (l, st1) = scalar_render(left.kind, st, d);
            let sub = query.select_sql(next_index(st1), d);
            (l + (if negated { " NOT IN ("@ } else { " IN ("@ }) + sub.0 + ")"@, extend_values(st1, sub.1))
        },
        ExprKind::And(a, b) => {
            let (l, st1) = expr_render(a.kind, st, d);
            let (r, st2) = expr_render(b.kind, st1, d);
            ("("@ + l + " AND "@ + r + ")"@, st2)
        },
        ExprKind::Or(a, b) => {
            let (l, st1) = expr_render(a.kind, st, d);
            let (r, st2) = expr_render(b.kind, st1, d);
            ("("@ + l + " OR "@ + r + ")"@, st2)
        },
        ExprKind::Raw { sql, params } => (
            raw_fragment(sql@, next_index(st), d),
            extend_values(st, values_view(params@)),
        ),
    }
}

/// What rendering a scalar node writes, and the buffer state after.
pub open spec fn scalar_render(k: ScalarKind, st: ParamsView, d: Dialect) -> (Seq<char>, ParamsView)
    decreases k,
{
    match k {
        ScalarKind::Raw { sql, params } => (
            raw_fragment(sql@, next_index(st), d),
            extend_values(st, values_view(params@)),
        ),
        ScalarKind::Bind(src) => {
            let (ix, st1) = bind_spec(st, src);
            (param_sql(d, ix), st1)
        },
        ScalarKind::Func { name, args } => {
            let (parts, st1) = args_render(args@, st, d);
            (name@ + "("@ + join_comma(parts) + ")"@, st1)
        },
        ScalarKind::Arith { left, op, right } => {
            let (l, st1) = scalar_render(left.kind, st, d);
            let (r, st2) = scalar_render(right.kind, st1, d);
            ("("@ + l + " "@ + op@ + " "@ + r + ")"@, st2)
        },
        ScalarKind::Case { branches, otherwise } => {
            let (body, st1) = branches_render(branches@, st, d);
            match otherwise {
                Some(o) => {
                    let (e, st2) = scalar_render(o.kind, st1, d);
                    ("CASE"@ + body + " ELSE "@ + e + " END"@, st2)
                },
                None => ("CASE"@ + body + " END"@, st1),
            }
        },
        ScalarKind::Aggregate { func, arg } => match arg {
            AggregateArg::Star => (func@ + "(*)"@, st),
            AggregateArg::All(a) => {
                let (s, st1) = scalar_render(a.kind, st, d);
                (func@ + "("@ + s + ")"@, st1)
            },
            AggregateArg::Distinct(a) => {
                let (s, st1) = scalar_render(a.kind, st, d);
                (func@ + "(DISTINCT "@ + s + ")"@, st1)
            },
        },
        ScalarKind::Subquery(q) => {
            let sub = q.select_sql(next_index(st), d);
            ("("@ + sub.0 + ")"@, extend_values(st, sub.1))
        },
    }
}

/// The rendered arguments of a call, each numbered after the last.
pub open spec fn args_render(args: Seq<Scalar>, st: ParamsView, d: Dialect) -> (Seq<Seq<char>>, ParamsView)
    decreases args,
{
    if args.len() == 0 {
        (seq![], st)
    } else {
        let (parts, st1) = args_render(args.subrange(0, args.len() - 1), st, d);
        let (p, st2) = scalar_render(args[args.len() - 1].kind, st1, d);
        (parts.push(p), st2)
    }
}

/// ` WHEN … THEN …` for every branch, each numbered after the last.
pub open spec fn branches_render(bs: Seq<(Expr, Scalar)>, st: ParamsView, d: Dialect) -> (Seq<char>, ParamsView)
    decreases bs,
{
    if bs.len() == 0 {
        (seq![], st)
    } else {
        let (body, st1) = branches_render(bs.subrange(0, bs.len() - 1), st, d);
        let (w, st2) = expr_render(bs[bs.len() - 1].0.kind, st1, d);
        let (t, st3) = scalar_render(bs[bs.len() - 1].1.kind, st2, d);
        (body + " WHEN "@ + w + " THEN "@ + t, st3)
    }
}

} // verus!

verus! {

/// `b` holds every value `a` holds, at the same positions, and maybe more.
pub open spec fn extends(a: ParamsView, b: ParamsView) -> bool {
    &&& a.values.len() <= b.values.len()
    &&& b.values.subrange(0, a.values.len() as int) == a.values
}

pub(crate) open spec fn raw_node_state(st: ParamsView, vals: Seq<ValueView>) -> ParamsView {
    extend_values(st, vals)
}

pub(crate) proof fn lemma_extends_trans(a: ParamsView, b: ParamsView, c: ParamsView)
    requires
        extends(a, b),
        extends(b, c),
    ensures
        extends(a, c),
{
    assert(c.values.subrange(0, a.values.len() as int) =~= b.values.subrange(0, a.values.len() as int));
}

pub(crate) proof fn lemma_extends_refl(a: ParamsView)
    ensures
        extends(a, a),
{
    assert(a.values.subrange(0, a.values.len() as int) =~= a.values);
}

pub(crate) proof fn lemma_extend_values_extends(st: ParamsView, vals: Seq<ValueView>)
    ensures
        extends(st, extend_values(st, vals)),
        extends(st, raw_node_state(st, vals)),
{
    assert((st.values + vals).subrange(0, st.values.len() as int) =~= st.values);
}

pub(crate) proof fn lemma_push_extends(st: ParamsView, v: ValueView)
    ensures
        extends(st, push_value(st, v)),
{
    assert(st.values.push(v).subrange(0, st.values.len() as int) =~= st.values);
}

proof fn lemma_bind_extends(st: ParamsView, src: BindSource)
    ensures
        extends(st, bind_spec(st, src).1),
{
    lemma_extends_refl(st);
    lemma_push_extends(st, bind_source_value_of(src));
}

spec fn bind_source_value_of(src: BindSource) -> ValueView {
    super::binding::bind_source_value(src)
}

proof fn lemma_bind_list_extends(st: ParamsView, src: ListSource)
    ensures
        extends(st, bind_list_spec(st, src).2),
{
    lemma_extends_refl(st);
    lemma_extend_values_extends(st, super::binding::list_source_values(src));
}

/// Rendering a predicate never rewrites what the buffer already held: it only
/// appends.
pub proof fn lemma_expr_render_extends(k: ExprKind, st: ParamsView, d: Dialect)
    ensures
        extends(st, expr_render(k, st, d).1),
    decreases k,
{
    match k {
        ExprKind::Comparison { column, op, value } => lemma_bind_extends(st, value),
        ExprKind::InList { column, values, negated } => lemma_bind_list_extends(st, values),
        ExprKind::IsNull { .. } => lemma_extends_refl(st),
        ExprKind::Between { column, low, high } => {
            let st1 = push_value(st, low@);
            lemma_push_extends(st, low@);
            lemma_push_extends(st1, high@);
            lemma_extends_trans(st, st1, push_value(st1, high@));
        },
        ExprKind::Match { target, pattern } => lemma_push_extends(st, pattern@),
        ExprKind::TsMatch { pattern, .. } => lemma_push_extends(st, pattern@),
        ExprKind::Compare { left, op, right } => {
            let st1 = scalar_render(left.kind, st, d).1;
            lemma_scalar_render_extends(left.kind, st, d);
            lemma_scalar_render_extends(right.kind, st1, d);
            lemma_extends_trans(st, st1, scalar_render(right.kind, st1, d).1);
        },
        ExprKind::Like { left, pattern, escape } => {
            let st1 = scalar_render(left.kind, st, d).1;
            let st2 = scalar_render(pattern.kind, st1, d).1;
            lemma_scalar_render_extends(left.kind, st, d);
            lemma_scalar_render_extends(pattern.kind, st1, d);
            lemma_extends_trans(st, st1, st2);
            match escape {
                Some(c) => {
                    lemma_push_extends(st2, ValueView::Text(seq![c]));
                    lemma_extends_trans(st, st2, push_value(st2, ValueView::Text(seq![c])));
                },
                None => {},
            }
        },
        ExprKind::Exists { query, negated } => {
            lemma_extend_values_extends(st, query.select_sql(next_index(st), d).1);
        },
        ExprKind::InSubquery { left, query, negated } => {
            let st1 = scalar_render(left.kind, st, d).1;
            let sub = query.select_sql(next_index(st1), d).1;
            lemma_scalar_render_extends(left.kind, st, d);
            lemma_extend_values_extends(st1, sub);
            lemma_extends_trans(st, st1, extend_values(st1, sub));
        },
        ExprKind::And(a, b) => {
            let st1 = expr_render(a.kind, st, d).1;
            lemma_expr_render_extends(a.kind, st, d);
            lemma_expr_render_extends(b.kind, st1, d);
            lemma_extends_trans(st, st1, expr_render(b.kind, st1, d).1);
        },
        ExprKind::Or(a, b) => {
            let st1 = expr_render(a.kind, st, d).1;
            lemma_expr_render_extends(a.kind, st, d);
            lemma_expr_render_extends(b.kind, st1, d);
            lemma_extends_trans(st, st1, expr_render(b.kind, st1, d).1);
        },
        ExprKind::Raw { sql, params } => lemma_extend_values_extends(st, values_view(params@)),
    }
}

/// Rendering a scalar never rewrites what the buffer already held.
pub proof fn lemma_scalar_render_extends(k: ScalarKind, st: ParamsView, d: Dialect)
    ensures
        extends(st, scalar_render(k, st, d).1),
    decreases k,
{
    match k {
        ScalarKind::Raw { sql, params } => lemma_extend_values_extends(st, values_view(params@)),
        ScalarKind::Bind(src) => lemma_bind_extends(st, src),
        ScalarKind::Func { name, args } => lemma_args_render_extends(args@, st, d),
        ScalarKind::Arith { left, op, right } => {
            let st1 = scalar_render(left.kind, st, d).1;
            lemma_scalar_render_extends(left.kind, st, d);
            lemma_scalar_render_extends(right.kind, st1, d);
            lemma_extends_trans(st, st1, scalar_render(right.kind, st1, d).1);
        },
        ScalarKind::Case { branches, otherwise } => {
            let st1 = branches_render(branches@, st, d).1;
            lemma_branches_render_extends(branches@, st, d);
            match otherwise {
                Some(o) => {
                    lemma_scalar_render_extends(o.kind, st1, d);
                    lemma_extends_trans(st, st1, scalar_render(o.kind, st1, d).1);
                },
                None => {},
            }
        },
        ScalarKind::Aggregate { func, arg } => match arg {
            AggregateArg::Star => lemma_extends_refl(st),
            AggregateArg::All(a) => lemma_scalar_render_extends(a.kind, st, d),
            AggregateArg::Distinct(a) => lemma_scalar_render_extends(a.kind, st, d),
        },
        ScalarKind::Subquery(q) => {
            lemma_extend_values_extends(st, q.select_sql(next_index(st), d).1);
        },
    }
}

pub(crate) proof fn lemma_args_render_extends(args: Seq<Scalar>, st: ParamsView, d: Dialect)
    ensures
        extends(st, args_render(args, st, d).1),
    decreases args,
{
    if args.len() == 0 {
        lemma_extends_refl(st);
    } else {
        let st1 = args_render(args.subrange(0, args.len() - 1), st, d).1;
        lemma_args_render_extends(args.subrange(0, args.len() - 1), st, d);
        lemma_scalar_render_extends(args[args.len() - 1].kind, st1, d);
        lemma_extends_trans(st, st1, scalar_render(args[args.len() - 1].kind, st1, d).1);
    }
}

pub(crate) proof fn lemma_branches_render_extends(bs: Seq<(Expr, Scalar)>, st: ParamsView, d: Dialect)
    ensures
        extends(st, branches_render(bs, st, d).1),
    decreases bs,
{
    if bs.len() == 0 {
        lemma_extends_refl(st);
    } else {
        let st1 = branches_render(bs.subrange(0, bs.len() - 1), st, d).1;
        let st2 = expr_render(bs[bs.len() - 1].0.kind, st1, d).1;
        lemma_branches_render_extends(bs.subrange(0, bs.len() - 1), st, d);
        lemma_expr_render_extends(bs[bs.len() - 1].0.kind, st1, d);
        lemma_scalar_render_extends(bs[bs.len() - 1].1.kind, st2, d);
        lemma_extends_trans(st, st1, st2);
        lemma_extends_trans(st, st2, scalar_render(bs[bs.len() - 1].1.kind, st2, d).1);
    }
}

/// An `IN` list with no values renders a constant — `1 = 0`, or `1 = 1`
/// when negated — and binds nothing: `IN ()` is not SQL on Postgres.
pub proof fn lemma_empty_in_list_renders_constant(
    column: String,
    values: ListSource,
    negated: bool,
    st: ParamsView,
    d: Dialect,
)
    requires
        list_source_values(values).len() == 0,
    ensures
        expr_render(ExprKind::InList { column, values, negated }, st, d) == (
            if negated {
                "1 = 1"@
            } else {
                "1 = 0"@
            },
            st,
        ),
{
}

} // verus!

verus! {

/// The placeholders `first`, `first + 1`, … (`n` of them), comma-separated.
pub fn render_param_run(d: Dialect, first: usize, n: usize) -> (r: String)
    ensures
        r@ == param_run(d, first as nat, n as nat),
{
    let ghost parts = Seq::new(n as nat, |i: int| param_sql(d, (first + i) as nat));
    let mut s = String::new();
    let mut i: usize = 0;
    while i < n
        invariant
            i <= n,
            parts == Seq::new(n as nat, |i: int| param_sql(d, (first + i) as nat)),
            s@ == join_comma(parts.take(i as int)),
        decreases n - i,
    {
        let p = d.param_wide((first as u128) + (i as u128));
        assert(parts.take(i + 1).drop_last() =~= parts.take(i as int));
        if i > 0 {
            s.append(", ");
        }
        s.append(p.as_str());
        i = i + 1;
    }
    assert(parts.take(n as int) =~= parts);
    s
}

/// Renders a predicate node, appending the values it binds to `params`.
pub fn render_expr(k: &ExprKind, params: &mut BoundParams, d: Dialect) -> (r: String)
    ensures
        (r@, final(params)@) == expr_render(*k, old(params)@, d),
    decreases k,
{
    match k {
        ExprKind::Comparison { column, op, value } => {
            let idx = params.bind(value);
            let mut s = column.clone();
            s.append(" ");
            s.append(op);
            s.append(" ");
            let p = d.param(idx);
            s.append(p.as_str());
            s
        },
        ExprKind::InList { column, values, negated } => {
            let (first, n) = params.bind_list(values);
            if n == 0 {
                if *negated { "1 = 1".to_string() } else { "1 = 0".to_string() }
            } else {
                let mut s = column.clone();
                if *negated {
                    s.append(" NOT IN (");
                } else {
                    s.append(" IN (");
                }
                let run = render_param_run(d, first, n);
                s.append(run.as_str());
                s.append(")");
                s
            }
        },
        ExprKind::IsNull { column, negated } => {
            let mut s = column.clone();
            if *negated {
                s.append(" IS NOT NULL");
            } else {
                s.append(" IS NULL");
            }
            s
        },
        ExprKind::Between { column, low, high } => {
            let low_idx = params.push(low.duplicate());
            let high_idx = params.push(high.duplicate());
            let mut s = column.clone();
            s.append(" BETWEEN ");
            let p1 = d.param(low_idx);
            s.append(p1.as_str());
            s.append(" AND ");
            let p2 = d.param(high_idx);
            s.append(p2.as_str());
            s
        },
        ExprKind::Match { target, pattern } => {
            let idx = params.push(pattern.duplicate());
            let mut s = target.clone();
            s.append(" MATCH ");
            let p = d.param(idx);
            s.append(p.as_str());
            s
        },
        ExprKind::TsMatch { document, query_fn, config, pattern } => {
            let idx = params.push(pattern.duplicate());
            let mut s = document.clone();
            s.append(" @@ ");
            s.append(query_fn);
            s.append("(");
            s.append(config.as_str());
            s.append(", ");
            let p = d.param(idx);
            s.append(p.as_str());
            s.append(")");
            s
        },
        ExprKind::Compare { left, op, right } => {
            let mut s = render_scalar(&left.kind, params, d);
            let r = render_scalar(&right.kind, params, d);
            s.append(" ");
            s.append(op);
            s.append(" ");
            s.append(r.as_str());
            s
        },
        ExprKind::Like { left, pattern, escape } => {
            // The escape character is bound like any other value, so no
            // character is interpolated into the SQL.
            let mut s = render_scalar(&left.kind, params, d);
            let p = render_scalar(&pattern.kind, params, d);
            s.append(" LIKE ");
            s.append(p.as_str());
            if let Some(c) = escape {
                let mut one: Vec<char> = Vec::new();
                one.push(*c);
                assert(one@ =~= seq![*c]);
                let text = string_from_chars(&one);
                let idx = params.push(Value::Text(text));
                s.append(" ESCAPE ");
                let ph = d.param(idx);
                s.append(ph.as_str());
            }
            s
        },
        ExprKind::Exists { query, negated } => {
            let start = params.next_index();
            let (sql, sub) = query.to_select_sql_for(start, d);
            params.extend_owned(sub);
            let mut s = if *negated { "NOT EXISTS (".to_string() } else { "EXISTS (".to_string() };
            s.append(sql.as_str());
            s.append(")");
            s
        },
        ExprKind::InSubquery { left, query, negated } => {
            let mut s = render_scalar(&left.kind, params, d);
            let start = params.next_index();
            let (sql, sub) = query.to_select_sql_for(start, d);
            params.extend_owned(sub);
            if *negated {
                s.append(" NOT IN (");
            } else {
                s.append(" IN (");
            }
            s.append(sql.as_str());
            s.append(")");
            s
        },
        ExprKind::And(a, b) => {
            let l = render_expr(&a.kind, params, d);
            let r = render_expr(&b.kind, params, d);
            let mut s = "(".to_string();
            s.append(l.as_str());
            s.append(" AND ");
            s.append(r.as_str());
            s.append(")");
            s
        },
        ExprKind::Or(a, b) => {
            let l = render_expr(&a.kind, params, d);
            let r = render_expr(&b.kind, params, d);
            let mut s = "(".to_string();
            s.append(l.as_str());
            s.append(" OR ");
            s.append(r.as_str());
            s.append(")");
            s
        },
        ExprKind::Raw { sql, params: raw_params } => {
            let base = params.next_index();
            params.extend_from(raw_params);
            number_raw_params(sql.as_str(), base, d)
        },
    }
}

/// Renders a scalar node, appending the values it binds to `params`.
#[verifier::loop_isolation(false)]
pub fn render_scalar(k: &ScalarKind, params: &mut BoundParams, d: Dialect) -> (r: String)
    ensures
        (r@, final(params)@) == scalar_render(*k, old(params)@, d),
    decreases k,
{
    match k {
        ScalarKind::Raw { sql, params: raw_params } => {
            let base = params.next_index();
            params.extend_from(raw_params);
            number_raw_params(sql.as_str(), base, d)
        },
        ScalarKind::Bind(src) => {
            let idx = params.bind(src);
            d.param(idx)
        },
        ScalarKind::Func { name, args } => {
            let ghost st0 = params@;
            let mut s = name.clone();
            s.append("(");
            let ghost head = s@;
            let mut i: usize = 0;
            while i < args.len()
                invariant
                    i <= args.len(),
                    head == name@ + "("@,
                    s@ == head + join_comma(args_render(args@.take(i as int), st0, d).0),
                    params@ == args_render(args@.take(i as int), st0, d).1,
                decreases args.len() - i,
            {
                let ghost prev = args_render(args@.take(i as int), st0, d);
                proof {
                    assert(decreases_to!(*k => *args));
                    assert(decreases_to!(*args => args@));
                    assert(decreases_to!(args@ => args@[i as int]));
                    assert(decreases_to!(args@[i as int] => args@[i as int].kind));
                    assert(decreases_to!(*k => args@[i as int].kind));
                }
                let p = render_scalar(&args[i].kind, params, d);
                proof {
                    let t = args@.take(i + 1);
                    assert(t.subrange(0, t.len() - 1) =~= args@.take(i as int));
                    assert(t[t.len() - 1] == args@[i as int]);
                    assert(prev.0.push(p@).drop_last() =~= prev.0);
                }
                if i > 0 {
                    s.append(", ");
                }
                s.append(p.as_str());
                i = i + 1;
            }
            assert(args@.take(args.len() as int) =~= args@);
            s.append(")");
            s
        },
        ScalarKind::Arith { left, op, right } => {
            let l = render_scalar(&left.kind, params, d);
            let r = render_scalar(&right.kind, params, d);
            let mut s = "(".to_string();
            s.append(l.as_str());
            s.append(" ");
            s.append(op);
            s.append(" ");
            s.append(r.as_str());
            s.append(")");
            s
        },
        ScalarKind::Case { branches, otherwise } => {
            let ghost st0 = params@;
            let mut s = "CASE".to_string();
            let ghost head = s@;
            let mut i: usize = 0;
            while i < branches.len()
                invariant
                    i <= branches.len(),
                    head == "CASE"@,
                    s@ == head + branches_render(branches@.take(i as int), st0, d).0,
                    params@ == branches_render(branches@.take(i as int), st0, d).1,
                decreases branches.len() - i,
            {
                proof {
                    assert(decreases_to!(*k => *branches));
                    assert(decreases_to!(*branches => branches@));
                    assert(decreases_to!(branches@ => branches@[i as int]));
                    assert(decreases_to!(branches@[i as int] => branches@[i as int].0));
                    assert(decreases_to!(branches@[i as int] => branches@[i as int].1));
                    assert(decreases_to!(branches@[i as int].0 => branches@[i as int].0.kind));
                    assert(decreases_to!(branches@[i as int].1 => branches@[i as int].1.kind));
                    assert(decreases_to!(*k => branches@[i as int].0.kind));
                    assert(decreases_to!(*k => branches@[i as int].1.kind));
                }
                let w = render_expr(&branches[i].0.kind, params, d);
                let t = render_scalar(&branches[i].1.kind, params, d);
                proof {
                    let bs = branches@.take(i + 1);
                    assert(bs.subrange(0, bs.len() - 1) =~= branches@.take(i as int));
                    assert(bs[bs.len() - 1] == branches@[i as int]);
                }
                s.append(" WHEN ");
                s.append(w.as_str());
                s.append(" THEN ");
                s.append(t.as_str());
                i = i + 1;
            }
            assert(branches@.take(branches.len() as int) =~= branches@);
            match otherwise {
                Some(o) => {
                    let e = render_scalar(&o.kind, params, d);
                    s.append(" ELSE ");
                    s.append(e.as_str());
                },
                None => {},
            }
            s.append(" END");
            s
        },
        ScalarKind::Aggregate { func, arg } => {
            let mut s = String::new();
            s.append(func);
            match arg {
                AggregateArg::Star => {
                    s.append("(*)");
                },
                AggregateArg::All(a) => {
                    let inner = render_scalar(&a.kind, params, d);
                    s.append("(");
                    s.append(inner.as_str());
                    s.append(")");
                },
                AggregateArg::Distinct(a) => {
                    let inner = render_scalar(&a.kind, params, d);
                    s.append("(DISTINCT ");
                    s.append(inner.as_str());
                    s.append(")");
                },
            }
            s
        },
        ScalarKind::Subquery(q) => {
            let start = params.next_index();
            let (sql, sub) = q.to_select_sql_for(start, d);
            params.extend_owned(sub);
            let mut s = "(".to_string();
            s.append(sql.as_str());
            s.append(")");
            s
        },
    }
}

} // verus!

verus! {

/// How many stand-in values a fragment rendered at `start` counts before its
/// own: the `start - 1` a statement emitted ahead of it.
pub open spec fn stand_ins(start: nat) -> nat {
    if start == 0 { 0 } else { (start - 1) as nat }
}

/// The buffer a standalone fragment at `start` renders into: `start - 1`
/// stand-ins and an empty ledger.
pub open spec fn fragment_frame(start: nat) -> ParamsView {
    ParamsView {
        values: Seq::new(stand_ins(start), |i: int| ValueView::Null),
        ledger: seq![],
    }
}

/// A predicate rendered standalone with its first placeholder at `start`:
/// the SQL and the values it binds, in placeholder order.
pub open spec fn expr_fragment(k: ExprKind, start: nat, d: Dialect) -> (Seq<char>, Seq<ValueView>) {
    let r = expr_render(k, fragment_frame(start), d);
    (r.0, r.1.values.skip(stand_ins(start) as int))
}

/// A scalar rendered standalone with its first placeholder at `start`.
pub open spec fn scalar_fragment(k: ScalarKind, start: nat, d: Dialect) -> (Seq<char>, Seq<ValueView>) {
    let r = scalar_render(k, fragment_frame(start), d);
    (r.0, r.1.values.skip(stand_ins(start) as int))
}

/// Renders a predicate standalone, first placeholder at `start`. A handle used
/// twice within the fragment still shares one placeholder.
pub fn render_expr_fragment(k: &ExprKind, start: usize, d: Dialect) -> (r: (String, Vec<Value>))
    ensures
        r.0@ == expr_fragment(*k, start as nat, d).0,
        values_view(r.1@) == expr_fragment(*k, start as nat, d).1,
{
    let mut params = BoundParams::new();
    let mut child = params.begin_nested(start);
    assert(child@ == fragment_frame(start as nat));
    let sql = render_expr(k, &mut child, d);
    proof {
        lemma_expr_render_extends(*k, fragment_frame(start as nat), d);
    }
    params.end_nested(child, start);
    assert(params@.values =~= expr_render(*k, fragment_frame(start as nat), d).1.values.skip(
        stand_ins(start as nat) as int,
    ));
    (sql, params.into_values())
}

/// Renders a scalar standalone, first placeholder at `start`.
pub fn render_scalar_fragment(k: &ScalarKind, start: usize, d: Dialect) -> (r: (String, Vec<Value>))
    ensures
        r.0@ == scalar_fragment(*k, start as nat, d).0,
        values_view(r.1@) == scalar_fragment(*k, start as nat, d).1,
{
    let mut params = BoundParams::new();
    let mut child = params.begin_nested(start);
    assert(child@ == fragment_frame(start as nat));
    let sql = render_scalar(k, &mut child, d);
    proof {
        lemma_scalar_render_extends(*k, fragment_frame(start as nat), d);
    }
    params.end_nested(child, start);
    assert(params@.values =~= scalar_render(*k, fragment_frame(start as nat), d).1.values.skip(
        stand_ins(start as nat) as int,
    ));
    (sql, params.into_values())
}

} // verus!

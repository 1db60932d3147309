//! How placeholder numbering composes: a node renders the same SQL and binds
//! the same values from any buffer of the same length and ledger, so a
//! sibling rendered after another numbers from where the first stopped.
use vstd::prelude::*;
use crate::dialect::{Dialect, param_sql};
use crate::value::{ValueView, values_view};
use super::binding::{
    BindSource, ListSource, ParamsView, bind_list_spec, bind_spec, next_index, push_value, list_source_values,
};
use super::nodes::{AggregateArg, Expr, ExprKind, Scalar, ScalarKind, SelectSource};
use super::render::{
    args_render, branches_render, expr_render, extend_values, extends, scalar_render, expr_fragment, scalar_fragment,
    fragment_frame, stand_ins, lemma_extends_trans, lemma_extend_values_extends, lemma_push_extends,
    lemma_args_render_extends, lemma_branches_render_extends, lemma_expr_render_extends, lemma_scalar_render_extends,
};

verus! {

/// Two buffers that hold as many values and the same ledger.
pub open spec fn same_shape(a: ParamsView, b: ParamsView) -> bool {
    a.values.len() == b.values.len() && a.ledger == b.ledger
}

/// The values that going from `st` to `st2` appended.
pub open spec fn appended(st: ParamsView, st2: ParamsView) -> Seq<ValueView> {
    st2.values.skip(st.values.len() as int)
}

proof fn lemma_appended_trans(a: ParamsView, b: ParamsView, c: ParamsView)
    requires
        extends(a, b),
        extends(b, c),
    ensures
        appended(a, c) == appended(a, b) + appended(b, c),
{
    assert(c.values.subrange(0, b.values.len() as int) == b.values);
    assert(appended(a, c) =~= appended(a, b) + appended(b, c)) by {
        assert forall|i: int| 0 <= i < appended(a, c).len() implies appended(a, c)[i] == (appended(a, b)
            + appended(b, c))[i] by {
            if a.values.len() + i < b.values.len() {
                assert(c.values.subrange(0, b.values.len() as int)[a.values.len() + i] == c.values[a.values.len() + i]);
            }
        }
    }
}

proof fn lemma_push_shift(a: ParamsView, b: ParamsView, v: ValueView)
    requires
        same_shape(a, b),
    ensures
        same_shape(push_value(a, v), push_value(b, v)),
        appended(a, push_value(a, v)) == appended(b, push_value(b, v)),
        next_index(a) == next_index(b),
{
    assert(appended(a, push_value(a, v)) =~= seq![v]);
    assert(appended(b, push_value(b, v)) =~= seq![v]);
}

proof fn lemma_extend_shift(a: ParamsView, b: ParamsView, vals: Seq<ValueView>)
    requires
        same_shape(a, b),
    ensures
        same_shape(extend_values(a, vals), extend_values(b, vals)),
        appended(a, extend_values(a, vals)) == appended(b, extend_values(b, vals)),
        next_index(a) == next_index(b),
{
    assert(appended(a, extend_values(a, vals)) =~= vals);
    assert(appended(b, extend_values(b, vals)) =~= vals);
}

proof fn lemma_same_refl(a: ParamsView)
    ensures
        appended(a, a) == Seq::<ValueView>::empty(),
{
    assert(appended(a, a) =~= Seq::<ValueView>::empty());
}

proof fn lemma_bind_shift(a: ParamsView, b: ParamsView, src: BindSource)
    requires
        same_shape(a, b),
    ensures
        bind_spec(a, src).0 == bind_spec(b, src).0,
        same_shape(bind_spec(a, src).1, bind_spec(b, src).1),
        appended(a, bind_spec(a, src).1) == appended(b, bind_spec(b, src).1),
{
    let v = crate::expr::binding::bind_source_value(src);
    lemma_push_shift(a, b, v);
    lemma_same_refl(a);
    lemma_same_refl(b);
    assert(appended(a, ParamsView { values: a.values.push(v), ledger: a.ledger.push((0, 0)) }) =~= seq![v]);
    match crate::expr::binding::bind_source_id(src) {
        Some(id) => {
            let pa = ParamsView { values: a.values.push(v), ledger: a.ledger.push((id, next_index(a))) };
            let pb = ParamsView { values: b.values.push(v), ledger: b.ledger.push((id, next_index(b))) };
            assert(appended(a, pa) =~= seq![v]);
            assert(appended(b, pb) =~= seq![v]);
        },
        None => {},
    }
}

proof fn lemma_bind_list_shift(a: ParamsView, b: ParamsView, src: ListSource)
    requires
        same_shape(a, b),
    ensures
        bind_list_spec(a, src).0 == bind_list_spec(b, src).0,
        bind_list_spec(a, src).1 == bind_list_spec(b, src).1,
        same_shape(bind_list_spec(a, src).2, bind_list_spec(b, src).2),
        appended(a, bind_list_spec(a, src).2) == appended(b, bind_list_spec(b, src).2),
{
    let vals = list_source_values(src);
    lemma_same_refl(a);
    lemma_same_refl(b);
    lemma_extend_shift(a, b, vals);
    match crate::expr::binding::list_source_id(src) {
        Some(id) => {
            let pa = ParamsView { values: a.values + vals, ledger: a.ledger.push((id, next_index(a))) };
            let pb = ParamsView { values: b.values + vals, ledger: b.ledger.push((id, next_index(b))) };
            assert(appended(a, pa) =~= vals);
            assert(appended(b, pb) =~= vals);
        },
        None => {},
    }
}

/// Rendering a predicate depends on the buffer only through how many values
/// it holds and its ledger: from two such buffers it writes the same SQL,
/// appends the same values and leaves the same ledger.
pub proof fn lemma_expr_render_shift(k: ExprKind, a: ParamsView, b: ParamsView, d: Dialect)
    requires
        same_shape(a, b),
    ensures
        expr_render(k, a, d).0 == expr_render(k, b, d).0,
        same_shape(expr_render(k, a, d).1, expr_render(k, b, d).1),
        appended(a, expr_render(k, a, d).1) == appended(b, expr_render(k, b, d).1),
    decreases k,
{
    match k {
        ExprKind::Comparison { column, op, value } => lemma_bind_shift(a, b, value),
        ExprKind::InList { column, values, negated } => lemma_bind_list_shift(a, b, values),
        ExprKind::IsNull { .. } => {
            lemma_same_refl(a);
            lemma_same_refl(b);
        },
        ExprKind::Between { column, low, high } => {
            lemma_push_shift(a, b, low@);
            let a1 = push_value(a, low@);
            let b1 = push_value(b, low@);
            lemma_push_shift(a1, b1, high@);
            lemma_push_extends(a, low@);
            lemma_push_extends(b, low@);
            lemma_push_extends(a1, high@);
            lemma_push_extends(b1, high@);
            lemma_appended_trans(a, a1, push_value(a1, high@));
            lemma_appended_trans(b, b1, push_value(b1, high@));
        },
        ExprKind::Match { target, pattern } => lemma_push_shift(a, b, pattern@),
        ExprKind::TsMatch { pattern, .. } => lemma_push_shift(a, b, pattern@),
        ExprKind::Compare { left, op, right } => {
            lemma_scalar_render_shift(left.kind, a, b, d);
            let a1 = scalar_render(left.kind, a, d).1;
            let b1 = scalar_render(left.kind, b, d).1;
            lemma_scalar_render_shift(right.kind, a1, b1, d);
            lemma_scalar_render_extends(left.kind, a, d);
            lemma_scalar_render_extends(left.kind, b, d);
            lemma_scalar_render_extends(right.kind, a1, d);
            lemma_scalar_render_extends(right.kind, b1, d);
            lemma_appended_trans(a, a1, scalar_render(right.kind, a1, d).1);
            lemma_appended_trans(b, b1, scalar_render(right.kind, b1, d).1);
        },
        ExprKind::Like { left, pattern, escape } => {
            lemma_scalar_render_shift(left.kind, a, b, d);
            let a1 = scalar_render(left.kind, a, d).1;
            let b1 = scalar_render(left.kind, b, d).1;
            lemma_scalar_render_shift(pattern.kind, a1, b1, d);
            let a2 = scalar_render(pattern.kind, a1, d).1;
            let b2 = scalar_render(pattern.kind, b1, d).1;
            lemma_scalar_render_extends(left.kind, a, d);
            lemma_scalar_render_extends(left.kind, b, d);
            lemma_scalar_render_extends(pattern.kind, a1, d);
            lemma_scalar_render_extends(pattern.kind, b1, d);
            lemma_appended_trans(a, a1, a2);
            lemma_appended_trans(b, b1, b2);
            lemma_extends_trans(a, a1, a2);
            lemma_extends_trans(b, b1, b2);
            match escape {
                Some(c) => {
                    let v = ValueView::Text(seq![c]);
                    lemma_push_shift(a2, b2, v);
                    lemma_push_extends(a2, v);
                    lemma_push_extends(b2, v);
                    lemma_appended_trans(a, a2, push_value(a2, v));
                    lemma_appended_trans(b, b2, push_value(b2, v));
                },
                None => {},
            }
        },
        ExprKind::Exists { query, negated } => {
            lemma_extend_shift(a, b, query.select_sql(next_index(a), d).1);
        },
        ExprKind::InSubquery { left, query, negated } => {
            lemma_scalar_render_shift(left.kind, a, b, d);
            let a1 = scalar_render(left.kind, a, d).1;
            let b1 = scalar_render(left.kind, b, d).1;
            let sub = query.select_sql(next_index(a1), d).1;
            lemma_extend_shift(a1, b1, sub);
            lemma_scalar_render_extends(left.kind, a, d);
            lemma_scalar_render_extends(left.kind, b, d);
            lemma_extend_values_extends(a1, sub);
            lemma_extend_values_extends(b1, sub);
            lemma_appended_trans(a, a1, extend_values(a1, sub));
            lemma_appended_trans(b, b1, extend_values(b1, sub));
        },
        ExprKind::And(x, y) => {
            lemma_expr_render_shift(x.kind, a, b, d);
            let a1 = expr_render(x.kind, a, d).1;
            let b1 = expr_render(x.kind, b, d).1;
            lemma_expr_render_shift(y.kind, a1, b1, d);
            lemma_expr_render_extends(x.kind, a, d);
            lemma_expr_render_extends(x.kind, b, d);
            lemma_expr_render_extends(y.kind, a1, d);
            lemma_expr_render_extends(y.kind, b1, d);
            lemma_appended_trans(a, a1, expr_render(y.kind, a1, d).1);
            lemma_appended_trans(b, b1, expr_render(y.kind, b1, d).1);
        },
        ExprKind::Or(x, y) => {
            lemma_expr_render_shift(x.kind, a, b, d);
            let a1 = expr_render(x.kind, a, d).1;
            let b1 = expr_render(x.kind, b, d).1;
            lemma_expr_render_shift(y.kind, a1, b1, d);
            lemma_expr_render_extends(x.kind, a, d);
            lemma_expr_render_extends(x.kind, b, d);
            lemma_expr_render_extends(y.kind, a1, d);
            lemma_expr_render_extends(y.kind, b1, d);
            lemma_appended_trans(a, a1, expr_render(y.kind, a1, d).1);
            lemma_appended_trans(b, b1, expr_render(y.kind, b1, d).1);
        },
        ExprKind::Raw { sql, params } => lemma_extend_shift(a, b, values_view(params@)),
    }
}

/// Rendering a scalar depends on the buffer only through how many values it
/// holds and its ledger.
pub proof fn lemma_scalar_render_shift(k: ScalarKind, a: ParamsView, b: ParamsView, d: Dialect)
    requires
        same_shape(a, b),
    ensures
        scalar_render(k, a, d).0 == scalar_render(k, b, d).0,
        same_shape(scalar_render(k, a, d).1, scalar_render(k, b, d).1),
        appended(a, scalar_render(k, a, d).1) == appended(b, scalar_render(k, b, d).1),
    decreases k,
{
    match k {
        ScalarKind::Raw { sql, params } => lemma_extend_shift(a, b, values_view(params@)),
        ScalarKind::Bind(src) => lemma_bind_shift(a, b, src),
        ScalarKind::Func { name, args } => lemma_args_render_shift(args@, a, b, d),
        ScalarKind::Arith { left, op, right } => {
            lemma_scalar_render_shift(left.kind, a, b, d);
            let a1 = scalar_render(left.kind, a, d).1;
            let b1 = scalar_render(left.kind, b, d).1;
            lemma_scalar_render_shift(right.kind, a1, b1, d);
            lemma_scalar_render_extends(left.kind, a, d);
            lemma_scalar_render_extends(left.kind, b, d);
            lemma_scalar_render_extends(right.kind, a1, d);
            lemma_scalar_render_extends(right.kind, b1, d);
            lemma_appended_trans(a, a1, scalar_render(right.kind, a1, d).1);
            lemma_appended_trans(b, b1, scalar_render(right.kind, b1, d).1);
        },
        ScalarKind::Case { branches, otherwise } => {
            lemma_branches_render_shift(branches@, a, b, d);
            let a1 = branches_render(branches@, a, d).1;
            let b1 = branches_render(branches@, b, d).1;
            match otherwise {
                Some(o) => {
                    lemma_scalar_render_shift(o.kind, a1, b1, d);
                    lemma_branches_render_extends(branches@, a, d);
                    lemma_branches_render_extends(branches@, b, d);
                    lemma_scalar_render_extends(o.kind, a1, d);
                    lemma_scalar_render_extends(o.kind, b1, d);
                    lemma_appended_trans(a, a1, scalar_render(o.kind, a1, d).1);
                    lemma_appended_trans(b, b1, scalar_render(o.kind, b1, d).1);
                },
                None => {},
            }
        },
        ScalarKind::Aggregate { func, arg } => match arg {
            AggregateArg::Star => {
                lemma_same_refl(a);
                lemma_same_refl(b);
            },
            AggregateArg::All(x) => lemma_scalar_render_shift(x.kind, a, b, d),
            AggregateArg::Distinct(x) => lemma_scalar_render_shift(x.kind, a, b, d),
        },
        ScalarKind::Subquery(q) => {
            lemma_extend_shift(a, b, q.select_sql(next_index(a), d).1);
        },
    }
}

proof fn lemma_args_render_shift(args: Seq<Scalar>, a: ParamsView, b: ParamsView, d: Dialect)
    requires
        same_shape(a, b),
    ensures
        args_render(args, a, d).0 == args_render(args, b, d).0,
        same_shape(args_render(args, a, d).1, args_render(args, b, d).1),
        appended(a, args_render(args, a, d).1) == appended(b, args_render(args, b, d).1),
    decreases args,
{
    if args.len() == 0 {
        lemma_same_refl(a);
        lemma_same_refl(b);
    } else {
        let init = args.subrange(0, args.len() - 1);
        let last = args[args.len() - 1].kind;
        lemma_args_render_shift(init, a, b, d);
        let a1 = args_render(init, a, d).1;
        let b1 = args_render(init, b, d).1;
        lemma_scalar_render_shift(last, a1, b1, d);
        lemma_args_render_extends(init, a, d);
        lemma_args_render_extends(init, b, d);
        lemma_scalar_render_extends(last, a1, d);
        lemma_scalar_render_extends(last, b1, d);
        lemma_appended_trans(a, a1, scalar_render(last, a1, d).1);
        lemma_appended_trans(b, b1, scalar_render(last, b1, d).1);
    }
}

proof fn lemma_branches_render_shift(bs: Seq<(Expr, Scalar)>, a: ParamsView, b: ParamsView, d: Dialect)
    requires
        same_shape(a, b),
    ensures
        branches_render(bs, a, d).0 == branches_render(bs, b, d).0,
        same_shape(branches_render(bs, a, d).1, branches_render(bs, b, d).1),
        appended(a, branches_render(bs, a, d).1) == appended(b, branches_render(bs, b, d).1),
    decreases bs,
{
    if bs.len() == 0 {
        lemma_same_refl(a);
        lemma_same_refl(b);
    } else {
        let init = bs.subrange(0, bs.len() - 1);
        let w = bs[bs.len() - 1].0.kind;
        let t = bs[bs.len() - 1].1.kind;
        lemma_branches_render_shift(init, a, b, d);
        let a1 = branches_render(init, a, d).1;
        let b1 = branches_render(init, b, d).1;
        lemma_expr_render_shift(w, a1, b1, d);
        let a2 = expr_render(w, a1, d).1;
        let b2 = expr_render(w, b1, d).1;
        lemma_scalar_render_shift(t, a2, b2, d);
        lemma_branches_render_extends(init, a, d);
        lemma_branches_render_extends(init, b, d);
        lemma_expr_render_extends(w, a1, d);
        lemma_expr_render_extends(w, b1, d);
        lemma_scalar_render_extends(t, a2, d);
        lemma_scalar_render_extends(t, b2, d);
        lemma_appended_trans(a, a1, a2);
        lemma_appended_trans(b, b1, b2);
        lemma_extends_trans(a, a1, a2);
        lemma_extends_trans(b, b1, b2);
        lemma_appended_trans(a, a2, scalar_render(t, a2, d).1);
        lemma_appended_trans(b, b2, scalar_render(t, b2, d).1);
    }
}

/// A conjunction rendered on its own with its first placeholder at `start`
/// is `(<left> AND <right>)`, where the left operand is its own fragment at
/// `start` and the right operand its own fragment numbered from where the left
/// one stopped; the values are the left operand's followed by the right's.
/// This holds whenever the left operand binds no shared handle (whose identity
/// the right operand would otherwise see) and `start` counts from 1.
pub proof fn lemma_and_fragment_composes(left: Expr, right: Expr, start: nat, d: Dialect)
    requires
        start >= 1,
        expr_render(left.kind, fragment_frame(start), d).1.ledger.len() == 0,
    ensures
        ({
            let l = expr_fragment(left.kind, start, d);
            let r = expr_fragment(right.kind, start + l.1.len(), d);
            expr_fragment(ExprKind::And(Box::new(left), Box::new(right)), start, d) == (
                "("@ + l.0 + " AND "@ + r.0 + ")"@,
                l.1 + r.1,
            )
        }),
{
    let f = fragment_frame(start);
    let a1 = expr_render(left.kind, f, d).1;
    let pl = expr_fragment(left.kind, start, d).1;
    let g = fragment_frame(start + pl.len());
    lemma_expr_render_extends(left.kind, f, d);
    assert(f.values.len() == stand_ins(start));
    assert(g.values.len() == stand_ins(start + pl.len()));
    assert(a1.ledger =~= g.ledger);
    assert(same_shape(a1, g));
    lemma_expr_render_shift(right.kind, a1, g, d);
    let a2 = expr_render(right.kind, a1, d).1;
    lemma_expr_render_extends(right.kind, a1, d);
    lemma_appended_trans(f, a1, a2);
}

/// `left LIKE pattern ESCAPE c` rendered on its own at `start`: the pattern
/// numbers from where the left operand stopped, and the escape character is
/// bound as a text value after both operands, at the next placeholder, never
/// written into the SQL. Holds whenever the left operand binds no shared
/// handle and `start` counts from 1.
pub proof fn lemma_like_escape_fragment_composes(left: Scalar, pattern: Scalar, escape: char, start: nat, d: Dialect)
    requires
        start >= 1,
        scalar_render(left.kind, fragment_frame(start), d).1.ledger.len() == 0,
    ensures
        ({
            let l = scalar_fragment(left.kind, start, d);
            let p = scalar_fragment(pattern.kind, start + l.1.len(), d);
            expr_fragment(ExprKind::Like { left, pattern, escape: Some(escape) }, start, d) == (
                l.0 + " LIKE "@ + p.0 + " ESCAPE "@ + param_sql(d, start + l.1.len() + p.1.len()),
                l.1 + p.1 + seq![ValueView::Text(seq![escape])],
            )
        }),
{
    let f = fragment_frame(start);
    let a1 = scalar_render(left.kind, f, d).1;
    let pl = scalar_fragment(left.kind, start, d).1;
    let g = fragment_frame(start + pl.len());
    lemma_scalar_render_extends(left.kind, f, d);
    assert(f.values.len() == stand_ins(start));
    assert(g.values.len() == stand_ins(start + pl.len()));
    assert(a1.ledger =~= g.ledger);
    assert(same_shape(a1, g));
    lemma_scalar_render_shift(pattern.kind, a1, g, d);
    let a2 = scalar_render(pattern.kind, a1, d).1;
    lemma_scalar_render_extends(pattern.kind, a1, d);
    lemma_appended_trans(f, a1, a2);
    let v = ValueView::Text(seq![escape]);
    lemma_push_extends(a2, v);
    lemma_extends_trans(f, a1, a2);
    lemma_appended_trans(f, a2, push_value(a2, v));
    assert(appended(a2, push_value(a2, v)) =~= seq![v]);
}

/// `EXISTS` wraps the subquery, rendered from the buffer's next index, in
/// `EXISTS (…)`; a negated test is the same text behind a leading `NOT `, so
/// it keeps exactly the rows the plain one drops. Either binds the
/// subquery's values after the buffer's.
pub proof fn lemma_exists_negation(k: ExprKind, st: ParamsView, d: Dialect)
    ensures
        k matches ExprKind::Exists { query, negated } ==> {
            let sub = query.select_sql(next_index(st), d);
            &&& expr_render(k, st, d).0 == (if negated { "NOT "@ } else { Seq::<char>::empty() }) + "EXISTS ("@ + sub.0
                + ")"@
            &&& expr_render(k, st, d).1.values == st.values + sub.1
        },
{
    reveal_strlit("NOT EXISTS (");
    reveal_strlit("EXISTS (");
    reveal_strlit("NOT ");
    if let ExprKind::Exists { query, negated } = k {
        let sub = query.select_sql(next_index(st), d).0;
        assert("NOT EXISTS ("@ + sub + ")"@ =~= "NOT "@ + "EXISTS ("@ + sub + ")"@);
        assert(Seq::<char>::empty() + "EXISTS ("@ + sub + ")"@ =~= "EXISTS ("@ + sub + ")"@);
    }
}

/// `IS NULL` and its negation differ exactly by `NOT `, and bind nothing.
pub proof fn lemma_is_null_negation(k: ExprKind, st: ParamsView, d: Dialect)
    ensures
        k matches ExprKind::IsNull { column, negated } ==> expr_render(k, st, d) == (
            column@ + " IS "@ + (if negated { "NOT "@ } else { Seq::<char>::empty() }) + "NULL"@,
            st,
        ),
{
    reveal_strlit(" IS NOT NULL");
    reveal_strlit(" IS NULL");
    reveal_strlit(" IS ");
    reveal_strlit("NOT ");
    reveal_strlit("NULL");
    if let ExprKind::IsNull { column, negated } = k {
        assert(column@ + " IS NOT NULL"@ =~= column@ + " IS "@ + "NOT "@ + "NULL"@);
        assert(column@ + " IS NULL"@ =~= column@ + " IS "@ + Seq::<char>::empty() + "NULL"@);
    }
}

/// Membership in a subquery and its negation differ exactly by ` NOT`
/// before `IN`; the subquery renders after the left operand's values either
/// way.
pub proof fn lemma_in_subquery_negation(k: ExprKind, st: ParamsView, d: Dialect)
    ensures
        k matches ExprKind::InSubquery { left, query, negated } ==> {
            let l = scalar_render(left.kind, st, d);
            let sub = query.select_sql(next_index(l.1), d);
            &&& expr_render(k, st, d).0 == l.0 + (if negated { " NOT"@ } else { Seq::<char>::empty() }) + " IN ("@
                + sub.0 + ")"@
            &&& expr_render(k, st, d).1.values == l.1.values + sub.1
        },
{
    reveal_strlit(" NOT IN (");
    reveal_strlit(" IN (");
    reveal_strlit(" NOT");
    if let ExprKind::InSubquery { left, query, negated } = k {
        let l = scalar_render(left.kind, st, d).0;
        let sub = query.select_sql(next_index(scalar_render(left.kind, st, d).1), d).0;
        assert(l + " NOT IN ("@ + sub + ")"@ =~= l + " NOT"@ + " IN ("@ + sub + ")"@);
        assert(l + " IN ("@ + sub + ")"@ =~= l + Seq::<char>::empty() + " IN ("@ + sub + ")"@);
    }
}

/// A non-empty `IN` list and its negation differ exactly by ` NOT` before
/// `IN`, and bind the same values at the same placeholders.
pub proof fn lemma_in_list_negation(column: String, values: ListSource, st: ParamsView, d: Dialect)
    requires
        list_source_values(values).len() > 0,
    ensures
        expr_render(ExprKind::InList { column, values, negated: true }, st, d).1 == expr_render(
            ExprKind::InList { column, values, negated: false },
            st,
            d,
        ).1,
        ({
            let (first, n, st1) = bind_list_spec(st, values);
            &&& expr_render(ExprKind::InList { column, values, negated: true }, st, d).0 == column@ + " NOT"@
                + " IN ("@ + super::render::param_run(d, first, n) + ")"@
            &&& expr_render(ExprKind::InList { column, values, negated: false }, st, d).0 == column@ + " IN ("@
                + super::render::param_run(d, first, n) + ")"@
        }),
{
    reveal_strlit(" NOT IN (");
    reveal_strlit(" IN (");
    reveal_strlit(" NOT");
    let (first, n, st1) = bind_list_spec(st, values);
    assert(n == list_source_values(values).len());
    assert(column@ + " NOT IN ("@ + super::render::param_run(d, first, n) + ")"@ =~= column@ + " NOT"@ + " IN ("@
        + super::render::param_run(d, first, n) + ")"@);
}

} // verus!

//! Expression trees for WHERE clauses, projections and ordering, rendered per
//! dialect with placeholders numbered from the count already emitted.
pub mod binding;
pub mod raw_params;
pub mod nodes;
pub mod render;
pub mod numbering;
pub mod function_name;
pub mod like;
pub mod predicate;
pub mod scalar;
pub mod order;

pub use binding::{BoundParams, SharedBind, SharedBindList};
pub use nodes::{Expr, Scalar, SelectSource};
pub use order::{OrderBy, JoinCondition, CaseBuilder};
pub use predicate::JsonExpr;
pub use like::like_pattern_literal;

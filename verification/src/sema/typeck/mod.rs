pub mod const_eval;
pub mod const_expr;
pub mod expr;
pub mod intrinsics;
pub mod layout;
pub mod messages;
pub mod names;
pub mod report;
pub mod rules;
pub mod subst;

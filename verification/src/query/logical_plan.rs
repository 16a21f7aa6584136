//! Logical plans: what a query asks for.

use vstd::prelude::*;

use crate::query::ast::AggExpr;
use crate::query::ast::Expr;
use crate::query::ast::JoinKind;
use crate::query::ast::OrderByItem;
use crate::query::ast::ProjectionItem;
use crate::types::DatasetId;
use crate::types::SnapshotId;

verus! {

/// A node of a logical plan.
#[derive(Debug)]
pub enum LogicalNode {
    TableScan { dataset_id: DatasetId, snapshot_id: SnapshotId, columns: Option<Vec<String>> },
    Filter { input: Box<LogicalNode>, predicate: Expr },
    Projection { input: Box<LogicalNode>, items: Vec<ProjectionItem> },
    Aggregate {
        input: Box<LogicalNode>,
        group_by: Vec<Expr>,
        aggregates: Vec<AggExpr>,
        having: Option<Expr>,
    },
    Sort { input: Box<LogicalNode>, keys: Vec<OrderByItem> },
    Limit { input: Box<LogicalNode>, n: u64, offset: u64 },
    Join {
        left: Box<LogicalNode>,
        right: Box<LogicalNode>,
        kind: JoinKind,
        condition: Option<Expr>,
    },
}

/// A logical plan over one snapshot.
#[derive(Debug)]
pub struct LogicalPlan {
    pub root: LogicalNode,
    pub dataset_id: DatasetId,
    pub snapshot_id: SnapshotId,
}

} // verus!

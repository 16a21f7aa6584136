//! Physical plans: execution-ready plans with chunk assignments.

use vstd::prelude::*;

use crate::database::ChunkDescriptor;
use crate::database::SnapshotManifest;
use crate::query::ast::copy_aggregates;
use crate::query::ast::copy_exprs;
use crate::query::ast::AggExpr;
use crate::query::ast::Expr;
use crate::query::ast::JoinKind;
use crate::query::ast::OrderByItem;
use crate::query::ast::ProjectionItem;
use crate::query::logical_plan::LogicalNode;
use crate::query::logical_plan::LogicalPlan;
use crate::types::DatasetId;
use crate::types::SnapshotId;
use crate::types::ZkResult;

verus! {

/// A node of a physical plan.
#[derive(Debug)]
pub enum PhysicalNode {
    /// Sequential scan of specific chunks of a committed snapshot.
    ChunkedScan {
        dataset_id: DatasetId,
        snapshot_id: SnapshotId,
        chunk_indices: Vec<u32>,
        columns: Option<Vec<String>>,
    },
    /// Filter applied to each chunk.
    Filter { input: Box<PhysicalNode>, predicate: Expr },
    /// Column projection.
    Projection { input: Box<PhysicalNode>, items: Vec<ProjectionItem> },
    /// Aggregate of each chunk.
    PartialAggregate { input: Box<PhysicalNode>, group_by: Vec<Expr>, aggregates: Vec<AggExpr> },
    /// Merge of the aggregates of the chunks.
    MergeAggregate {
        input: Box<PhysicalNode>,
        group_by: Vec<Expr>,
        aggregates: Vec<AggExpr>,
        having: Option<Expr>,
    },
    /// Sort.
    Sort { input: Box<PhysicalNode>, keys: Vec<OrderByItem> },
    /// Limit and offset.
    Limit { input: Box<PhysicalNode>, n: u64, offset: u64 },
    /// Hash join of two inputs.
    HashJoin {
        left: Box<PhysicalNode>,
        right: Box<PhysicalNode>,
        kind: JoinKind,
        condition: Option<Expr>,
    },
}

impl PhysicalNode {
    /// The name of the node's kind.
    pub open spec fn name(self) -> &'static str {
        match self {
            PhysicalNode::ChunkedScan { .. } => "ChunkedScan",
            PhysicalNode::Filter { .. } => "Filter",
            PhysicalNode::Projection { .. } => "Projection",
            PhysicalNode::PartialAggregate { .. } => "PartialAggregate",
            PhysicalNode::MergeAggregate { .. } => "MergeAggregate",
            PhysicalNode::Sort { .. } => "Sort",
            PhysicalNode::Limit { .. } => "Limit",
            PhysicalNode::HashJoin { .. } => "HashJoin",
        }
    }

    /// The name of the node's kind.
    pub fn node_name(&self) -> (r: &'static str)
        ensures
            r == self.name(),
    {
        match self {
            PhysicalNode::ChunkedScan { .. } => "ChunkedScan",
            PhysicalNode::Filter { .. } => "Filter",
            PhysicalNode::Projection { .. } => "Projection",
            PhysicalNode::PartialAggregate { .. } => "PartialAggregate",
            PhysicalNode::MergeAggregate { .. } => "MergeAggregate",
            PhysicalNode::Sort { .. } => "Sort",
            PhysicalNode::Limit { .. } => "Limit",
            PhysicalNode::HashJoin { .. } => "HashJoin",
        }
    }
}

/// An execution-ready plan.
#[derive(Debug)]
pub struct PhysicalPlan {
    pub root: PhysicalNode,
    pub snapshot_id: SnapshotId,
    pub dataset_id: DatasetId,
    /// The number of chunks involved.
    pub chunk_count: u32,
    /// The number of rows to be scanned.
    pub estimated_row_count: u64,
}

/// `p` is the translation of `l` over the given chunks: a scan takes all chunks,
/// an aggregate becomes a merge over a partial aggregate, and every other node
/// keeps its kind and what it carries.
pub open spec fn translates(l: LogicalNode, p: PhysicalNode, chunks: Seq<u32>) -> bool
    decreases l,
{
    match l {
        LogicalNode::TableScan { dataset_id, snapshot_id, columns } => p matches PhysicalNode::ChunkedScan {
            dataset_id: d,
            snapshot_id: s,
            chunk_indices: ci,
            columns: c,
        } && d == dataset_id && s == snapshot_id && ci@ == chunks && c == columns,
        LogicalNode::Filter { input, predicate } => p matches PhysicalNode::Filter {
            input: i,
            predicate: q,
        } && translates(*input, *i, chunks) && q == predicate,
        LogicalNode::Projection { input, items } => p matches PhysicalNode::Projection {
            input: i,
            items: t,
        } && translates(*input, *i, chunks) && t == items,
        LogicalNode::Aggregate {
            input,
            group_by,
            aggregates,
            having,
        } => p matches PhysicalNode::MergeAggregate {
            input: m,
            group_by: g,
            aggregates: a,
            having: hv,
        } && g == group_by && a == aggregates && hv == having
            && (*m matches PhysicalNode::PartialAggregate {
            input: i,
            group_by: g2,
            aggregates: a2,
        } && translates(*input, *i, chunks) && g2@ == group_by@ && a2@ == aggregates@),
        LogicalNode::Sort { input, keys } => p matches PhysicalNode::Sort { input: i, keys: k }
            && translates(*input, *i, chunks) && k == keys,
        LogicalNode::Limit { input, n, offset } => p matches PhysicalNode::Limit {
            input: i,
            n: m,
            offset: o,
        } && translates(*input, *i, chunks) && m == n && o == offset,
        LogicalNode::Join { left, right, kind, condition } => p matches PhysicalNode::HashJoin {
            left: x,
            right: y,
            kind: k,
            condition: c,
        } && translates(*left, *x, chunks) && translates(*right, *y, chunks) && k == kind && c
            == condition,
    }
}

/// The chunk indices of a manifest.
pub open spec fn manifest_chunks(chunks: Seq<ChunkDescriptor>) -> Seq<u32> {
    Seq::new(chunks.len(), |i: int| chunks[i].chunk_index)
}

/// `p` is the physical plan of a logical plan over a snapshot.
pub open spec fn assigned(logical: LogicalPlan, manifest: SnapshotManifest, p: PhysicalPlan) -> bool {
    &&& translates(logical.root, p.root, manifest_chunks(manifest.chunks@))
    &&& p.snapshot_id == logical.snapshot_id
    &&& p.dataset_id == logical.dataset_id
    &&& p.chunk_count == manifest.chunks@.len() % 0x1_0000_0000
    &&& p.estimated_row_count == manifest.row_count
}

/// Makes physical plans of logical plans.
pub struct PhysicalPlanner;

impl PhysicalPlanner {
    /// Assigns the chunks of a snapshot to a logical plan.
    pub fn plan(logical: LogicalPlan, manifest: &SnapshotManifest) -> (r: ZkResult<PhysicalPlan>)
        ensures
            r matches Ok(p) && {
                &&& translates(logical.root, p.root, manifest_chunks(manifest.chunks@))
                &&& p.snapshot_id == logical.snapshot_id
                &&& p.dataset_id == logical.dataset_id
                &&& p.chunk_count == manifest.chunks@.len() % 0x1_0000_0000
                &&& p.estimated_row_count == manifest.row_count
            },
            r matches Ok(p) ==> assigned(logical, *manifest, p),
    {
        let mut chunk_indices: Vec<u32> = Vec::new();
        let mut i: usize = 0;
        while i < manifest.chunks.len()
            invariant
                i <= manifest.chunks@.len(),
                chunk_indices@ =~= manifest_chunks(manifest.chunks@).take(i as int),
            decreases manifest.chunks@.len() - i,
        {
            chunk_indices.push(manifest.chunks[i].chunk_index);
            i = i + 1;
        }
        assert(chunk_indices@ =~= manifest_chunks(manifest.chunks@));
        let chunk_count: u32 = (chunk_indices.len() as u64 % 0x1_0000_0000) as u32;
        let root: PhysicalNode = match Self::translate_node(logical.root, &chunk_indices) {
            Ok(n) => n,
            Err(e) => {
                return Err(e);
            },
        };
        Ok(
            PhysicalPlan {
                root,
                snapshot_id: logical.snapshot_id,
                dataset_id: logical.dataset_id,
                chunk_count,
                estimated_row_count: manifest.row_count,
            },
        )
    }

    /// Translates one node and what is below it.
    fn translate_node(node: LogicalNode, chunk_indices: &Vec<u32>) -> (r: ZkResult<PhysicalNode>)
        ensures
            r matches Ok(p) && translates(node, p, chunk_indices@),
        decreases node,
    {
        match node {
            LogicalNode::TableScan { dataset_id, snapshot_id, columns } => {
                let mut chunks: Vec<u32> = Vec::new();
                let mut i: usize = 0;
                while i < chunk_indices.len()
                    invariant
                        i <= chunk_indices@.len(),
                        chunks@ =~= chunk_indices@.take(i as int),
                    decreases chunk_indices@.len() - i,
                {
                    chunks.push(chunk_indices[i]);
                    i = i + 1;
                }
                assert(chunks@ =~= chunk_indices@);
                Ok(
                    PhysicalNode::ChunkedScan {
                        dataset_id,
                        snapshot_id,
                        chunk_indices: chunks,
                        columns,
                    },
                )
            },
            LogicalNode::Filter { input, predicate } => {
                let phys_input: PhysicalNode = match Self::translate_node(*input, chunk_indices) {
                    Ok(n) => n,
                    Err(e) => {
                        return Err(e);
                    },
                };
                Ok(PhysicalNode::Filter { input: Box::new(phys_input), predicate })
            },
            LogicalNode::Projection { input, items } => {
                let phys_input: PhysicalNode = match Self::translate_node(*input, chunk_indices) {
                    Ok(n) => n,
                    Err(e) => {
                        return Err(e);
                    },
                };
                Ok(PhysicalNode::Projection { input: Box::new(phys_input), items })
            },
            LogicalNode::Aggregate { input, group_by, aggregates, having } => {
                let phys_input: PhysicalNode = match Self::translate_node(*input, chunk_indices) {
                    Ok(n) => n,
                    Err(e) => {
                        return Err(e);
                    },
                };
                // Two-phase aggregation: partial, then merge.
                let partial: PhysicalNode = PhysicalNode::PartialAggregate {
                    input: Box::new(phys_input),
                    group_by: copy_exprs(&group_by),
                    aggregates: copy_aggregates(&aggregates),
                };
                Ok(
                    PhysicalNode::MergeAggregate {
                        input: Box::new(partial),
                        group_by,
                        aggregates,
                        having,
                    },
                )
            },
            LogicalNode::Sort { input, keys } => {
                let phys_input: PhysicalNode = match Self::translate_node(*input, chunk_indices) {
                    Ok(n) => n,
                    Err(e) => {
                        return Err(e);
                    },
                };
                Ok(PhysicalNode::Sort { input: Box::new(phys_input), keys })
            },
            LogicalNode::Limit { input, n, offset } => {
                let phys_input: PhysicalNode = match Self::translate_node(*input, chunk_indices) {
                    Ok(p) => p,
                    Err(e) => {
                        return Err(e);
                    },
                };
                Ok(PhysicalNode::Limit { input: Box::new(phys_input), n, offset })
            },
            LogicalNode::Join { left, right, kind, condition } => {
                let phys_left: PhysicalNode = match Self::translate_node(*left, chunk_indices) {
                    Ok(n) => n,
                    Err(e) => {
                        return Err(e);
                    },
                };
                let phys_right: PhysicalNode = match Self::translate_node(*right, chunk_indices) {
                    Ok(n) => n,
                    Err(e) => {
                        return Err(e);
                    },
                };
                Ok(
                    PhysicalNode::HashJoin {
                        left: Box::new(phys_left),
                        right: Box::new(phys_right),
                        kind,
                        condition,
                    },
                )
            },
        }
    }
}

} // verus!

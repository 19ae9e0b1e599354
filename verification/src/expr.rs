//! The tree a filter is parsed into, and which tasks it selects.

use crate::text::texts;
use crate::types::Status;
use crate::when::stamp_instant;
use vstd::prelude::*;

verus! {

/// A single predicate. Date bounds are instants, in nanoseconds since the Unix
/// epoch: an unreadable bound cannot be written down.
#[derive(Debug, PartialEq, Eq)]
pub enum Pred {
    /// The task has this status.
    Status(Status),
    /// The task belongs to this project.
    Project(String),
    /// The task carries this tag.
    TagInclude(String),
    /// The task does not carry this tag.
    TagExclude(String),
    /// The task is due before this instant.
    DueBefore(i128),
    /// The task is due after this instant.
    DueAfter(i128),
    /// The task was completed before this instant.
    CompletedBefore(i128),
    /// The task was completed after this instant.
    CompletedAfter(i128),
    /// The task is pending or active, and not blocked.
    Working,
    /// The task waits for another.
    Blocked,
    /// No restriction: the empty filter.
    Always,
}

/// What a [`Pred`] says.
pub ghost enum PredV {
    Status(Status),
    Project(Seq<char>),
    TagInclude(Seq<char>),
    TagExclude(Seq<char>),
    DueBefore(int),
    DueAfter(int),
    CompletedBefore(int),
    CompletedAfter(int),
    Working,
    Blocked,
    Always,
}

impl View for Pred {
    type V = PredV;

    open spec fn view(&self) -> PredV {
        match *self {
            Pred::Status(s) => PredV::Status(s),
            Pred::Project(p) => PredV::Project(p@),
            Pred::TagInclude(t) => PredV::TagInclude(t@),
            Pred::TagExclude(t) => PredV::TagExclude(t@),
            Pred::DueBefore(n) => PredV::DueBefore(n as int),
            Pred::DueAfter(n) => PredV::DueAfter(n as int),
            Pred::CompletedBefore(n) => PredV::CompletedBefore(n as int),
            Pred::CompletedAfter(n) => PredV::CompletedAfter(n as int),
            Pred::Working => PredV::Working,
            Pred::Blocked => PredV::Blocked,
            Pred::Always => PredV::Always,
        }
    }
}

/// A filter's tree.
#[derive(Debug, PartialEq, Eq)]
pub enum Expr {
    /// Every child selects the task.
    And(Vec<Expr>),
    /// At least one child selects the task.
    Or(Vec<Expr>),
    /// A leaf.
    Pred(Pred),
}

/// What an [`Expr`] says.
pub ghost enum ExprV {
    And(Seq<ExprV>),
    Or(Seq<ExprV>),
    Pred(PredV),
}

/// The meaning of a tree, node by node.
pub open spec fn expr_view(e: Expr) -> ExprV
    decreases e,
{
    match e {
        Expr::And(v) => ExprV::And(
            Seq::new(
                v@.len(),
                |i: int|
                    if 0 <= i < v@.len() {
                        expr_view(v@[i])
                    } else {
                        ExprV::Pred(PredV::Always)
                    },
            ),
        ),
        Expr::Or(v) => ExprV::Or(
            Seq::new(
                v@.len(),
                |i: int|
                    if 0 <= i < v@.len() {
                        expr_view(v@[i])
                    } else {
                        ExprV::Pred(PredV::Always)
                    },
            ),
        ),
        Expr::Pred(p) => ExprV::Pred(p@),
    }
}

impl View for Expr {
    type V = ExprV;

    open spec fn view(&self) -> ExprV {
        expr_view(*self)
    }
}

/// What a list of trees says.
pub open spec fn exprs(v: Seq<Expr>) -> Seq<ExprV> {
    v.map_values(|e: Expr| e@)
}

/// A conjunction's meaning is the meanings of its children.
pub broadcast proof fn and_view(v: Vec<Expr>)
    ensures
        #[trigger] expr_view(Expr::And(v)) == ExprV::And(exprs(v@)),
{
    assert(expr_view(Expr::And(v))->And_0 =~= exprs(v@));
}

/// A disjunction's meaning is the meanings of its children.
pub broadcast proof fn or_view(v: Vec<Expr>)
    ensures
        #[trigger] expr_view(Expr::Or(v)) == ExprV::Or(exprs(v@)),
{
    assert(expr_view(Expr::Or(v))->Or_0 =~= exprs(v@));
}

/// One more child, one more meaning.
pub broadcast proof fn exprs_push(v: Seq<Expr>, e: Expr)
    ensures
        #[trigger] exprs(v.push(e)) == exprs(v).push(e@),
{
    assert(exprs(v.push(e)) =~= exprs(v).push(e@));
}

/// What the views of trees are made of.
pub broadcast group group_expr {
    and_view,
    or_view,
    exprs_push,
}

/// What a predicate is asked of: the fields of one task.
pub struct MatchCtx<'a> {
    pub status: Status,
    /// The task's project, if it belongs to one.
    pub project: Option<&'a str>,
    pub tags: &'a [String],
    /// The due stamp as stored.
    pub due: Option<&'a str>,
    /// The completion stamp as stored, if the task is closed.
    pub completed: Option<&'a str>,
    /// Whether some dependency of the task is still open.
    pub blocked: bool,
}

/// What a [`MatchCtx`] says.
pub ghost struct CtxV {
    pub status: Status,
    pub project: Option<Seq<char>>,
    pub tags: Seq<Seq<char>>,
    pub due: Option<Seq<char>>,
    pub completed: Option<Seq<char>>,
    pub blocked: bool,
}

/// The text an optional slice holds.
pub open spec fn opt_str_view(s: Option<&str>) -> Option<Seq<char>> {
    match s {
        Some(s) => Some(s@),
        None => None,
    }
}

impl<'a> View for MatchCtx<'a> {
    type V = CtxV;

    open spec fn view(&self) -> CtxV {
        CtxV {
            status: self.status,
            project: opt_str_view(self.project),
            tags: texts(self.tags@),
            due: opt_str_view(self.due),
            completed: opt_str_view(self.completed),
            blocked: self.blocked,
        }
    }
}

/// The instant a stored stamp names, if there is a readable one.
pub open spec fn field_instant(field: Option<Seq<char>>) -> Option<int> {
    match field {
        Some(s) => stamp_instant(s),
        None => None,
    }
}

/// Whether a date field lies strictly on the asked side of a bound. A field
/// with no readable stamp lies on neither.
pub open spec fn bounded(field: Option<Seq<char>>, bound: int, before: bool) -> bool {
    match field_instant(field) {
        Some(n) => if before {
            n < bound
        } else {
            n > bound
        },
        None => false,
    }
}

/// Whether a predicate selects a task.
pub open spec fn pred_holds(p: PredV, c: CtxV) -> bool {
    match p {
        PredV::Always => true,
        PredV::Status(s) => s == c.status,
        PredV::Project(n) => c.project == Some(n),
        PredV::TagInclude(t) => c.tags.contains(t),
        PredV::TagExclude(t) => !c.tags.contains(t),
        PredV::Working => (c.status == Status::Pending || c.status == Status::Active) && !c.blocked,
        PredV::Blocked => c.blocked,
        PredV::DueBefore(n) => bounded(c.due, n, true),
        PredV::DueAfter(n) => bounded(c.due, n, false),
        PredV::CompletedBefore(n) => bounded(c.completed, n, true),
        PredV::CompletedAfter(n) => bounded(c.completed, n, false),
    }
}

/// Whether a tree selects a task.
pub open spec fn holds(e: ExprV, c: CtxV) -> bool
    decreases e,
{
    match e {
        ExprV::And(v) => forall|i: int| 0 <= i < v.len() ==> holds(#[trigger] v[i], c),
        ExprV::Or(v) => exists|i: int| 0 <= i < v.len() && holds(#[trigger] v[i], c),
        ExprV::Pred(p) => pred_holds(p, c),
    }
}

/// A conjunction does not hold where a child does not.
pub proof fn and_fails(v: Seq<ExprV>, i: int, c: CtxV)
    requires
        0 <= i < v.len(),
        !holds(v[i], c),
    ensures
        !holds(ExprV::And(v), c),
{
    assert(ExprV::And(v)->And_0[i] == v[i]);
}

/// A disjunction holds where a child does.
pub proof fn or_holds(v: Seq<ExprV>, i: int, c: CtxV)
    requires
        0 <= i < v.len(),
        holds(v[i], c),
    ensures
        holds(ExprV::Or(v), c),
{
    assert(ExprV::Or(v)->Or_0[i] == v[i]);
}

/// Whether some leaf of a tree names a status set.
pub open spec fn names_status(e: ExprV) -> bool
    decreases e,
{
    match e {
        ExprV::And(v) => exists|i: int| 0 <= i < v.len() && names_status(#[trigger] v[i]),
        ExprV::Or(v) => exists|i: int| 0 <= i < v.len() && names_status(#[trigger] v[i]),
        ExprV::Pred(p) => p is Status || p is Working,
    }
}

/// A node names a status set where a child does.
pub proof fn child_names_status(v: Seq<ExprV>, i: int)
    requires
        0 <= i < v.len(),
        names_status(v[i]),
    ensures
        names_status(ExprV::And(v)),
        names_status(ExprV::Or(v)),
{
    assert(ExprV::And(v)->And_0[i] == v[i]);
    assert(ExprV::Or(v)->Or_0[i] == v[i]);
}

/// The projects the leaves of the first `n` of `v` name, in order.
pub open spec fn projects_in(v: Seq<ExprV>, n: nat) -> Seq<Seq<char>>
    decreases v, n,
{
    if n == 0 || n > v.len() {
        Seq::empty()
    } else {
        projects_in(v, (n - 1) as nat) + projects_named(v[n - 1])
    }
}

/// The projects the leaves of a tree name, in order.
pub open spec fn projects_named(e: ExprV) -> Seq<Seq<char>>
    decreases e, 0nat,
{
    match e {
        ExprV::And(v) => projects_in(v, v.len()),
        ExprV::Or(v) => projects_in(v, v.len()),
        ExprV::Pred(PredV::Project(p)) => seq![p],
        ExprV::Pred(_) => Seq::empty(),
    }
}

} // verus!

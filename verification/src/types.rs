//! The closed vocabularies of a task: its status, its priority, and the kinds
//! of entity an event can be about.

use crate::text::same;
use vstd::prelude::*;

verus! {

/// Where a task stands.
#[derive(Debug, Clone, Copy, PartialEq, Eq, Structural)]
pub enum Status {
    /// Scheduled for later: outside the working set.
    Backlog,
    Pending,
    Active,
    Done,
    Cancelled,
}

impl Status {
    /// Every status, in the order a refusal lists them.
    pub const ALL: [Status; 5] = [
        Status::Backlog,
        Status::Pending,
        Status::Active,
        Status::Done,
        Status::Cancelled,
    ];

    /// The word for this status.
    pub open spec fn name(self) -> Seq<char> {
        match self {
            Status::Backlog => "backlog"@,
            Status::Pending => "pending"@,
            Status::Active => "active"@,
            Status::Done => "done"@,
            Status::Cancelled => "cancelled"@,
        }
    }

    /// The word for this status.
    pub fn as_str(self) -> (r: &'static str)
        ensures
            r@ == self.name(),
    {
        match self {
            Status::Backlog => "backlog",
            Status::Pending => "pending",
            Status::Active => "active",
            Status::Done => "done",
            Status::Cancelled => "cancelled",
        }
    }

    /// The status whose word is exactly `s`.
    pub fn parse(s: &str) -> (r: Option<Status>)
        ensures
            r == status_named(s@),
    {
        if same(s, "backlog") {
            Some(Status::Backlog)
        } else if same(s, "pending") {
            Some(Status::Pending)
        } else if same(s, "active") {
            Some(Status::Active)
        } else if same(s, "done") {
            Some(Status::Done)
        } else if same(s, "cancelled") {
            Some(Status::Cancelled)
        } else {
            None
        }
    }

    /// The accepted words, as a refusal lists them.
    pub fn accepted() -> (r: &'static str)
        ensures
            r@ == statuses_accepted(),
    {
        "backlog, pending, active, done, cancelled"
    }
}

/// The accepted status words, as a refusal lists them.
pub open spec fn statuses_accepted() -> Seq<char> {
    "backlog, pending, active, done, cancelled"@
}

/// The status whose word is exactly `s`.
pub open spec fn status_named(s: Seq<char>) -> Option<Status> {
    if s == "backlog"@ {
        Some(Status::Backlog)
    } else if s == "pending"@ {
        Some(Status::Pending)
    } else if s == "active"@ {
        Some(Status::Active)
    } else if s == "done"@ {
        Some(Status::Done)
    } else if s == "cancelled"@ {
        Some(Status::Cancelled)
    } else {
        None
    }
}

/// A status's word names that status and no other.
pub proof fn status_word_names_itself(s: Status)
    ensures
        status_named(s.name()) == Some(s),
{
    reveal_strlit("backlog");
    reveal_strlit("pending");
    reveal_strlit("active");
    reveal_strlit("done");
    reveal_strlit("cancelled");
    assert("backlog"@.len() == 7 && "backlog"@[0] == 'b');
    assert("pending"@.len() == 7 && "pending"@[0] == 'p');
    assert("active"@.len() == 6);
    assert("done"@.len() == 4);
    assert("cancelled"@.len() == 9);
}

/// Only a status's own word names it.
pub proof fn named_status_has_that_word(s: Seq<char>)
    ensures
        status_named(s) is Some ==> status_named(s)->0.name() == s,
{
}

/// How pressing a task is.
#[derive(Debug, Clone, Copy, PartialEq, Eq, Structural)]
pub enum Priority {
    High,
    Medium,
    Low,
}

impl Priority {
    /// Every priority, most pressing first.
    pub const ALL: [Priority; 3] = [Priority::High, Priority::Medium, Priority::Low];

    /// The letter for this priority.
    pub open spec fn name(self) -> Seq<char> {
        match self {
            Priority::High => "H"@,
            Priority::Medium => "M"@,
            Priority::Low => "L"@,
        }
    }

    /// The letter for this priority.
    pub fn as_str(self) -> (r: &'static str)
        ensures
            r@ == self.name(),
    {
        match self {
            Priority::High => "H",
            Priority::Medium => "M",
            Priority::Low => "L",
        }
    }

    /// The priority whose letter is exactly `s`.
    pub fn parse(s: &str) -> (r: Option<Priority>)
        ensures
            r == priority_named(s@),
    {
        if same(s, "H") {
            Some(Priority::High)
        } else if same(s, "M") {
            Some(Priority::Medium)
        } else if same(s, "L") {
            Some(Priority::Low)
        } else {
            None
        }
    }

    /// The accepted letters, as a refusal lists them.
    pub fn accepted() -> (r: &'static str)
        ensures
            r@ == priorities_accepted(),
    {
        "H, M, L"
    }
}

/// The accepted priority letters, as a refusal lists them.
pub open spec fn priorities_accepted() -> Seq<char> {
    "H, M, L"@
}

/// The priority whose letter is exactly `s`.
pub open spec fn priority_named(s: Seq<char>) -> Option<Priority> {
    if s == "H"@ {
        Some(Priority::High)
    } else if s == "M"@ {
        Some(Priority::Medium)
    } else if s == "L"@ {
        Some(Priority::Low)
    } else {
        None
    }
}

/// A priority's letter names that priority and no other.
pub proof fn priority_letter_names_itself(p: Priority)
    ensures
        priority_named(p.name()) == Some(p),
{
    reveal_strlit("H");
    reveal_strlit("M");
    reveal_strlit("L");
    assert("H"@[0] == 'H');
    assert("M"@[0] == 'M');
    assert("L"@[0] == 'L');
}

/// What an event is about.
#[derive(Debug, Clone, Copy, PartialEq, Eq, Structural)]
pub enum Entity {
    Task,
    Project,
    Doc,
    Link,
}

impl Entity {
    /// The word for this kind.
    pub open spec fn name(self) -> Seq<char> {
        match self {
            Entity::Task => "task"@,
            Entity::Project => "project"@,
            Entity::Doc => "doc"@,
            Entity::Link => "link"@,
        }
    }

    /// The word for this kind.
    pub fn as_str(self) -> (r: &'static str)
        ensures
            r@ == self.name(),
    {
        match self {
            Entity::Task => "task",
            Entity::Project => "project",
            Entity::Doc => "doc",
            Entity::Link => "link",
        }
    }

    /// The kind whose word is exactly `s`.
    pub fn parse(s: &str) -> (r: Option<Entity>)
        ensures
            r == entity_named(s@),
    {
        if same(s, "task") {
            Some(Entity::Task)
        } else if same(s, "project") {
            Some(Entity::Project)
        } else if same(s, "doc") {
            Some(Entity::Doc)
        } else if same(s, "link") {
            Some(Entity::Link)
        } else {
            None
        }
    }

    /// The accepted words, as a refusal lists them.
    pub fn accepted() -> (r: &'static str)
        ensures
            r@ == entities_accepted(),
    {
        "task, project, doc, link"
    }
}

/// The accepted entity words, as a refusal lists them.
pub open spec fn entities_accepted() -> Seq<char> {
    "task, project, doc, link"@
}

/// The kind whose word is exactly `s`.
pub open spec fn entity_named(s: Seq<char>) -> Option<Entity> {
    if s == "task"@ {
        Some(Entity::Task)
    } else if s == "project"@ {
        Some(Entity::Project)
    } else if s == "doc"@ {
        Some(Entity::Doc)
    } else if s == "link"@ {
        Some(Entity::Link)
    } else {
        None
    }
}

/// A kind's word names that kind and no other.
pub proof fn entity_word_names_itself(e: Entity)
    ensures
        entity_named(e.name()) == Some(e),
{
    reveal_strlit("task");
    reveal_strlit("project");
    reveal_strlit("doc");
    reveal_strlit("link");
    assert("task"@.len() == 4 && "task"@[0] == 't');
    assert("project"@.len() == 7);
    assert("doc"@.len() == 3);
    assert("link"@.len() == 4 && "link"@[0] == 'l');
}

} // verus!

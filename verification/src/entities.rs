//! Value objects of the domain: statuses, roles and event kinds, each with its
//! fixed textual form used in storage and in the HTTP API.

use vstd::prelude::*;
use crate::text::{str_eq, join2};

verus! {

/// User roles; the permission matrix lives in `permissions`.
#[derive(Debug, Clone, Copy, PartialEq, Eq, Hash, Structural)]
pub enum Role {
    Admin,
    ProjectManager,
    TeamLeader,
    Worker,
    Viewer,
}

impl Role {
    /// The textual form of the value.
    pub open spec fn name(self) -> Seq<char> {
        match self {
            Role::Admin => "ADMIN"@,
            Role::ProjectManager => "PROJECT_MANAGER"@,
            Role::TeamLeader => "TEAM_LEADER"@,
            Role::Worker => "WORKER"@,
            Role::Viewer => "VIEWER"@,
        }
    }

    /// The textual form of the value.
    pub fn as_str(&self) -> (r: &'static str)
        ensures
            r@ == self.name(),
    {
        match self {
            Role::Admin => "ADMIN",
            Role::ProjectManager => "PROJECT_MANAGER",
            Role::TeamLeader => "TEAM_LEADER",
            Role::Worker => "WORKER",
            Role::Viewer => "VIEWER",
        }
    }

    /// Parses the textual form; any other text is refused with a message
    /// naming the type and the offending text.
    pub fn from_text(s: &str) -> (r: Result<Role, String>)
        ensures
            match r {
                Ok(v) => v.name() == s@,
                Err(m) => (forall|v: Role| v.name() != s@) && m@ == "geçersiz Role: "@ + s@,
            },
    {
        if str_eq(s, "ADMIN") {
            return Ok(Role::Admin);
        }
        if str_eq(s, "PROJECT_MANAGER") {
            return Ok(Role::ProjectManager);
        }
        if str_eq(s, "TEAM_LEADER") {
            return Ok(Role::TeamLeader);
        }
        if str_eq(s, "WORKER") {
            return Ok(Role::Worker);
        }
        if str_eq(s, "VIEWER") {
            return Ok(Role::Viewer);
        }
        Err(join2("geçersiz Role: ", s))
    }
}

/// Project life cycle states.
#[derive(Debug, Clone, Copy, PartialEq, Eq, Hash, Structural)]
pub enum ProjectStatus {
    Draft,
    Active,
    Paused,
    Completed,
    Cancelled,
    Archived,
}

impl ProjectStatus {
    /// The textual form of the value.
    pub open spec fn name(self) -> Seq<char> {
        match self {
            ProjectStatus::Draft => "DRAFT"@,
            ProjectStatus::Active => "ACTIVE"@,
            ProjectStatus::Paused => "PAUSED"@,
            ProjectStatus::Completed => "COMPLETED"@,
            ProjectStatus::Cancelled => "CANCELLED"@,
            ProjectStatus::Archived => "ARCHIVED"@,
        }
    }

    /// The textual form of the value.
    pub fn as_str(&self) -> (r: &'static str)
        ensures
            r@ == self.name(),
    {
        match self {
            ProjectStatus::Draft => "DRAFT",
            ProjectStatus::Active => "ACTIVE",
            ProjectStatus::Paused => "PAUSED",
            ProjectStatus::Completed => "COMPLETED",
            ProjectStatus::Cancelled => "CANCELLED",
            ProjectStatus::Archived => "ARCHIVED",
        }
    }

    /// Parses the textual form; any other text is refused with a message
    /// naming the type and the offending text.
    pub fn from_text(s: &str) -> (r: Result<ProjectStatus, String>)
        ensures
            match r {
                Ok(v) => v.name() == s@,
                Err(m) => (forall|v: ProjectStatus| v.name() != s@) && m@ == "geçersiz ProjectStatus: "@ + s@,
            },
    {
        if str_eq(s, "DRAFT") {
            return Ok(ProjectStatus::Draft);
        }
        if str_eq(s, "ACTIVE") {
            return Ok(ProjectStatus::Active);
        }
        if str_eq(s, "PAUSED") {
            return Ok(ProjectStatus::Paused);
        }
        if str_eq(s, "COMPLETED") {
            return Ok(ProjectStatus::Completed);
        }
        if str_eq(s, "CANCELLED") {
            return Ok(ProjectStatus::Cancelled);
        }
        if str_eq(s, "ARCHIVED") {
            return Ok(ProjectStatus::Archived);
        }
        Err(join2("geçersiz ProjectStatus: ", s))
    }
}

/// Role of a member inside a team.
#[derive(Debug, Clone, Copy, PartialEq, Eq, Hash, Structural)]
pub enum TeamRole {
    Leader,
    Member,
}

impl TeamRole {
    /// The textual form of the value.
    pub open spec fn name(self) -> Seq<char> {
        match self {
            TeamRole::Leader => "LEADER"@,
            TeamRole::Member => "MEMBER"@,
        }
    }

    /// The textual form of the value.
    pub fn as_str(&self) -> (r: &'static str)
        ensures
            r@ == self.name(),
    {
        match self {
            TeamRole::Leader => "LEADER",
            TeamRole::Member => "MEMBER",
        }
    }

    /// Parses the textual form; any other text is refused with a message
    /// naming the type and the offending text.
    pub fn from_text(s: &str) -> (r: Result<TeamRole, String>)
        ensures
            match r {
                Ok(v) => v.name() == s@,
                Err(m) => (forall|v: TeamRole| v.name() != s@) && m@ == "geçersiz TeamRole: "@ + s@,
            },
    {
        if str_eq(s, "LEADER") {
            return Ok(TeamRole::Leader);
        }
        if str_eq(s, "MEMBER") {
            return Ok(TeamRole::Member);
        }
        Err(join2("geçersiz TeamRole: ", s))
    }
}

/// Work item priority.
#[derive(Debug, Clone, Copy, PartialEq, Eq, Hash, Structural)]
pub enum Priority {
    Low,
    Normal,
    High,
    Urgent,
}

impl Priority {
    /// The textual form of the value.
    pub open spec fn name(self) -> Seq<char> {
        match self {
            Priority::Low => "LOW"@,
            Priority::Normal => "NORMAL"@,
            Priority::High => "HIGH"@,
            Priority::Urgent => "URGENT"@,
        }
    }

    /// The textual form of the value.
    pub fn as_str(&self) -> (r: &'static str)
        ensures
            r@ == self.name(),
    {
        match self {
            Priority::Low => "LOW",
            Priority::Normal => "NORMAL",
            Priority::High => "HIGH",
            Priority::Urgent => "URGENT",
        }
    }

    /// Parses the textual form; any other text is refused with a message
    /// naming the type and the offending text.
    pub fn from_text(s: &str) -> (r: Result<Priority, String>)
        ensures
            match r {
                Ok(v) => v.name() == s@,
                Err(m) => (forall|v: Priority| v.name() != s@) && m@ == "geçersiz Priority: "@ + s@,
            },
    {
        if str_eq(s, "LOW") {
            return Ok(Priority::Low);
        }
        if str_eq(s, "NORMAL") {
            return Ok(Priority::Normal);
        }
        if str_eq(s, "HIGH") {
            return Ok(Priority::High);
        }
        if str_eq(s, "URGENT") {
            return Ok(Priority::Urgent);
        }
        Err(join2("geçersiz Priority: ", s))
    }
}

/// Work item status, derived from its process executions.
#[derive(Debug, Clone, Copy, PartialEq, Eq, Hash, Structural)]
pub enum WorkItemStatus {
    Pending,
    Ready,
    InProgress,
    Paused,
    Blocked,
    Completed,
    Cancelled,
}

impl WorkItemStatus {
    /// The textual form of the value.
    pub open spec fn name(self) -> Seq<char> {
        match self {
            WorkItemStatus::Pending => "PENDING"@,
            WorkItemStatus::Ready => "READY"@,
            WorkItemStatus::InProgress => "IN_PROGRESS"@,
            WorkItemStatus::Paused => "PAUSED"@,
            WorkItemStatus::Blocked => "BLOCKED"@,
            WorkItemStatus::Completed => "COMPLETED"@,
            WorkItemStatus::Cancelled => "CANCELLED"@,
        }
    }

    /// The textual form of the value.
    pub fn as_str(&self) -> (r: &'static str)
        ensures
            r@ == self.name(),
    {
        match self {
            WorkItemStatus::Pending => "PENDING",
            WorkItemStatus::Ready => "READY",
            WorkItemStatus::InProgress => "IN_PROGRESS",
            WorkItemStatus::Paused => "PAUSED",
            WorkItemStatus::Blocked => "BLOCKED",
            WorkItemStatus::Completed => "COMPLETED",
            WorkItemStatus::Cancelled => "CANCELLED",
        }
    }

    /// Parses the textual form; any other text is refused with a message
    /// naming the type and the offending text.
    pub fn from_text(s: &str) -> (r: Result<WorkItemStatus, String>)
        ensures
            match r {
                Ok(v) => v.name() == s@,
                Err(m) => (forall|v: WorkItemStatus| v.name() != s@) && m@ == "geçersiz WorkItemStatus: "@ + s@,
            },
    {
        if str_eq(s, "PENDING") {
            return Ok(WorkItemStatus::Pending);
        }
        if str_eq(s, "READY") {
            return Ok(WorkItemStatus::Ready);
        }
        if str_eq(s, "IN_PROGRESS") {
            return Ok(WorkItemStatus::InProgress);
        }
        if str_eq(s, "PAUSED") {
            return Ok(WorkItemStatus::Paused);
        }
        if str_eq(s, "BLOCKED") {
            return Ok(WorkItemStatus::Blocked);
        }
        if str_eq(s, "COMPLETED") {
            return Ok(WorkItemStatus::Completed);
        }
        if str_eq(s, "CANCELLED") {
            return Ok(WorkItemStatus::Cancelled);
        }
        Err(join2("geçersiz WorkItemStatus: ", s))
    }
}

/// Process execution status: the state of the process state machine.
#[derive(Debug, Clone, Copy, PartialEq, Eq, Hash, Structural)]
pub enum ProcessStatus {
    Pending,
    Ready,
    InProgress,
    Paused,
    Blocked,
    Completed,
    Cancelled,
}

impl ProcessStatus {
    /// The textual form of the value.
    pub open spec fn name(self) -> Seq<char> {
        match self {
            ProcessStatus::Pending => "PENDING"@,
            ProcessStatus::Ready => "READY"@,
            ProcessStatus::InProgress => "IN_PROGRESS"@,
            ProcessStatus::Paused => "PAUSED"@,
            ProcessStatus::Blocked => "BLOCKED"@,
            ProcessStatus::Completed => "COMPLETED"@,
            ProcessStatus::Cancelled => "CANCELLED"@,
        }
    }

    /// The textual form of the value.
    pub fn as_str(&self) -> (r: &'static str)
        ensures
            r@ == self.name(),
    {
        match self {
            ProcessStatus::Pending => "PENDING",
            ProcessStatus::Ready => "READY",
            ProcessStatus::InProgress => "IN_PROGRESS",
            ProcessStatus::Paused => "PAUSED",
            ProcessStatus::Blocked => "BLOCKED",
            ProcessStatus::Completed => "COMPLETED",
            ProcessStatus::Cancelled => "CANCELLED",
        }
    }

    /// Parses the textual form; any other text is refused with a message
    /// naming the type and the offending text.
    pub fn from_text(s: &str) -> (r: Result<ProcessStatus, String>)
        ensures
            match r {
                Ok(v) => v.name() == s@,
                Err(m) => (forall|v: ProcessStatus| v.name() != s@) && m@ == "geçersiz ProcessStatus: "@ + s@,
            },
    {
        if str_eq(s, "PENDING") {
            return Ok(ProcessStatus::Pending);
        }
        if str_eq(s, "READY") {
            return Ok(ProcessStatus::Ready);
        }
        if str_eq(s, "IN_PROGRESS") {
            return Ok(ProcessStatus::InProgress);
        }
        if str_eq(s, "PAUSED") {
            return Ok(ProcessStatus::Paused);
        }
        if str_eq(s, "BLOCKED") {
            return Ok(ProcessStatus::Blocked);
        }
        if str_eq(s, "COMPLETED") {
            return Ok(ProcessStatus::Completed);
        }
        if str_eq(s, "CANCELLED") {
            return Ok(ProcessStatus::Cancelled);
        }
        Err(join2("geçersiz ProcessStatus: ", s))
    }
}

/// Kinds of entries in the append-only process event log.
#[derive(Debug, Clone, Copy, PartialEq, Eq, Hash, Structural)]
pub enum EventType {
    Created,
    Ready,
    Assigned,
    Started,
    Paused,
    Resumed,
    Blocked,
    Unblocked,
    Completed,
    Reopened,
    Cancelled,
    NoteAdded,
    FileAdded,
    AssigneeChanged,
    PlannedDateChanged,
}

impl EventType {
    /// The textual form of the value.
    pub open spec fn name(self) -> Seq<char> {
        match self {
            EventType::Created => "CREATED"@,
            EventType::Ready => "READY"@,
            EventType::Assigned => "ASSIGNED"@,
            EventType::Started => "STARTED"@,
            EventType::Paused => "PAUSED"@,
            EventType::Resumed => "RESUMED"@,
            EventType::Blocked => "BLOCKED"@,
            EventType::Unblocked => "UNBLOCKED"@,
            EventType::Completed => "COMPLETED"@,
            EventType::Reopened => "REOPENED"@,
            EventType::Cancelled => "CANCELLED"@,
            EventType::NoteAdded => "NOTE_ADDED"@,
            EventType::FileAdded => "FILE_ADDED"@,
            EventType::AssigneeChanged => "ASSIGNEE_CHANGED"@,
            EventType::PlannedDateChanged => "PLANNED_DATE_CHANGED"@,
        }
    }

    /// The textual form of the value.
    pub fn as_str(&self) -> (r: &'static str)
        ensures
            r@ == self.name(),
    {
        match self {
            EventType::Created => "CREATED",
            EventType::Ready => "READY",
            EventType::Assigned => "ASSIGNED",
            EventType::Started => "STARTED",
            EventType::Paused => "PAUSED",
            EventType::Resumed => "RESUMED",
            EventType::Blocked => "BLOCKED",
            EventType::Unblocked => "UNBLOCKED",
            EventType::Completed => "COMPLETED",
            EventType::Reopened => "REOPENED",
            EventType::Cancelled => "CANCELLED",
            EventType::NoteAdded => "NOTE_ADDED",
            EventType::FileAdded => "FILE_ADDED",
            EventType::AssigneeChanged => "ASSIGNEE_CHANGED",
            EventType::PlannedDateChanged => "PLANNED_DATE_CHANGED",
        }
    }

    /// Parses the textual form; any other text is refused with a message
    /// naming the type and the offending text.
    pub fn from_text(s: &str) -> (r: Result<EventType, String>)
        ensures
            match r {
                Ok(v) => v.name() == s@,
                Err(m) => (forall|v: EventType| v.name() != s@) && m@ == "geçersiz EventType: "@ + s@,
            },
    {
        if str_eq(s, "CREATED") {
            return Ok(EventType::Created);
        }
        if str_eq(s, "READY") {
            return Ok(EventType::Ready);
        }
        if str_eq(s, "ASSIGNED") {
            return Ok(EventType::Assigned);
        }
        if str_eq(s, "STARTED") {
            return Ok(EventType::Started);
        }
        if str_eq(s, "PAUSED") {
            return Ok(EventType::Paused);
        }
        if str_eq(s, "RESUMED") {
            return Ok(EventType::Resumed);
        }
        if str_eq(s, "BLOCKED") {
            return Ok(EventType::Blocked);
        }
        if str_eq(s, "UNBLOCKED") {
            return Ok(EventType::Unblocked);
        }
        if str_eq(s, "COMPLETED") {
            return Ok(EventType::Completed);
        }
        if str_eq(s, "REOPENED") {
            return Ok(EventType::Reopened);
        }
        if str_eq(s, "CANCELLED") {
            return Ok(EventType::Cancelled);
        }
        if str_eq(s, "NOTE_ADDED") {
            return Ok(EventType::NoteAdded);
        }
        if str_eq(s, "FILE_ADDED") {
            return Ok(EventType::FileAdded);
        }
        if str_eq(s, "ASSIGNEE_CHANGED") {
            return Ok(EventType::AssigneeChanged);
        }
        if str_eq(s, "PLANNED_DATE_CHANGED") {
            return Ok(EventType::PlannedDateChanged);
        }
        Err(join2("geçersiz EventType: ", s))
    }
}

/// Data type of a dynamic work item property.
#[derive(Debug, Clone, Copy, PartialEq, Eq, Hash, Structural)]
pub enum PropertyDataType {
    Text,
    LongText,
    Number,
    Decimal,
    Boolean,
    Date,
    Datetime,
    Select,
    MultiSelect,
}

impl PropertyDataType {
    /// The textual form of the value.
    pub open spec fn name(self) -> Seq<char> {
        match self {
            PropertyDataType::Text => "TEXT"@,
            PropertyDataType::LongText => "LONG_TEXT"@,
            PropertyDataType::Number => "NUMBER"@,
            PropertyDataType::Decimal => "DECIMAL"@,
            PropertyDataType::Boolean => "BOOLEAN"@,
            PropertyDataType::Date => "DATE"@,
            PropertyDataType::Datetime => "DATETIME"@,
            PropertyDataType::Select => "SELECT"@,
            PropertyDataType::MultiSelect => "MULTI_SELECT"@,
        }
    }

    /// The textual form of the value.
    pub fn as_str(&self) -> (r: &'static str)
        ensures
            r@ == self.name(),
    {
        match self {
            PropertyDataType::Text => "TEXT",
            PropertyDataType::LongText => "LONG_TEXT",
            PropertyDataType::Number => "NUMBER",
            PropertyDataType::Decimal => "DECIMAL",
            PropertyDataType::Boolean => "BOOLEAN",
            PropertyDataType::Date => "DATE",
            PropertyDataType::Datetime => "DATETIME",
            PropertyDataType::Select => "SELECT",
            PropertyDataType::MultiSelect => "MULTI_SELECT",
        }
    }

    /// Parses the textual form; any other text is refused with a message
    /// naming the type and the offending text.
    pub fn from_text(s: &str) -> (r: Result<PropertyDataType, String>)
        ensures
            match r {
                Ok(v) => v.name() == s@,
                Err(m) => (forall|v: PropertyDataType| v.name() != s@) && m@ == "geçersiz PropertyDataType: "@ + s@,
            },
    {
        if str_eq(s, "TEXT") {
            return Ok(PropertyDataType::Text);
        }
        if str_eq(s, "LONG_TEXT") {
            return Ok(PropertyDataType::LongText);
        }
        if str_eq(s, "NUMBER") {
            return Ok(PropertyDataType::Number);
        }
        if str_eq(s, "DECIMAL") {
            return Ok(PropertyDataType::Decimal);
        }
        if str_eq(s, "BOOLEAN") {
            return Ok(PropertyDataType::Boolean);
        }
        if str_eq(s, "DATE") {
            return Ok(PropertyDataType::Date);
        }
        if str_eq(s, "DATETIME") {
            return Ok(PropertyDataType::Datetime);
        }
        if str_eq(s, "SELECT") {
            return Ok(PropertyDataType::Select);
        }
        if str_eq(s, "MULTI_SELECT") {
            return Ok(PropertyDataType::MultiSelect);
        }
        Err(join2("geçersiz PropertyDataType: ", s))
    }
}


// ---------------------------------------------------------------------------
// Text forms
// ---------------------------------------------------------------------------

/// Distinct Role values have distinct text forms, so parsing the text
/// of a value gives the value back.
pub proof fn lemma_role_text_round_trip(a: Role, b: Role)
    ensures
        a.name() == b.name() ==> a == b,
{
    reveal_strlit("ADMIN");
    reveal_strlit("PROJECT_MANAGER");
    reveal_strlit("TEAM_LEADER");
    reveal_strlit("VIEWER");
    reveal_strlit("WORKER");
    assert(a.name().len() != b.name().len() ==> a.name() != b.name());
    if a == Role::Worker && b == Role::Viewer {
        assert(a.name()[0] != b.name()[0]);
    }
    if a == Role::Viewer && b == Role::Worker {
        assert(a.name()[0] != b.name()[0]);
    }
}

/// Distinct ProjectStatus values have distinct text forms, so parsing the text
/// of a value gives the value back.
pub proof fn lemma_project_status_text_round_trip(a: ProjectStatus, b: ProjectStatus)
    ensures
        a.name() == b.name() ==> a == b,
{
    reveal_strlit("ACTIVE");
    reveal_strlit("ARCHIVED");
    reveal_strlit("CANCELLED");
    reveal_strlit("COMPLETED");
    reveal_strlit("DRAFT");
    reveal_strlit("PAUSED");
    assert(a.name().len() != b.name().len() ==> a.name() != b.name());
    if a == ProjectStatus::Active && b == ProjectStatus::Paused {
        assert(a.name()[0] != b.name()[0]);
    }
    if a == ProjectStatus::Paused && b == ProjectStatus::Active {
        assert(a.name()[0] != b.name()[0]);
    }
    if a == ProjectStatus::Completed && b == ProjectStatus::Cancelled {
        assert(a.name()[1] != b.name()[1]);
    }
    if a == ProjectStatus::Cancelled && b == ProjectStatus::Completed {
        assert(a.name()[1] != b.name()[1]);
    }
}

/// Distinct TeamRole values have distinct text forms, so parsing the text
/// of a value gives the value back.
pub proof fn lemma_team_role_text_round_trip(a: TeamRole, b: TeamRole)
    ensures
        a.name() == b.name() ==> a == b,
{
    reveal_strlit("LEADER");
    reveal_strlit("MEMBER");
    assert(a.name().len() != b.name().len() ==> a.name() != b.name());
    if a == TeamRole::Leader && b == TeamRole::Member {
        assert(a.name()[0] != b.name()[0]);
    }
    if a == TeamRole::Member && b == TeamRole::Leader {
        assert(a.name()[0] != b.name()[0]);
    }
}

/// Distinct Priority values have distinct text forms, so parsing the text
/// of a value gives the value back.
pub proof fn lemma_priority_text_round_trip(a: Priority, b: Priority)
    ensures
        a.name() == b.name() ==> a == b,
{
    reveal_strlit("HIGH");
    reveal_strlit("LOW");
    reveal_strlit("NORMAL");
    reveal_strlit("URGENT");
    assert(a.name().len() != b.name().len() ==> a.name() != b.name());
    if a == Priority::Normal && b == Priority::Urgent {
        assert(a.name()[0] != b.name()[0]);
    }
    if a == Priority::Urgent && b == Priority::Normal {
        assert(a.name()[0] != b.name()[0]);
    }
}

/// Distinct WorkItemStatus values have distinct text forms, so parsing the text
/// of a value gives the value back.
pub proof fn lemma_work_item_status_text_round_trip(a: WorkItemStatus, b: WorkItemStatus)
    ensures
        a.name() == b.name() ==> a == b,
{
    reveal_strlit("BLOCKED");
    reveal_strlit("CANCELLED");
    reveal_strlit("COMPLETED");
    reveal_strlit("IN_PROGRESS");
    reveal_strlit("PAUSED");
    reveal_strlit("PENDING");
    reveal_strlit("READY");
    assert(a.name().len() != b.name().len() ==> a.name() != b.name());
    if a == WorkItemStatus::Pending && b == WorkItemStatus::Blocked {
        assert(a.name()[0] != b.name()[0]);
    }
    if a == WorkItemStatus::Blocked && b == WorkItemStatus::Pending {
        assert(a.name()[0] != b.name()[0]);
    }
    if a == WorkItemStatus::Completed && b == WorkItemStatus::Cancelled {
        assert(a.name()[1] != b.name()[1]);
    }
    if a == WorkItemStatus::Cancelled && b == WorkItemStatus::Completed {
        assert(a.name()[1] != b.name()[1]);
    }
}

/// Distinct ProcessStatus values have distinct text forms, so parsing the text
/// of a value gives the value back.
pub proof fn lemma_process_status_text_round_trip(a: ProcessStatus, b: ProcessStatus)
    ensures
        a.name() == b.name() ==> a == b,
{
    reveal_strlit("BLOCKED");
    reveal_strlit("CANCELLED");
    reveal_strlit("COMPLETED");
    reveal_strlit("IN_PROGRESS");
    reveal_strlit("PAUSED");
    reveal_strlit("PENDING");
    reveal_strlit("READY");
    assert(a.name().len() != b.name().len() ==> a.name() != b.name());
    if a == ProcessStatus::Pending && b == ProcessStatus::Blocked {
        assert(a.name()[0] != b.name()[0]);
    }
    if a == ProcessStatus::Blocked && b == ProcessStatus::Pending {
        assert(a.name()[0] != b.name()[0]);
    }
    if a == ProcessStatus::Completed && b == ProcessStatus::Cancelled {
        assert(a.name()[1] != b.name()[1]);
    }
    if a == ProcessStatus::Cancelled && b == ProcessStatus::Completed {
        assert(a.name()[1] != b.name()[1]);
    }
}

/// Distinct EventType values have distinct text forms, so parsing the text
/// of a value gives the value back.
pub proof fn lemma_event_type_text_round_trip(a: EventType, b: EventType)
    ensures
        a.name() == b.name() ==> a == b,
{
    reveal_strlit("ASSIGNED");
    reveal_strlit("ASSIGNEE_CHANGED");
    reveal_strlit("BLOCKED");
    reveal_strlit("CANCELLED");
    reveal_strlit("COMPLETED");
    reveal_strlit("CREATED");
    reveal_strlit("FILE_ADDED");
    reveal_strlit("NOTE_ADDED");
    reveal_strlit("PAUSED");
    reveal_strlit("PLANNED_DATE_CHANGED");
    reveal_strlit("READY");
    reveal_strlit("REOPENED");
    reveal_strlit("RESUMED");
    reveal_strlit("STARTED");
    reveal_strlit("UNBLOCKED");
    assert(a.name().len() != b.name().len() ==> a.name() != b.name());
    if a == EventType::Created && b == EventType::Started {
        assert(a.name()[0] != b.name()[0]);
    }
    if a == EventType::Created && b == EventType::Resumed {
        assert(a.name()[0] != b.name()[0]);
    }
    if a == EventType::Created && b == EventType::Blocked {
        assert(a.name()[0] != b.name()[0]);
    }
    if a == EventType::Assigned && b == EventType::Reopened {
        assert(a.name()[0] != b.name()[0]);
    }
    if a == EventType::Started && b == EventType::Created {
        assert(a.name()[0] != b.name()[0]);
    }
    if a == EventType::Started && b == EventType::Resumed {
        assert(a.name()[0] != b.name()[0]);
    }
    if a == EventType::Started && b == EventType::Blocked {
        assert(a.name()[0] != b.name()[0]);
    }
    if a == EventType::Resumed && b == EventType::Created {
        assert(a.name()[0] != b.name()[0]);
    }
    if a == EventType::Resumed && b == EventType::Started {
        assert(a.name()[0] != b.name()[0]);
    }
    if a == EventType::Resumed && b == EventType::Blocked {
        assert(a.name()[0] != b.name()[0]);
    }
    if a == EventType::Blocked && b == EventType::Created {
        assert(a.name()[0] != b.name()[0]);
    }
    if a == EventType::Blocked && b == EventType::Started {
        assert(a.name()[0] != b.name()[0]);
    }
    if a == EventType::Blocked && b == EventType::Resumed {
        assert(a.name()[0] != b.name()[0]);
    }
    if a == EventType::Unblocked && b == EventType::Completed {
        assert(a.name()[0] != b.name()[0]);
    }
    if a == EventType::Unblocked && b == EventType::Cancelled {
        assert(a.name()[0] != b.name()[0]);
    }
    if a == EventType::Completed && b == EventType::Unblocked {
        assert(a.name()[0] != b.name()[0]);
    }
    if a == EventType::Completed && b == EventType::Cancelled {
        assert(a.name()[1] != b.name()[1]);
    }
    if a == EventType::Reopened && b == EventType::Assigned {
        assert(a.name()[0] != b.name()[0]);
    }
    if a == EventType::Cancelled && b == EventType::Unblocked {
        assert(a.name()[0] != b.name()[0]);
    }
    if a == EventType::Cancelled && b == EventType::Completed {
        assert(a.name()[1] != b.name()[1]);
    }
    if a == EventType::NoteAdded && b == EventType::FileAdded {
        assert(a.name()[0] != b.name()[0]);
    }
    if a == EventType::FileAdded && b == EventType::NoteAdded {
        assert(a.name()[0] != b.name()[0]);
    }
}

/// Distinct PropertyDataType values have distinct text forms, so parsing the text
/// of a value gives the value back.
pub proof fn lemma_property_data_type_text_round_trip(a: PropertyDataType, b: PropertyDataType)
    ensures
        a.name() == b.name() ==> a == b,
{
    reveal_strlit("BOOLEAN");
    reveal_strlit("DATE");
    reveal_strlit("DATETIME");
    reveal_strlit("DECIMAL");
    reveal_strlit("LONG_TEXT");
    reveal_strlit("MULTI_SELECT");
    reveal_strlit("NUMBER");
    reveal_strlit("SELECT");
    reveal_strlit("TEXT");
    assert(a.name().len() != b.name().len() ==> a.name() != b.name());
    if a == PropertyDataType::Text && b == PropertyDataType::Date {
        assert(a.name()[0] != b.name()[0]);
    }
    if a == PropertyDataType::Number && b == PropertyDataType::Select {
        assert(a.name()[0] != b.name()[0]);
    }
    if a == PropertyDataType::Decimal && b == PropertyDataType::Boolean {
        assert(a.name()[0] != b.name()[0]);
    }
    if a == PropertyDataType::Boolean && b == PropertyDataType::Decimal {
        assert(a.name()[0] != b.name()[0]);
    }
    if a == PropertyDataType::Date && b == PropertyDataType::Text {
        assert(a.name()[0] != b.name()[0]);
    }
    if a == PropertyDataType::Select && b == PropertyDataType::Number {
        assert(a.name()[0] != b.name()[0]);
    }
}

} // verus!

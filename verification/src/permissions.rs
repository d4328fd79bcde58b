//! Role based permission matrix. Every service call is checked against it
//! on the server; resource scoped limits (a worker acting only on work
//! assigned to them or their team) are decided separately.

use vstd::prelude::*;
use crate::entities::Role;
use crate::errors::DomainError;

verus! {

/// Actions that the permission matrix governs.
#[derive(Debug, Clone, Copy, PartialEq, Eq, Structural)]
pub enum Action {
    ManageWorkspace,
    ManageUsers,
    ManageTeams,
    ViewTeams,
    CreateProject,
    UpdateProject,
    ArchiveProject,
    ViewProjects,
    CreateSection,
    UpdateSection,
    DeleteSection,
    ViewSections,
    CreateWorkItem,
    UpdateWorkItem,
    DeleteWorkItem,
    ViewWorkItems,
    ManageWorkItemTypes,
    ManagePropertyDefinitions,
}

/// Actions reserved to administrators.
pub open spec fn admin_only(action: Action) -> bool {
    match action {
        Action::ManageWorkspace | Action::ManageUsers | Action::ManageTeams | Action::CreateProject
        | Action::ManageWorkItemTypes | Action::ManagePropertyDefinitions => true,
        _ => false,
    }
}

/// Actions open to administrators and project managers.
pub open spec fn manager_action(action: Action) -> bool {
    match action {
        Action::UpdateProject | Action::ArchiveProject | Action::CreateSection | Action::UpdateSection
        | Action::DeleteSection | Action::CreateWorkItem | Action::UpdateWorkItem
        | Action::DeleteWorkItem => true,
        _ => false,
    }
}

/// Viewing actions, open to every role.
pub open spec fn view_action(action: Action) -> bool {
    match action {
        Action::ViewProjects | Action::ViewTeams | Action::ViewSections | Action::ViewWorkItems => true,
        _ => false,
    }
}

/// The permission matrix.
pub open spec fn spec_can(actor: Role, action: Action) -> bool {
    if admin_only(action) {
        actor == Role::Admin
    } else if manager_action(action) {
        actor == Role::Admin || actor == Role::ProjectManager
    } else {
        view_action(action)
    }
}

/// May `actor` perform `action`?
pub fn can(actor: Role, action: Action) -> (r: bool)
    ensures
        r == spec_can(actor, action),
{
    match action {
        Action::ManageWorkspace | Action::ManageUsers | Action::ManageTeams | Action::CreateProject => {
            actor == Role::Admin
        },
        Action::UpdateProject | Action::ArchiveProject => {
            matches!(actor, Role::Admin | Role::ProjectManager)
        },
        Action::CreateSection | Action::UpdateSection | Action::DeleteSection => {
            matches!(actor, Role::Admin | Role::ProjectManager)
        },
        Action::CreateWorkItem | Action::UpdateWorkItem | Action::DeleteWorkItem => {
            matches!(actor, Role::Admin | Role::ProjectManager)
        },
        Action::ManageWorkItemTypes | Action::ManagePropertyDefinitions => actor == Role::Admin,
        Action::ViewProjects | Action::ViewTeams | Action::ViewSections | Action::ViewWorkItems => {
            matches!(
                actor,
                Role::Admin | Role::ProjectManager | Role::TeamLeader | Role::Worker | Role::Viewer
            )
        },
    }
}

/// The action is allowed for `actor`; otherwise the request is refused as
/// forbidden.
pub fn require(actor: Role, action: Action) -> (r: Result<(), DomainError>)
    ensures
        r is Ok <==> spec_can(actor, action),
        r is Err ==> r == Err::<(), DomainError>(DomainError::Forbidden),
{
    if can(actor, action) {
        Ok(())
    } else {
        Err(DomainError::Forbidden)
    }
}

/// Every action falls in exactly one of the three groups.
pub proof fn lemma_actions_partitioned(action: Action)
    ensures
        admin_only(action) || manager_action(action) || view_action(action),
        !(admin_only(action) && manager_action(action)),
        !(admin_only(action) && view_action(action)),
        !(manager_action(action) && view_action(action)),
{
}

/// The administrator may do everything, and every role may view.
pub proof fn lemma_admin_all_and_views_open(actor: Role, action: Action)
    ensures
        spec_can(Role::Admin, action),
        view_action(action) ==> spec_can(actor, action),
{
}

/// Roles form a hierarchy: what a project manager may do, an administrator
/// may do; team leaders, workers and viewers may only view, and all three
/// are granted the same actions.
pub proof fn lemma_role_hierarchy(action: Action)
    ensures
        spec_can(Role::ProjectManager, action) ==> spec_can(Role::Admin, action),
        spec_can(Role::TeamLeader, action) <==> view_action(action),
        spec_can(Role::Worker, action) <==> view_action(action),
        spec_can(Role::Viewer, action) <==> view_action(action),
{
}

/// What each role is granted, action by action: a project manager may
/// update and archive projects and create, update and delete sections and
/// work items, besides viewing; everyone else below the administrator may
/// only view projects, teams, sections and work items.
pub proof fn lemma_grants_by_action(action: Action)
    ensures
        spec_can(Role::ProjectManager, action) <==> {
            ||| action == Action::UpdateProject
            ||| action == Action::ArchiveProject
            ||| action == Action::CreateSection
            ||| action == Action::UpdateSection
            ||| action == Action::DeleteSection
            ||| action == Action::CreateWorkItem
            ||| action == Action::UpdateWorkItem
            ||| action == Action::DeleteWorkItem
            ||| action == Action::ViewProjects
            ||| action == Action::ViewTeams
            ||| action == Action::ViewSections
            ||| action == Action::ViewWorkItems
        },
        spec_can(Role::Viewer, action) <==> {
            ||| action == Action::ViewProjects
            ||| action == Action::ViewTeams
            ||| action == Action::ViewSections
            ||| action == Action::ViewWorkItems
        },
{
}

/// Whoever may manage a resource may also view it.
pub proof fn lemma_manage_implies_view(actor: Role)
    ensures
        spec_can(actor, Action::CreateSection) ==> spec_can(actor, Action::ViewSections),
        spec_can(actor, Action::CreateWorkItem) ==> spec_can(actor, Action::ViewWorkItems),
        spec_can(actor, Action::UpdateProject) ==> spec_can(actor, Action::ViewProjects),
        spec_can(actor, Action::ManageTeams) ==> spec_can(actor, Action::ViewTeams),
{
}

} // verus!

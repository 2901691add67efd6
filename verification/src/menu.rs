//! The interactive flow as an explicit state machine.
//!
//! Menu traversal is a pure transition function over four states driven by
//! one event loop, so cancellation and "back" unwind structurally: declining
//! the confirmation or stepping back always lands on the main menu with no
//! patch work started.

use vstd::prelude::*;

verus! {

/// Where the operator stands in the flow.
#[derive(Clone, Copy, Debug, PartialEq, Eq, Structural)]
pub enum MenuState {
    /// The top menu: execute a run, adjust settings, or leave.
    MainMenu,
    /// Task settings: targets, projects, actions of one task.
    TaskMenu,
    /// Picking revisions, project by project.
    PatchSelection,
    /// The merged change set shown, awaiting the operator's word.
    ConfirmApply,
    /// The tool is done.
    Finished,
}

/// What the operator chose.
#[derive(Clone, Copy, Debug, PartialEq, Eq, Structural)]
pub enum MenuEvent {
    ChooseExecute,
    ChooseSetting,
    ChooseBack,
    /// At least one project kept a selection.
    SelectionComplete,
    /// No project kept any revision; the run ends with nothing to do.
    SelectionEmpty,
    Confirm,
    Decline,
    ChooseExit,
}

/// The transition function.  Confirming hands the run to the assembler and
/// returns to the main menu; declining aborts the whole run the same way,
/// with nothing performed.  An event a state has no edge for stays put.
pub open spec fn menu_next_spec(s: MenuState, e: MenuEvent) -> MenuState {
    match (s, e) {
        (MenuState::MainMenu, MenuEvent::ChooseExecute) => MenuState::PatchSelection,
        (MenuState::MainMenu, MenuEvent::ChooseSetting) => MenuState::TaskMenu,
        (MenuState::MainMenu, MenuEvent::ChooseExit) => MenuState::Finished,
        (MenuState::TaskMenu, MenuEvent::ChooseBack) => MenuState::MainMenu,
        (MenuState::PatchSelection, MenuEvent::SelectionComplete) => MenuState::ConfirmApply,
        (MenuState::PatchSelection, MenuEvent::SelectionEmpty) => MenuState::MainMenu,
        (MenuState::PatchSelection, MenuEvent::ChooseBack) => MenuState::MainMenu,
        (MenuState::ConfirmApply, MenuEvent::Confirm) => MenuState::MainMenu,
        (MenuState::ConfirmApply, MenuEvent::Decline) => MenuState::MainMenu,
        (_, _) => s,
    }
}

/// Advances the menu by one operator choice.
pub fn menu_next(s: MenuState, e: MenuEvent) -> (r: MenuState)
    ensures
        r == menu_next_spec(s, e),
        s is ConfirmApply && e is Decline ==> r is MainMenu,
{
    match (s, e) {
        (MenuState::MainMenu, MenuEvent::ChooseExecute) => MenuState::PatchSelection,
        (MenuState::MainMenu, MenuEvent::ChooseSetting) => MenuState::TaskMenu,
        (MenuState::MainMenu, MenuEvent::ChooseExit) => MenuState::Finished,
        (MenuState::TaskMenu, MenuEvent::ChooseBack) => MenuState::MainMenu,
        (MenuState::PatchSelection, MenuEvent::SelectionComplete) => MenuState::ConfirmApply,
        (MenuState::PatchSelection, MenuEvent::SelectionEmpty) => MenuState::MainMenu,
        (MenuState::PatchSelection, MenuEvent::ChooseBack) => MenuState::MainMenu,
        (MenuState::ConfirmApply, MenuEvent::Confirm) => MenuState::MainMenu,
        (MenuState::ConfirmApply, MenuEvent::Decline) => MenuState::MainMenu,
        (_, _) => s,
    }
}

} // verus!

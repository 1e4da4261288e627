//! What keys and the mouse mean.
use vstd::prelude::*;

use crate::action::{
    Action, InputMode, IntervalStep, MouseTarget, PinMove, ProcessSortField, SignalConfirmButton,
    Tab,
};
use crate::app::list::Key;
use crate::likeness;
use crate::likeness::equal_option;
use crate::linux::control;
use crate::linux::process::ProcessSignal;
use crate::text;
use crate::time::Nanos;

verus! {

broadcast use vstd::string::group_string_axioms;

/// A key.
#[derive(Debug, Clone, Copy, PartialEq, Eq, Structural)]
pub enum KeyCode {
    Char(char),
    Esc,
    Enter,
    Backspace,
    Delete,
    Insert,
    Up,
    Down,
    Left,
    Right,
    PageUp,
    PageDown,
    Home,
    End,
    Tab,
    BackTab,
    /// A key that means nothing here.
    Other,
}

/// What happened to a key.
#[derive(Debug, Clone, Copy, PartialEq, Eq, Structural)]
pub enum KeyEventKind {
    Press,
    Repeat,
    Release,
}

/// The keys that were held down with another.
#[derive(Debug, Clone, Copy, PartialEq, Eq, Structural)]
pub struct KeyModifiers {
    pub shift: bool,
    pub control: bool,
    pub alt: bool,
}

#[derive(Debug, Clone, Copy, PartialEq, Eq, Structural)]
pub struct KeyEvent {
    pub code: KeyCode,
    pub modifiers: KeyModifiers,
    pub kind: KeyEventKind,
}

impl KeyEvent {
    /// A key that was pressed.
    pub fn new(code: KeyCode, modifiers: KeyModifiers) -> (key: KeyEvent)
        ensures
            key == (KeyEvent { code, modifiers, kind: KeyEventKind::Press }),
    {
        KeyEvent { code, modifiers, kind: KeyEventKind::Press }
    }

    /// Control and the letter c.
    pub open spec fn interrupts(self) -> bool {
        self.modifiers.control && (self.code == KeyCode::Char('c') || self.code == KeyCode::Char(
            'C',
        ))
    }

    /// A character that is typed, not one that is held down with control or alt.
    pub open spec fn types(self) -> bool {
        self.code is Char && !self.modifiers.control && !self.modifiers.alt
    }
}

/// Keys that mean the same on every tab.
pub open spec fn global_action(key: KeyEvent) -> Option<Action> {
    match key.code {
        KeyCode::Char('q') => Some(Action::Quit),
        KeyCode::Char('1') => Some(Action::SelectTab(Tab::Overview)),
        KeyCode::Char('2') => Some(Action::SelectTab(Tab::Processes)),
        KeyCode::Char('3') => Some(Action::SelectTab(Tab::Services)),
        KeyCode::Char('4') => Some(Action::SelectTab(Tab::Logs)),
        KeyCode::Char('5') => Some(Action::SelectTab(Tab::Network)),
        KeyCode::Char('?') => Some(Action::ShowHelp),
        KeyCode::Char('+') => Some(Action::StepSamplingInterval(IntervalStep::Longer)),
        KeyCode::Char('-') => Some(Action::StepSamplingInterval(IntervalStep::Shorter)),
        KeyCode::Esc => Some(Action::Escape),
        KeyCode::BackTab => Some(Action::PreviousTab),
        KeyCode::Tab => if key.modifiers.shift {
            Some(Action::PreviousTab)
        } else {
            Some(Action::NextTab)
        },
        KeyCode::Right => Some(Action::NextTab),
        KeyCode::Left => Some(Action::PreviousTab),
        _ => None,
    }
}

pub fn global_tab_key(key: KeyEvent) -> (action: Option<Action>)
    ensures
        action == global_action(key),
{
    match key.code {
        KeyCode::Char('q') => Some(Action::Quit),
        KeyCode::Char('1') => Some(Action::SelectTab(Tab::Overview)),
        KeyCode::Char('2') => Some(Action::SelectTab(Tab::Processes)),
        KeyCode::Char('3') => Some(Action::SelectTab(Tab::Services)),
        KeyCode::Char('4') => Some(Action::SelectTab(Tab::Logs)),
        KeyCode::Char('5') => Some(Action::SelectTab(Tab::Network)),
        KeyCode::Char('?') => Some(Action::ShowHelp),
        KeyCode::Char('+') => Some(Action::StepSamplingInterval(IntervalStep::Longer)),
        KeyCode::Char('-') => Some(Action::StepSamplingInterval(IntervalStep::Shorter)),
        KeyCode::Esc => Some(Action::Escape),
        KeyCode::BackTab => Some(Action::PreviousTab),
        KeyCode::Tab => if key.modifiers.shift {
            Some(Action::PreviousTab)
        } else {
            Some(Action::NextTab)
        },
        KeyCode::Right => Some(Action::NextTab),
        KeyCode::Left => Some(Action::PreviousTab),
        _ => None,
    }
}

/// Keys of the Overview and of the processes. What is typed with shift comes before what is
/// typed without.
pub open spec fn process_action(key: KeyEvent) -> Option<Action> {
    let shift = key.modifiers.shift;
    let moves = key.modifiers.shift || key.modifiers.alt;
    match key.code {
        KeyCode::Char('t') => Some(Action::RequestProcessSignal(ProcessSignal::Term)),
        KeyCode::Char('K') => Some(Action::RequestProcessSignal(ProcessSignal::Kill)),
        KeyCode::Char('k') => if shift {
            Some(Action::RequestProcessSignal(ProcessSignal::Kill))
        } else {
            Some(Action::ProcessPrevious)
        },
        KeyCode::Char('P') => Some(Action::TogglePin),
        KeyCode::Char('p') => if shift {
            Some(Action::TogglePin)
        } else {
            Some(Action::SortProcesses(ProcessSortField::Pid))
        },
        KeyCode::Up => if moves {
            Some(Action::MoveSelectedPin(PinMove::Up))
        } else {
            Some(Action::ProcessPrevious)
        },
        KeyCode::Down => if moves {
            Some(Action::MoveSelectedPin(PinMove::Down))
        } else {
            Some(Action::ProcessNext)
        },
        KeyCode::Char('j') => Some(Action::ProcessNext),
        KeyCode::PageUp => Some(Action::ProcessPreviousPage),
        KeyCode::PageDown => Some(Action::ProcessNextPage),
        KeyCode::Home => Some(Action::ProcessFirst),
        KeyCode::End => Some(Action::ProcessLast),
        KeyCode::Char('/') => Some(Action::BeginProcessSearch),
        KeyCode::Enter => Some(Action::OpenProcessDetails),
        KeyCode::Char('c') => Some(Action::SortProcesses(ProcessSortField::Cpu)),
        KeyCode::Char('m') => Some(Action::SortProcesses(ProcessSortField::Memory)),
        KeyCode::Char('n') => Some(Action::SortProcesses(ProcessSortField::Name)),
        _ => None,
    }
}

pub fn process_key(key: KeyEvent) -> (action: Option<Action>)
    ensures
        action == process_action(key),
{
    let shift: bool = key.modifiers.shift;
    let moves: bool = key.modifiers.shift || key.modifiers.alt;
    match key.code {
        KeyCode::Char('t') => Some(Action::RequestProcessSignal(ProcessSignal::Term)),
        KeyCode::Char('K') => Some(Action::RequestProcessSignal(ProcessSignal::Kill)),
        KeyCode::Char('k') => if shift {
            Some(Action::RequestProcessSignal(ProcessSignal::Kill))
        } else {
            Some(Action::ProcessPrevious)
        },
        KeyCode::Char('P') => Some(Action::TogglePin),
        KeyCode::Char('p') => if shift {
            Some(Action::TogglePin)
        } else {
            Some(Action::SortProcesses(ProcessSortField::Pid))
        },
        KeyCode::Up => if moves {
            Some(Action::MoveSelectedPin(PinMove::Up))
        } else {
            Some(Action::ProcessPrevious)
        },
        KeyCode::Down => if moves {
            Some(Action::MoveSelectedPin(PinMove::Down))
        } else {
            Some(Action::ProcessNext)
        },
        KeyCode::Char('j') => Some(Action::ProcessNext),
        KeyCode::PageUp => Some(Action::ProcessPreviousPage),
        KeyCode::PageDown => Some(Action::ProcessNextPage),
        KeyCode::Home => Some(Action::ProcessFirst),
        KeyCode::End => Some(Action::ProcessLast),
        KeyCode::Char('/') => Some(Action::BeginProcessSearch),
        KeyCode::Enter => Some(Action::OpenProcessDetails),
        KeyCode::Char('c') => Some(Action::SortProcesses(ProcessSortField::Cpu)),
        KeyCode::Char('m') => Some(Action::SortProcesses(ProcessSortField::Memory)),
        KeyCode::Char('n') => Some(Action::SortProcesses(ProcessSortField::Name)),
        _ => None,
    }
}

/// Keys of the services.
pub open spec fn service_action(key: KeyEvent) -> Option<Action> {
    match key.code {
        KeyCode::Up | KeyCode::Char('k') => Some(Action::ServicePrevious),
        KeyCode::Down | KeyCode::Char('j') => Some(Action::ServiceNext),
        KeyCode::PageUp => Some(Action::ServicePreviousPage),
        KeyCode::PageDown => Some(Action::ServiceNextPage),
        KeyCode::Home => Some(Action::ServiceFirst),
        KeyCode::End => Some(Action::ServiceLast),
        KeyCode::Char('/') => Some(Action::BeginServiceSearch),
        KeyCode::Enter => Some(Action::OpenServiceDetails),
        KeyCode::Char('r') => Some(Action::RefreshServices),
        _ => None,
    }
}

pub fn service_key(key: KeyEvent) -> (action: Option<Action>)
    ensures
        action == service_action(key),
{
    match key.code {
        KeyCode::Up | KeyCode::Char('k') => Some(Action::ServicePrevious),
        KeyCode::Down | KeyCode::Char('j') => Some(Action::ServiceNext),
        KeyCode::PageUp => Some(Action::ServicePreviousPage),
        KeyCode::PageDown => Some(Action::ServiceNextPage),
        KeyCode::Home => Some(Action::ServiceFirst),
        KeyCode::End => Some(Action::ServiceLast),
        KeyCode::Char('/') => Some(Action::BeginServiceSearch),
        KeyCode::Enter => Some(Action::OpenServiceDetails),
        KeyCode::Char('r') => Some(Action::RefreshServices),
        _ => None,
    }
}

/// Keys of the journal.
pub open spec fn log_action(key: KeyEvent) -> Option<Action> {
    match key.code {
        KeyCode::Up | KeyCode::Char('k') => Some(Action::LogPrevious),
        KeyCode::Down | KeyCode::Char('j') => Some(Action::LogNext),
        KeyCode::PageUp => Some(Action::LogPreviousPage),
        KeyCode::PageDown => Some(Action::LogNextPage),
        KeyCode::Home => Some(Action::LogFirst),
        KeyCode::End => Some(Action::LogLast),
        KeyCode::Char('/') => Some(Action::BeginLogSearch),
        KeyCode::Enter => Some(Action::OpenLogDetails),
        KeyCode::Char('f') => Some(Action::ToggleLogFollow),
        KeyCode::Char(' ') => Some(Action::ToggleLogPause),
        _ => None,
    }
}

pub fn log_key(key: KeyEvent) -> (action: Option<Action>)
    ensures
        action == log_action(key),
{
    match key.code {
        KeyCode::Up | KeyCode::Char('k') => Some(Action::LogPrevious),
        KeyCode::Down | KeyCode::Char('j') => Some(Action::LogNext),
        KeyCode::PageUp => Some(Action::LogPreviousPage),
        KeyCode::PageDown => Some(Action::LogNextPage),
        KeyCode::Home => Some(Action::LogFirst),
        KeyCode::End => Some(Action::LogLast),
        KeyCode::Char('/') => Some(Action::BeginLogSearch),
        KeyCode::Enter => Some(Action::OpenLogDetails),
        KeyCode::Char('f') => Some(Action::ToggleLogFollow),
        KeyCode::Char(' ') => Some(Action::ToggleLogPause),
        _ => None,
    }
}

/// Keys of the network interfaces.
pub open spec fn network_action(key: KeyEvent) -> Option<Action> {
    match key.code {
        KeyCode::Up | KeyCode::Char('k') => Some(Action::NetworkPrevious),
        KeyCode::Down | KeyCode::Char('j') => Some(Action::NetworkNext),
        KeyCode::PageUp => Some(Action::NetworkPreviousPage),
        KeyCode::PageDown => Some(Action::NetworkNextPage),
        KeyCode::Home => Some(Action::NetworkFirst),
        KeyCode::End => Some(Action::NetworkLast),
        KeyCode::Enter => Some(Action::OpenNetworkDetails),
        _ => None,
    }
}

pub fn network_key(key: KeyEvent) -> (action: Option<Action>)
    ensures
        action == network_action(key),
{
    match key.code {
        KeyCode::Up | KeyCode::Char('k') => Some(Action::NetworkPrevious),
        KeyCode::Down | KeyCode::Char('j') => Some(Action::NetworkNext),
        KeyCode::PageUp => Some(Action::NetworkPreviousPage),
        KeyCode::PageDown => Some(Action::NetworkNextPage),
        KeyCode::Home => Some(Action::NetworkFirst),
        KeyCode::End => Some(Action::NetworkLast),
        KeyCode::Enter => Some(Action::OpenNetworkDetails),
        _ => None,
    }
}

/// A list that can be searched.
#[derive(Debug, Clone, Copy, PartialEq, Eq, Structural)]
pub enum SearchedList {
    Processes,
    Services,
    Logs,
}

/// The list that is searched in a mode.
pub open spec fn searched_list(mode: InputMode) -> Option<SearchedList> {
    match mode {
        InputMode::ProcessSearch => Some(SearchedList::Processes),
        InputMode::ServiceSearch => Some(SearchedList::Services),
        InputMode::LogSearch => Some(SearchedList::Logs),
        _ => None,
    }
}

/// Keys while a search is typed. Arrows move through what is found; letters are text.
pub open spec fn search_action(key: KeyEvent, list: SearchedList) -> Option<Action> {
    match list {
        SearchedList::Processes => match key.code {
            KeyCode::Esc => Some(Action::Escape),
            KeyCode::Enter => Some(Action::OpenProcessDetails),
            KeyCode::Backspace => Some(Action::BackspaceProcessSearch),
            KeyCode::Up => Some(Action::ProcessPrevious),
            KeyCode::Down => Some(Action::ProcessNext),
            KeyCode::PageUp => Some(Action::ProcessPreviousPage),
            KeyCode::PageDown => Some(Action::ProcessNextPage),
            KeyCode::Char(character) => if key.types() {
                Some(Action::AppendProcessSearch(character))
            } else {
                None
            },
            _ => None,
        },
        SearchedList::Services => match key.code {
            KeyCode::Esc => Some(Action::Escape),
            KeyCode::Enter => Some(Action::OpenServiceDetails),
            KeyCode::Backspace => Some(Action::BackspaceServiceSearch),
            KeyCode::Up => Some(Action::ServicePrevious),
            KeyCode::Down => Some(Action::ServiceNext),
            KeyCode::PageUp => Some(Action::ServicePreviousPage),
            KeyCode::PageDown => Some(Action::ServiceNextPage),
            KeyCode::Char(character) => if key.types() {
                Some(Action::AppendServiceSearch(character))
            } else {
                None
            },
            _ => None,
        },
        SearchedList::Logs => match key.code {
            KeyCode::Esc => Some(Action::Escape),
            KeyCode::Enter => Some(Action::OpenLogDetails),
            KeyCode::Backspace => Some(Action::BackspaceLogSearch),
            KeyCode::Up => Some(Action::LogPrevious),
            KeyCode::Down => Some(Action::LogNext),
            KeyCode::PageUp => Some(Action::LogPreviousPage),
            KeyCode::PageDown => Some(Action::LogNextPage),
            KeyCode::Char(character) => if key.types() {
                Some(Action::AppendLogSearch(character))
            } else {
                None
            },
            _ => None,
        },
    }
}

fn search_key(key: KeyEvent, list: SearchedList) -> (action: Option<Action>)
    ensures
        action == search_action(key, list),
{
    let types: bool = !key.modifiers.control && !key.modifiers.alt;
    match list {
        SearchedList::Processes => match key.code {
            KeyCode::Esc => Some(Action::Escape),
            KeyCode::Enter => Some(Action::OpenProcessDetails),
            KeyCode::Backspace => Some(Action::BackspaceProcessSearch),
            KeyCode::Up => Some(Action::ProcessPrevious),
            KeyCode::Down => Some(Action::ProcessNext),
            KeyCode::PageUp => Some(Action::ProcessPreviousPage),
            KeyCode::PageDown => Some(Action::ProcessNextPage),
            KeyCode::Char(character) => if types {
                Some(Action::AppendProcessSearch(character))
            } else {
                None
            },
            _ => None,
        },
        SearchedList::Services => match key.code {
            KeyCode::Esc => Some(Action::Escape),
            KeyCode::Enter => Some(Action::OpenServiceDetails),
            KeyCode::Backspace => Some(Action::BackspaceServiceSearch),
            KeyCode::Up => Some(Action::ServicePrevious),
            KeyCode::Down => Some(Action::ServiceNext),
            KeyCode::PageUp => Some(Action::ServicePreviousPage),
            KeyCode::PageDown => Some(Action::ServiceNextPage),
            KeyCode::Char(character) => if types {
                Some(Action::AppendServiceSearch(character))
            } else {
                None
            },
            _ => None,
        },
        SearchedList::Logs => match key.code {
            KeyCode::Esc => Some(Action::Escape),
            KeyCode::Enter => Some(Action::OpenLogDetails),
            KeyCode::Backspace => Some(Action::BackspaceLogSearch),
            KeyCode::Up => Some(Action::LogPrevious),
            KeyCode::Down => Some(Action::LogNext),
            KeyCode::PageUp => Some(Action::LogPreviousPage),
            KeyCode::PageDown => Some(Action::LogNextPage),
            KeyCode::Char(character) => if types {
                Some(Action::AppendLogSearch(character))
            } else {
                None
            },
            _ => None,
        },
    }
}

/// Keys while a signal is to be confirmed.
pub open spec fn confirm_action(key: KeyEvent) -> Option<Action> {
    match key.code {
        KeyCode::Char('q') => Some(Action::Quit),
        KeyCode::Esc => Some(Action::CancelProcessSignal),
        KeyCode::Left | KeyCode::Char('h') => Some(
            Action::FocusProcessSignal(SignalConfirmButton::Cancel),
        ),
        KeyCode::Right | KeyCode::Char('l') => Some(
            Action::FocusProcessSignal(SignalConfirmButton::Confirm),
        ),
        KeyCode::Tab | KeyCode::BackTab => Some(Action::ToggleProcessSignalFocus),
        KeyCode::Enter => Some(Action::ExecuteFocusedProcessSignal),
        _ => None,
    }
}

fn confirm_key(key: KeyEvent) -> (action: Option<Action>)
    ensures
        action == confirm_action(key),
{
    match key.code {
        KeyCode::Char('q') => Some(Action::Quit),
        KeyCode::Esc => Some(Action::CancelProcessSignal),
        KeyCode::Left | KeyCode::Char('h') => Some(
            Action::FocusProcessSignal(SignalConfirmButton::Cancel),
        ),
        KeyCode::Right | KeyCode::Char('l') => Some(
            Action::FocusProcessSignal(SignalConfirmButton::Confirm),
        ),
        KeyCode::Tab | KeyCode::BackTab => Some(Action::ToggleProcessSignalFocus),
        KeyCode::Enter => Some(Action::ExecuteFocusedProcessSignal),
        _ => None,
    }
}

/// Keys while the menu is open.
pub open spec fn menu_action(key: KeyEvent) -> Option<Action> {
    match key.code {
        KeyCode::Char('q') => Some(Action::Quit),
        KeyCode::Esc => Some(Action::Escape),
        KeyCode::Up | KeyCode::Char('k') => Some(Action::MenuPrevious),
        KeyCode::Down | KeyCode::Char('j') => Some(Action::MenuNext),
        KeyCode::Enter => Some(Action::ActivateSelectedMenuItem),
        _ => None,
    }
}

fn menu_key(key: KeyEvent) -> (action: Option<Action>)
    ensures
        action == menu_action(key),
{
    match key.code {
        KeyCode::Char('q') => Some(Action::Quit),
        KeyCode::Esc => Some(Action::Escape),
        KeyCode::Up | KeyCode::Char('k') => Some(Action::MenuPrevious),
        KeyCode::Down | KeyCode::Char('j') => Some(Action::MenuNext),
        KeyCode::Enter => Some(Action::ActivateSelectedMenuItem),
        _ => None,
    }
}

/// A dialog that is only read.
pub open spec fn reading_mode(mode: InputMode) -> bool {
    match mode {
        InputMode::Help
        | InputMode::About
        | InputMode::ProcessDetail
        | InputMode::ServiceDetail
        | InputMode::LogDetail
        | InputMode::NetworkDetail => true,
        _ => false,
    }
}

/// Keys while a dialog is read. The key that opens the help also closes it.
pub open spec fn reading_action(key: KeyEvent, mode: InputMode) -> Option<Action> {
    match key.code {
        KeyCode::Char('q') => Some(Action::Quit),
        KeyCode::Esc => Some(Action::Escape),
        KeyCode::Char('?') => if mode == InputMode::Help {
            Some(Action::Escape)
        } else {
            None
        },
        _ => None,
    }
}

fn reading_key(key: KeyEvent, mode: InputMode) -> (action: Option<Action>)
    ensures
        action == reading_action(key, mode),
{
    match key.code {
        KeyCode::Char('q') => Some(Action::Quit),
        KeyCode::Esc => Some(Action::Escape),
        KeyCode::Char('?') => if mode == InputMode::Help {
            Some(Action::Escape)
        } else {
            None
        },
        _ => None,
    }
}

/// Keys of a tab.
pub open spec fn tab_action(key: KeyEvent, mode: InputMode) -> Option<Action> {
    match global_action(key) {
        Some(action) => Some(action),
        None => match mode {
            InputMode::Services => service_action(key),
            InputMode::Logs => log_action(key),
            InputMode::Network => network_action(key),
            _ => process_action(key),
        },
    }
}

fn tab_key(key: KeyEvent, mode: InputMode) -> (action: Option<Action>)
    ensures
        action == tab_action(key, mode),
{
    match global_tab_key(key) {
        Some(action) => Some(action),
        None => match mode {
            InputMode::Services => service_key(key),
            InputMode::Logs => log_key(key),
            InputMode::Network => network_key(key),
            _ => process_key(key),
        },
    }
}

/// What a key means in a mode. A key that is let go means nothing.
pub open spec fn key_action(key: KeyEvent, mode: InputMode) -> Option<Action> {
    if key.kind == KeyEventKind::Release {
        None
    } else if key.interrupts() {
        Some(Action::Quit)
    } else if searched_list(mode) is Some {
        search_action(key, searched_list(mode)->0)
    } else if mode == InputMode::ProcessSignalConfirm {
        confirm_action(key)
    } else if mode == InputMode::Menu {
        menu_action(key)
    } else if reading_mode(mode) {
        reading_action(key, mode)
    } else {
        tab_action(key, mode)
    }
}

pub fn translate_key_event(key: KeyEvent, input_mode: InputMode) -> (action: Option<Action>)
    ensures
        action == key_action(key, input_mode),
{
    match key.kind {
        KeyEventKind::Release => {
            return None;
        },
        _ => {},
    }
    if key.modifiers.control && matches!(key.code, KeyCode::Char('c') | KeyCode::Char('C')) {
        return Some(Action::Quit);
    }
    match input_mode {
        InputMode::ProcessSearch => search_key(key, SearchedList::Processes),
        InputMode::ServiceSearch => search_key(key, SearchedList::Services),
        InputMode::LogSearch => search_key(key, SearchedList::Logs),
        InputMode::ProcessSignalConfirm => confirm_key(key),
        InputMode::Menu => menu_key(key),
        InputMode::Help
        | InputMode::About
        | InputMode::ProcessDetail
        | InputMode::ServiceDetail
        | InputMode::LogDetail
        | InputMode::NetworkDetail => reading_key(key, input_mode),
        _ => tab_key(key, input_mode),
    }
}

/// A question mark opens the help on every tab and closes it again.
pub proof fn lemma_question_mark_toggles_help(key: KeyEvent, mode: InputMode)
    requires
        key == (KeyEvent {
            code: KeyCode::Char('?'),
            modifiers: KeyModifiers { shift: false, control: false, alt: false },
            kind: KeyEventKind::Press,
        }),
    ensures
        mode == InputMode::Normal || mode == InputMode::Services || mode == InputMode::Logs || mode
            == InputMode::Network ==> key_action(key, mode) == Some(Action::ShowHelp),
        mode == InputMode::Help ==> key_action(key, mode) == Some(Action::Escape),
{
}

/// Control and c quit in every mode.
pub proof fn lemma_interrupt_always_quits(key: KeyEvent, mode: InputMode)
    requires
        key.kind != KeyEventKind::Release,
        key.interrupts(),
    ensures
        key_action(key, mode) == Some(Action::Quit),
{
}

/// No screen gives a meaning of its own to a key that means the same on every tab.
pub proof fn lemma_screens_leave_global_keys_alone(key: KeyEvent)
    requires
        global_action(key) is Some,
    ensures
        process_action(key) is None,
        service_action(key) is None,
        log_action(key) is None,
        network_action(key) is None,
{
}

/// A mode in which a tab is seen and no dialog.
pub open spec fn tab_mode(mode: InputMode) -> bool {
    match mode {
        InputMode::Normal | InputMode::Services | InputMode::Logs | InputMode::Network => true,
        _ => false,
    }
}

/// The keys that mean the same on every tab do so.
pub proof fn lemma_global_keys_are_global(key: KeyEvent, left: InputMode, right: InputMode)
    requires
        tab_mode(left),
        tab_mode(right),
        global_action(key) is Some,
    ensures
        key_action(key, left) == key_action(key, right),
{
}

/// While a search is typed every character is text, those that mean something elsewhere
/// included.
pub proof fn lemma_searches_take_every_character(key: KeyEvent, mode: InputMode)
    requires
        searched_list(mode) is Some,
        key.types(),
        key.kind != KeyEventKind::Release,
    ensures
        key_action(key, mode) == Some(
            match mode {
                InputMode::ProcessSearch => Action::AppendProcessSearch(key.code->Char_0),
                InputMode::ServiceSearch => Action::AppendServiceSearch(key.code->Char_0),
                _ => Action::AppendLogSearch(key.code->Char_0),
            },
        ),
{
}

/// No key sends a signal right away: in every mode a signal is only asked for, and a dialog is
/// only told to do what is in focus.
pub proof fn lemma_no_key_sends_a_signal(key: KeyEvent, mode: InputMode)
    ensures
        key_action(key, mode) != Some(Action::ConfirmProcessSignal),
        key_action(key, mode) == Some(Action::ExecuteFocusedProcessSignal) ==> mode
            == InputMode::ProcessSignalConfirm,
{
}

/// The meaning of a click.
pub open spec fn click_action(target: MouseTarget) -> Action {
    match target {
        MouseTarget::Tab(tab) => Action::SelectTab(tab),
        MouseTarget::ProcessRow(identity) => Action::SelectProcess(identity),
        MouseTarget::ProcessSortHeader(field) => Action::SortProcesses(field),
        MouseTarget::ProcessSignalCancel => Action::CancelProcessSignal,
        MouseTarget::ProcessSignalConfirm => Action::ConfirmProcessSignal,
        MouseTarget::ServiceRow(unit) => Action::SelectService(unit),
        MouseTarget::LogRow(id) => Action::SelectLog(id),
        MouseTarget::NetworkRow(name) => Action::SelectNetwork(name),
    }
}

pub fn action_for_mouse_target(target: MouseTarget) -> (action: Action)
    ensures
        action == click_action(target),
{
    match target {
        MouseTarget::Tab(tab) => Action::SelectTab(tab),
        MouseTarget::ProcessRow(identity) => Action::SelectProcess(identity),
        MouseTarget::ProcessSortHeader(field) => Action::SortProcesses(field),
        MouseTarget::ProcessSignalCancel => Action::CancelProcessSignal,
        MouseTarget::ProcessSignalConfirm => Action::ConfirmProcessSignal,
        MouseTarget::ServiceRow(unit) => Action::SelectService(unit),
        MouseTarget::LogRow(id) => Action::SelectLog(id),
        MouseTarget::NetworkRow(name) => Action::SelectNetwork(name),
    }
}

/// A part of the screen.
#[derive(Debug, Clone, Copy, PartialEq, Eq, Structural)]
pub struct Area {
    pub x: u16,
    pub y: u16,
    pub width: u16,
    pub height: u16,
}

impl Area {
    /// A cell lies in the area.
    pub open spec fn holds(self, column: u16, row: u16) -> bool {
        &&& self.x <= column < self.x + self.width
        &&& self.y <= row < self.y + self.height
    }

    pub fn contains(self, column: u16, row: u16) -> (result: bool)
        ensures
            result == self.holds(column, row),
    {
        self.x <= column && column - self.x < self.width && self.y <= row && row - self.y
            < self.height
    }
}

/// Something that can be clicked, and where it is.
#[derive(Debug, Clone, PartialEq, Eq)]
pub struct Region {
    pub area: Area,
    pub target: MouseTarget,
}

/// A list that can be scrolled.
#[derive(Debug, Clone, Copy, PartialEq, Eq, Structural)]
pub enum ScrollList {
    Processes,
    Services,
    Logs,
    Network,
}

/// A list that can be scrolled, and where it is.
#[derive(Debug, Clone, Copy, PartialEq, Eq, Structural)]
pub struct ScrollRegion {
    pub area: Area,
    pub list: ScrollList,
}

/// What is where on the screen, and what the keys mean.
#[derive(Debug, Clone, PartialEq, Eq)]
pub struct UiRegions {
    pub input_mode: InputMode,
    pub targets: Vec<Region>,
    pub scrolls: Vec<ScrollRegion>,
}

impl Default for UiRegions {
    fn default() -> (regions: UiRegions)
        ensures
            regions.input_mode == InputMode::Normal,
            regions.targets@.len() == 0,
            regions.scrolls@.len() == 0,
    {
        UiRegions { input_mode: InputMode::Normal, targets: Vec::new(), scrolls: Vec::new() }
    }
}

/// The first thing from `from` on that lies under a cell.
pub open spec fn found_target(targets: Seq<Region>, from: int, column: u16, row: u16) -> Option<
    MouseTarget,
>
    decreases targets.len() - from,
{
    if from >= targets.len() {
        None
    } else if targets[from].area.holds(column, row) {
        Some(targets[from].target)
    } else {
        found_target(targets, from + 1, column, row)
    }
}

/// The first list from `from` on that lies under a cell.
pub open spec fn found_scroll(scrolls: Seq<ScrollRegion>, from: int, column: u16, row: u16) -> Option<
    ScrollList,
>
    decreases scrolls.len() - from,
{
    if from >= scrolls.len() {
        None
    } else if scrolls[from].area.holds(column, row) {
        Some(scrolls[from].list)
    } else {
        found_scroll(scrolls, from + 1, column, row)
    }
}

impl UiRegions {
    /// What lies under a cell.
    pub fn target_at(&self, column: u16, row: u16) -> (target: Option<MouseTarget>)
        ensures
            target == found_target(self.targets@, 0, column, row),
    {
        let mut i: usize = 0;
        while i < self.targets.len()
            invariant
                i <= self.targets@.len(),
                found_target(self.targets@, 0, column, row) == found_target(
                    self.targets@,
                    i as int,
                    column,
                    row,
                ),
            decreases self.targets@.len() - i,
        {
            if self.targets[i].area.contains(column, row) {
                return Some(self.targets[i].target.duplicate());
            }
            i += 1;
        }
        None
    }

    /// The list that lies under a cell.
    pub fn scroll_at(&self, column: u16, row: u16) -> (list: Option<ScrollList>)
        ensures
            list == found_scroll(self.scrolls@, 0, column, row),
    {
        let mut i: usize = 0;
        while i < self.scrolls.len()
            invariant
                i <= self.scrolls@.len(),
                found_scroll(self.scrolls@, 0, column, row) == found_scroll(
                    self.scrolls@,
                    i as int,
                    column,
                    row,
                ),
            decreases self.scrolls@.len() - i,
        {
            if self.scrolls[i].area.contains(column, row) {
                return Some(self.scrolls[i].list);
            }
            i += 1;
        }
        None
    }
}

/// What the mouse did.
#[derive(Debug, Clone, Copy, PartialEq, Eq, Structural)]
pub enum MouseEventKind {
    /// The left button was pressed.
    Press,
    Moved,
    ScrollUp,
    ScrollDown,
    /// Something that means nothing here.
    Other,
}

#[derive(Debug, Clone, Copy, PartialEq, Eq, Structural)]
pub struct MouseEvent {
    pub kind: MouseEventKind,
    pub column: u16,
    pub row: u16,
}

/// What came from the terminal.
#[derive(Debug, Clone, Copy, PartialEq, Eq, Structural)]
pub enum Event {
    Key(KeyEvent),
    Mouse(MouseEvent),
    Resize,
    /// Something that means nothing here.
    Other,
}

/// Scrolling a list up or down.
pub open spec fn scroll_action(list: ScrollList, up: bool) -> Action {
    match list {
        ScrollList::Processes => if up {
            Action::ProcessPrevious
        } else {
            Action::ProcessNext
        },
        ScrollList::Services => if up {
            Action::ServicePrevious
        } else {
            Action::ServiceNext
        },
        ScrollList::Logs => if up {
            Action::LogPrevious
        } else {
            Action::LogNext
        },
        ScrollList::Network => if up {
            Action::NetworkPrevious
        } else {
            Action::NetworkNext
        },
    }
}

fn action_for_scroll(list: ScrollList, up: bool) -> (action: Action)
    ensures
        action == scroll_action(list, up),
{
    match list {
        ScrollList::Processes => if up {
            Action::ProcessPrevious
        } else {
            Action::ProcessNext
        },
        ScrollList::Services => if up {
            Action::ServicePrevious
        } else {
            Action::ServiceNext
        },
        ScrollList::Logs => if up {
            Action::LogPrevious
        } else {
            Action::LogNext
        },
        ScrollList::Network => if up {
            Action::NetworkPrevious
        } else {
            Action::NetworkNext
        },
    }
}

/// What the mouse means. It is only told that something else lies under it, not that it moved.
pub open spec fn mouse_action(mouse: MouseEvent, regions: UiRegions, hovered: Option<MouseTarget>) -> Option<
    Action,
> {
    let target = found_target(regions.targets@, 0, mouse.column, mouse.row);
    let list = found_scroll(regions.scrolls@, 0, mouse.column, mouse.row);
    match mouse.kind {
        MouseEventKind::Press => match target {
            Some(target) => Some(click_action(target)),
            None => None,
        },
        MouseEventKind::Moved => if likeness::same_option(target, hovered) {
            None
        } else {
            Some(Action::HoverMouseTarget(target))
        },
        MouseEventKind::ScrollUp => match list {
            Some(list) => Some(scroll_action(list, true)),
            None => None,
        },
        MouseEventKind::ScrollDown => match list {
            Some(list) => Some(scroll_action(list, false)),
            None => None,
        },
        MouseEventKind::Other => None,
    }
}

fn translate_mouse_event(mouse: MouseEvent, regions: &UiRegions, hovered: &Option<MouseTarget>) -> (action:
    Option<Action>)
    ensures
        action == mouse_action(mouse, *regions, *hovered),
{
    match mouse.kind {
        MouseEventKind::Press => match regions.target_at(mouse.column, mouse.row) {
            Some(target) => Some(action_for_mouse_target(target)),
            None => None,
        },
        MouseEventKind::Moved => {
            let target = regions.target_at(mouse.column, mouse.row);
            if equal_option(&target, hovered) {
                None
            } else {
                Some(Action::HoverMouseTarget(target))
            }
        },
        MouseEventKind::ScrollUp => match regions.scroll_at(mouse.column, mouse.row) {
            Some(list) => Some(action_for_scroll(list, true)),
            None => None,
        },
        MouseEventKind::ScrollDown => match regions.scroll_at(mouse.column, mouse.row) {
            Some(list) => Some(action_for_scroll(list, false)),
            None => None,
        },
        MouseEventKind::Other => None,
    }
}

/// What an event means.
pub open spec fn event_action(event: Event, regions: UiRegions, hovered: Option<MouseTarget>) -> Option<
    Action,
> {
    match event {
        Event::Key(key) => key_action(key, regions.input_mode),
        Event::Mouse(mouse) => mouse_action(mouse, regions, hovered),
        Event::Resize => Some(Action::Resize),
        Event::Other => None,
    }
}

pub fn translate_event(event: Event, regions: &UiRegions, hovered: &Option<MouseTarget>) -> (action:
    Option<Action>)
    ensures
        action == event_action(event, *regions, *hovered),
{
    match event {
        Event::Key(key) => translate_key_event(key, regions.input_mode),
        Event::Mouse(mouse) => translate_mouse_event(mouse, regions, hovered),
        Event::Resize => Some(Action::Resize),
        Event::Other => None,
    }
}

/// However often the mouse moves over one thing, it is told once: not again while that is what
/// is known to lie under it.
pub proof fn lemma_hover_is_told_once(mouse: MouseEvent, regions: UiRegions, target: Option<MouseTarget>)
    requires
        mouse.kind == MouseEventKind::Moved,
        target == found_target(regions.targets@, 0, mouse.column, mouse.row),
    ensures
        mouse_action(mouse, regions, target) is None,
{
}

/// What is done while waiting for events.
#[derive(Debug, Clone, Copy, PartialEq, Eq, Structural)]
pub enum HandlerStep {
    /// It is time to draw.
    Draw,
    /// It is time for a tick.
    Tick(Nanos),
    /// An event is waited for, but no longer than this.
    Poll(Nanos),
}

/// Keeps the ticks going between events.
#[derive(Debug, Clone, PartialEq, Eq, Structural)]
pub struct EventHandler {
    pub tick_rate: Nanos,
    pub next_tick: Nanos,
}

impl EventHandler {
    pub fn new(tick_rate: Nanos, now: Nanos) -> (handler: EventHandler)
        ensures
            handler == (EventHandler { tick_rate, next_tick: control::moment_after(now, tick_rate) }),
    {
        EventHandler { tick_rate, next_tick: now.saturating_add(tick_rate) }
    }

    /// What is done at `now`, where something is to be drawn at `redraw_deadline`.
    pub open spec fn step_at(self, redraw_deadline: Option<Nanos>, now: Nanos) -> HandlerStep {
        if redraw_deadline is Some && now >= redraw_deadline->0 {
            HandlerStep::Draw
        } else if now >= self.next_tick {
            HandlerStep::Tick(now)
        } else {
            HandlerStep::Poll(
                match redraw_deadline {
                    Some(deadline) => if deadline < self.next_tick {
                        (deadline - now) as u64
                    } else {
                        (self.next_tick - now) as u64
                    },
                    None => (self.next_tick - now) as u64,
                },
            )
        }
    }

    /// The handler once a step was taken: a tick puts the next one off.
    pub open spec fn after_step(self, step: HandlerStep) -> EventHandler {
        match step {
            HandlerStep::Tick(now) => EventHandler {
                next_tick: control::moment_after(now, self.tick_rate),
                ..self
            },
            _ => self,
        }
    }

    /// What is done next at `now`, where something is to be drawn at `redraw_deadline`. To draw
    /// comes before a tick, and nothing is waited for beyond the earlier of the two.
    pub fn next_step(&mut self, redraw_deadline: Option<Nanos>, now: Nanos) -> (step: HandlerStep)
        ensures
            step == old(self).step_at(redraw_deadline, now),
            *final(self) == old(self).after_step(step),
    {
        let mut end: Nanos = self.next_tick;
        match redraw_deadline {
            Some(deadline) => {
                if now >= deadline {
                    return HandlerStep::Draw;
                }
                if deadline < end {
                    end = deadline;
                }
            },
            None => {},
        }
        if now >= self.next_tick {
            self.next_tick = now.saturating_add(self.tick_rate);
            return HandlerStep::Tick(now);
        }
        HandlerStep::Poll(end - now)
    }
}

} // verus!

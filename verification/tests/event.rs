use tuxctl::action::{
    Action, InputMode, IntervalStep, MouseTarget, PinMove, ProcessSortField, SignalConfirmButton,
    Tab,
};
use tuxctl::event::{
    global_tab_key, log_key, network_key, process_key, service_key, translate_event,
    translate_key_event, Area, Event, EventHandler, HandlerStep, KeyCode, KeyEvent, KeyEventKind,
    KeyModifiers, MouseEvent, MouseEventKind, Region, ScrollList, ScrollRegion, UiRegions,
};
use tuxctl::linux::process::{ProcessIdentity, ProcessSignal};
use tuxctl::time::MILLISECOND;

const NONE: KeyModifiers = KeyModifiers {
    shift: false,
    control: false,
    alt: false,
};
const SHIFT: KeyModifiers = KeyModifiers {
    shift: true,
    control: false,
    alt: false,
};
const CONTROL: KeyModifiers = KeyModifiers {
    shift: false,
    control: true,
    alt: false,
};
const ALT: KeyModifiers = KeyModifiers {
    shift: false,
    control: false,
    alt: true,
};

const TAB_MODES: [InputMode; 4] = [
    InputMode::Normal,
    InputMode::Services,
    InputMode::Logs,
    InputMode::Network,
];

fn no_regions() -> UiRegions {
    UiRegions::default()
}

fn with_input_mode(input_mode: InputMode) -> UiRegions {
    UiRegions {
        input_mode,
        ..UiRegions::default()
    }
}

fn area(x: u16, y: u16, width: u16, height: u16) -> Area {
    Area {
        x,
        y,
        width,
        height,
    }
}

/// One thing on the screen, in a list that can be scrolled or in none.
fn regions_with(
    target: MouseTarget,
    area: Area,
    list: Option<ScrollList>,
    input_mode: InputMode,
) -> UiRegions {
    UiRegions {
        input_mode,
        targets: vec![Region { area, target }],
        scrolls: list
            .into_iter()
            .map(|list| ScrollRegion { area, list })
            .collect(),
    }
}

fn key(code: KeyCode, modifiers: KeyModifiers) -> Event {
    Event::Key(KeyEvent::new(code, modifiers))
}

fn mouse(kind: MouseEventKind, column: u16, row: u16) -> Event {
    Event::Mouse(MouseEvent { kind, column, row })
}

fn click(column: u16, row: u16) -> Event {
    mouse(MouseEventKind::Press, column, row)
}

/// Every printable ASCII key (plain and shifted) plus the special keys.
fn candidate_keys() -> Vec<KeyEvent> {
    let mut keys: Vec<KeyEvent> = (0x20_u8..0x7f)
        .flat_map(|byte| {
            let code = KeyCode::Char(char::from(byte));
            [KeyEvent::new(code, NONE), KeyEvent::new(code, SHIFT)]
        })
        .collect();
    for code in [
        KeyCode::Up,
        KeyCode::Down,
        KeyCode::Left,
        KeyCode::Right,
        KeyCode::PageUp,
        KeyCode::PageDown,
        KeyCode::Home,
        KeyCode::End,
        KeyCode::Enter,
        KeyCode::Esc,
        KeyCode::Tab,
        KeyCode::BackTab,
        KeyCode::Backspace,
        KeyCode::Delete,
        KeyCode::Insert,
    ] {
        keys.push(KeyEvent::new(code, NONE));
        keys.push(KeyEvent::new(code, SHIFT));
        keys.push(KeyEvent::new(code, ALT));
    }
    keys
}

#[test]
fn screen_keys_never_shadow_global_tab_keys() {
    type ScreenKeys = fn(KeyEvent) -> Option<Action>;
    let screens: [(&str, ScreenKeys); 4] = [
        ("processes", process_key),
        ("services", service_key),
        ("logs", log_key),
        ("network", network_key),
    ];
    for key in candidate_keys() {
        if global_tab_key(key).is_none() {
            continue;
        }
        for (screen, screen_key) in screens {
            assert_eq!(
                screen_key(key),
                None,
                "{screen} binds {key:?}, which is already a global key"
            );
        }
    }
}

#[test]
fn global_keys_behave_the_same_in_every_tab_mode() {
    for key in candidate_keys() {
        let Some(global) = global_tab_key(key) else {
            continue;
        };
        for mode in TAB_MODES {
            assert_eq!(
                translate_key_event(key, mode),
                Some(global.clone()),
                "{key:?} in {mode:?}"
            );
        }
    }
}

#[test]
fn every_key_in_the_readme_tables_is_handled() {
    let plain = |code| KeyEvent::new(code, NONE);
    let character = |c| KeyEvent::new(KeyCode::Char(c), NONE);
    let global = [
        character('1'),
        character('2'),
        character('3'),
        character('4'),
        character('5'),
        plain(KeyCode::Tab),
        plain(KeyCode::BackTab),
        plain(KeyCode::Right),
        plain(KeyCode::Left),
        character('?'),
        plain(KeyCode::Esc),
        character('q'),
        KeyEvent::new(KeyCode::Char('c'), CONTROL),
        plain(KeyCode::Up),
        character('k'),
        plain(KeyCode::Down),
        character('j'),
        plain(KeyCode::PageUp),
        plain(KeyCode::PageDown),
        plain(KeyCode::Home),
        plain(KeyCode::End),
        plain(KeyCode::Enter),
    ];
    for mode in TAB_MODES {
        for key in global {
            assert!(
                translate_key_event(key, mode).is_some(),
                "{key:?} in {mode:?}"
            );
        }
        // The Network screen has no search.
        if mode != InputMode::Network {
            assert!(translate_key_event(character('/'), mode).is_some());
        }
    }
    let tables: [(InputMode, Vec<KeyEvent>); 4] = [
        (
            InputMode::Normal,
            vec![
                character('c'),
                character('m'),
                character('p'),
                character('n'),
                character('t'),
                character('K'),
                KeyEvent::new(KeyCode::Char('k'), SHIFT),
            ],
        ),
        (
            InputMode::ProcessSignalConfirm,
            vec![
                plain(KeyCode::Tab),
                plain(KeyCode::Left),
                plain(KeyCode::Right),
                character('h'),
                character('l'),
                plain(KeyCode::Enter),
                plain(KeyCode::Esc),
            ],
        ),
        (InputMode::Services, vec![character('r')]),
        (InputMode::Logs, vec![character('f'), character(' ')]),
    ];
    for (mode, keys) in tables {
        for key in keys {
            assert!(
                translate_key_event(key, mode).is_some(),
                "{key:?} in {mode:?}"
            );
        }
    }
}

#[test]
fn number_keys_select_tabs() {
    assert_eq!(
        translate_event(key(KeyCode::Char('4'), NONE), &no_regions(), &None),
        Some(Action::SelectTab(Tab::Logs))
    );
}

#[test]
fn shift_tab_moves_to_previous_tab() {
    assert_eq!(
        translate_event(key(KeyCode::Tab, SHIFT), &no_regions(), &None),
        Some(Action::PreviousTab)
    );
}

#[test]
fn left_click_on_tab_selects_it() {
    let regions = regions_with(
        MouseTarget::Tab(Tab::Services),
        area(12, 2, 10, 1),
        None,
        InputMode::Normal,
    );

    assert_eq!(
        translate_event(click(13, 2), &regions, &None),
        Some(Action::SelectTab(Tab::Services))
    );
}

#[test]
fn clicks_outside_tabs_are_ignored() {
    let regions = regions_with(
        MouseTarget::Tab(Tab::Overview),
        area(1, 1, 10, 1),
        None,
        InputMode::Normal,
    );

    assert_eq!(translate_event(click(20, 1), &regions, &None), None);
}

#[test]
fn areas_end_where_their_width_and_height_say() {
    let area = area(u16::MAX - 1, 3, 10, 2);

    assert!(area.contains(u16::MAX, 4));
    assert!(!area.contains(u16::MAX - 2, 4));
    assert!(!area.contains(u16::MAX, 5));
    assert!(!area.contains(u16::MAX, 2));
}

#[test]
fn process_row_click_and_wheel_are_semantic_actions() {
    let identity = ProcessIdentity {
        pid: 42,
        start_time: 9001,
    };
    let regions = regions_with(
        MouseTarget::ProcessRow(identity),
        area(2, 5, 40, 1),
        Some(ScrollList::Processes),
        InputMode::Normal,
    );

    assert_eq!(
        translate_event(click(8, 5), &regions, &None),
        Some(Action::SelectProcess(identity))
    );
    assert_eq!(
        translate_event(mouse(MouseEventKind::ScrollDown, 8, 5), &regions, &None),
        Some(Action::ProcessNext)
    );
}

#[test]
fn service_row_click_and_wheel_are_semantic_actions() {
    let regions = regions_with(
        MouseTarget::ServiceRow("sshd.service".into()),
        area(2, 5, 40, 1),
        Some(ScrollList::Services),
        InputMode::Services,
    );

    assert_eq!(
        translate_event(click(8, 5), &regions, &None),
        Some(Action::SelectService("sshd.service".into()))
    );
    assert_eq!(
        translate_event(mouse(MouseEventKind::ScrollDown, 8, 5), &regions, &None),
        Some(Action::ServiceNext)
    );
}

#[test]
fn log_row_click_and_wheel_are_semantic_actions() {
    let regions = regions_with(
        MouseTarget::LogRow(41),
        area(2, 5, 40, 1),
        Some(ScrollList::Logs),
        InputMode::Logs,
    );

    assert_eq!(
        translate_event(click(8, 5), &regions, &None),
        Some(Action::SelectLog(41))
    );
    assert_eq!(
        translate_event(mouse(MouseEventKind::ScrollUp, 8, 5), &regions, &None),
        Some(Action::LogPrevious)
    );
}

#[test]
fn wheel_outside_process_body_is_ignored() {
    let regions = regions_with(
        MouseTarget::ProcessRow(ProcessIdentity {
            pid: 42,
            start_time: 9001,
        }),
        area(2, 5, 40, 1),
        Some(ScrollList::Processes),
        InputMode::Normal,
    );

    assert_eq!(
        translate_event(mouse(MouseEventKind::ScrollDown, 8, 4), &regions, &None),
        None
    );
}

fn cpu_header() -> (MouseTarget, UiRegions) {
    let target = MouseTarget::ProcessSortHeader(ProcessSortField::Cpu);
    let regions = regions_with(target.clone(), area(30, 4, 10, 1), None, InputMode::Normal);
    (target, regions)
}

#[test]
fn mouse_motion_updates_semantic_hover_target() {
    let (target, regions) = cpu_header();

    assert_eq!(
        translate_event(mouse(MouseEventKind::Moved, 32, 4), &regions, &None),
        Some(Action::HoverMouseTarget(Some(target.clone())))
    );
    assert_eq!(
        translate_event(mouse(MouseEventKind::Moved, 0, 0), &regions, &Some(target)),
        Some(Action::HoverMouseTarget(None))
    );
}

#[test]
fn repeated_motion_within_one_target_dispatches_once() {
    let (target, regions) = cpu_header();
    let mut hovered = None;
    let mut dispatched = 0;

    for _ in 0..100 {
        let event = mouse(MouseEventKind::Moved, 32, 4);
        if let Some(Action::HoverMouseTarget(next)) = translate_event(event, &regions, &hovered) {
            hovered = next;
            dispatched += 1;
        }
    }

    assert_eq!(hovered, Some(target));
    assert_eq!(dispatched, 1);
}

#[test]
fn motion_over_whitespace_is_ignored_when_hover_is_already_clear() {
    assert_eq!(
        translate_event(mouse(MouseEventKind::Moved, 0, 0), &no_regions(), &None),
        None
    );
}

#[test]
fn search_mode_treats_q_as_query_text() {
    assert_eq!(
        translate_key_event(
            KeyEvent::new(KeyCode::Char('q'), NONE),
            InputMode::ProcessSearch
        ),
        Some(Action::AppendProcessSearch('q'))
    );
}

fn search_modes() -> [(InputMode, [Action; 4]); 3] {
    [
        (
            InputMode::ProcessSearch,
            [
                Action::ProcessPrevious,
                Action::ProcessNext,
                Action::ProcessPreviousPage,
                Action::ProcessNextPage,
            ],
        ),
        (
            InputMode::ServiceSearch,
            [
                Action::ServicePrevious,
                Action::ServiceNext,
                Action::ServicePreviousPage,
                Action::ServiceNextPage,
            ],
        ),
        (
            InputMode::LogSearch,
            [
                Action::LogPrevious,
                Action::LogNext,
                Action::LogPreviousPage,
                Action::LogNextPage,
            ],
        ),
    ]
}

#[test]
fn search_modes_map_arrow_and_page_keys_to_navigation() {
    for (mode, actions) in search_modes() {
        let keys = [
            KeyCode::Up,
            KeyCode::Down,
            KeyCode::PageUp,
            KeyCode::PageDown,
        ];
        for (code, action) in keys.into_iter().zip(actions) {
            for modifiers in [NONE, SHIFT] {
                assert_eq!(
                    translate_key_event(KeyEvent::new(code, modifiers), mode),
                    Some(action.clone()),
                    "{code:?} {modifiers:?} in {mode:?}"
                );
            }
        }
    }
}

#[test]
fn search_modes_keep_letters_as_query_text() {
    for (mode, _) in search_modes() {
        for character in ['j', 'k', 'J', 'K', 'q', '/', ' '] {
            let action = translate_key_event(KeyEvent::new(KeyCode::Char(character), NONE), mode);
            let expected = match mode {
                InputMode::ProcessSearch => Action::AppendProcessSearch(character),
                InputMode::ServiceSearch => Action::AppendServiceSearch(character),
                _ => Action::AppendLogSearch(character),
            };
            assert_eq!(action, Some(expected), "{character:?} in {mode:?}");
        }
    }
}

#[test]
fn search_modes_edit_and_open_and_ignore_held_keys() {
    for (mode, open, back) in [
        (
            InputMode::ProcessSearch,
            Action::OpenProcessDetails,
            Action::BackspaceProcessSearch,
        ),
        (
            InputMode::ServiceSearch,
            Action::OpenServiceDetails,
            Action::BackspaceServiceSearch,
        ),
        (
            InputMode::LogSearch,
            Action::OpenLogDetails,
            Action::BackspaceLogSearch,
        ),
    ] {
        let press = |code, modifiers| translate_key_event(KeyEvent::new(code, modifiers), mode);
        assert_eq!(press(KeyCode::Enter, NONE), Some(open));
        assert_eq!(press(KeyCode::Backspace, NONE), Some(back));
        assert_eq!(press(KeyCode::Esc, NONE), Some(Action::Escape));
        assert_eq!(press(KeyCode::Char('a'), ALT), None);
        assert_eq!(press(KeyCode::Char('a'), CONTROL), None);
        assert_eq!(press(KeyCode::Tab, NONE), None);
    }
}

#[test]
fn search_modes_leave_home_and_end_unmapped() {
    for (mode, _) in search_modes() {
        for code in [KeyCode::Home, KeyCode::End] {
            assert_eq!(
                translate_key_event(KeyEvent::new(code, NONE), mode),
                None,
                "{code:?} in {mode:?}"
            );
        }
    }
}

#[test]
fn plus_and_minus_step_the_interval_on_tabs_and_are_text_in_search() {
    let plus = KeyEvent::new(KeyCode::Char('+'), SHIFT);
    let minus = KeyEvent::new(KeyCode::Char('-'), NONE);
    for mode in TAB_MODES {
        assert_eq!(
            translate_key_event(plus, mode),
            Some(Action::StepSamplingInterval(IntervalStep::Longer))
        );
        assert_eq!(
            translate_key_event(minus, mode),
            Some(Action::StepSamplingInterval(IntervalStep::Shorter))
        );
    }
    assert_eq!(
        translate_key_event(minus, InputMode::ProcessSearch),
        Some(Action::AppendProcessSearch('-'))
    );
    for mode in [
        InputMode::Help,
        InputMode::ProcessDetail,
        InputMode::ProcessSignalConfirm,
        InputMode::LogDetail,
    ] {
        assert_eq!(translate_key_event(plus, mode), None, "{mode:?}");
    }
}

#[test]
fn service_keys_map_to_service_actions() {
    let press = |code, mode| translate_key_event(KeyEvent::new(code, NONE), mode);

    assert_eq!(
        press(KeyCode::Char('j'), InputMode::Services),
        Some(Action::ServiceNext)
    );
    assert_eq!(
        press(KeyCode::Char('/'), InputMode::Services),
        Some(Action::BeginServiceSearch)
    );
    assert_eq!(
        press(KeyCode::Char('r'), InputMode::Services),
        Some(Action::RefreshServices)
    );
    assert_eq!(
        press(KeyCode::Char('Q'), InputMode::ServiceSearch),
        Some(Action::AppendServiceSearch('Q'))
    );
}

#[test]
fn log_keys_map_to_log_actions() {
    for (code, action) in [
        (KeyCode::Char('j'), Action::LogNext),
        (KeyCode::Char('/'), Action::BeginLogSearch),
        (KeyCode::Char('f'), Action::ToggleLogFollow),
        (KeyCode::Char(' '), Action::ToggleLogPause),
        (KeyCode::Enter, Action::OpenLogDetails),
    ] {
        assert_eq!(
            translate_key_event(KeyEvent::new(code, NONE), InputMode::Logs),
            Some(action)
        );
    }

    assert_eq!(
        translate_key_event(
            KeyEvent::new(KeyCode::Char('F'), NONE),
            InputMode::LogSearch
        ),
        Some(Action::AppendLogSearch('F'))
    );
}

#[test]
fn process_sort_keys_become_sort_actions() {
    for (key, field) in [
        ('c', ProcessSortField::Cpu),
        ('m', ProcessSortField::Memory),
        ('p', ProcessSortField::Pid),
        ('n', ProcessSortField::Name),
    ] {
        assert_eq!(
            translate_key_event(KeyEvent::new(KeyCode::Char(key), NONE), InputMode::Normal),
            Some(Action::SortProcesses(field))
        );
    }
}

#[test]
fn pin_keys_do_not_shadow_sorting_or_navigation() {
    let press =
        |code, modifiers| translate_key_event(KeyEvent::new(code, modifiers), InputMode::Normal);

    assert_eq!(press(KeyCode::Char('P'), NONE), Some(Action::TogglePin));
    assert_eq!(press(KeyCode::Char('P'), SHIFT), Some(Action::TogglePin));
    // Some terminals report Shift+p as a lowercase key with shift.
    assert_eq!(press(KeyCode::Char('p'), SHIFT), Some(Action::TogglePin));
    assert_eq!(
        press(KeyCode::Char('p'), NONE),
        Some(Action::SortProcesses(ProcessSortField::Pid))
    );

    for modifiers in [SHIFT, ALT] {
        assert_eq!(
            press(KeyCode::Up, modifiers),
            Some(Action::MoveSelectedPin(PinMove::Up))
        );
        assert_eq!(
            press(KeyCode::Down, modifiers),
            Some(Action::MoveSelectedPin(PinMove::Down))
        );
    }
    assert_eq!(press(KeyCode::Up, NONE), Some(Action::ProcessPrevious));
    assert_eq!(press(KeyCode::Down, NONE), Some(Action::ProcessNext));

    // While typing a search, P is query text and Shift+arrows navigate.
    assert_eq!(
        translate_key_event(
            KeyEvent::new(KeyCode::Char('P'), SHIFT),
            InputMode::ProcessSearch
        ),
        Some(Action::AppendProcessSearch('P'))
    );
    assert_eq!(
        translate_key_event(KeyEvent::new(KeyCode::Up, SHIFT), InputMode::ProcessSearch),
        Some(Action::ProcessPrevious)
    );
}

#[test]
fn process_header_click_becomes_sort_action() {
    let regions = regions_with(
        MouseTarget::ProcessSortHeader(ProcessSortField::Memory),
        area(30, 4, 12, 1),
        None,
        InputMode::Normal,
    );

    assert_eq!(
        translate_event(click(31, 4), &regions, &None),
        Some(Action::SortProcesses(ProcessSortField::Memory))
    );
}

#[test]
fn resize_becomes_resize_action() {
    assert_eq!(
        translate_event(Event::Resize, &no_regions(), &None),
        Some(Action::Resize)
    );
    assert_eq!(translate_event(Event::Other, &no_regions(), &None), None);
}

#[test]
fn network_keys_map_to_network_actions() {
    for (code, action) in [
        (KeyCode::Char('k'), Action::NetworkPrevious),
        (KeyCode::Char('j'), Action::NetworkNext),
        (KeyCode::Up, Action::NetworkPrevious),
        (KeyCode::Down, Action::NetworkNext),
        (KeyCode::Home, Action::NetworkFirst),
        (KeyCode::End, Action::NetworkLast),
        (KeyCode::PageUp, Action::NetworkPreviousPage),
        (KeyCode::PageDown, Action::NetworkNextPage),
        (KeyCode::Enter, Action::OpenNetworkDetails),
    ] {
        assert_eq!(
            translate_key_event(KeyEvent::new(code, NONE), InputMode::Network),
            Some(action)
        );
    }

    assert_eq!(
        translate_key_event(KeyEvent::new(KeyCode::Esc, NONE), InputMode::NetworkDetail),
        Some(Action::Escape)
    );
}

#[test]
fn network_row_click_and_wheel_are_semantic_actions() {
    let regions = regions_with(
        MouseTarget::NetworkRow("enp6s0".into()),
        area(0, 5, 80, 1),
        Some(ScrollList::Network),
        InputMode::Network,
    );

    assert_eq!(
        translate_event(click(10, 5), &regions, &None),
        Some(Action::SelectNetwork("enp6s0".into()))
    );
    assert_eq!(
        translate_event(mouse(MouseEventKind::ScrollDown, 10, 5), &regions, &None),
        Some(Action::NetworkNext)
    );
}

#[test]
fn process_signal_keys_and_modal_events() {
    let empty = no_regions();

    // Shortcuts on the screen.
    assert_eq!(
        translate_event(key(KeyCode::Char('t'), NONE), &empty, &None),
        Some(Action::RequestProcessSignal(ProcessSignal::Term))
    );
    assert_eq!(
        translate_event(key(KeyCode::Char('K'), NONE), &empty, &None),
        Some(Action::RequestProcessSignal(ProcessSignal::Kill))
    );
    assert_eq!(
        translate_event(key(KeyCode::Char('k'), SHIFT), &empty, &None),
        Some(Action::RequestProcessSignal(ProcessSignal::Kill))
    );

    // Keys of the dialog.
    let modal = UiRegions {
        input_mode: InputMode::ProcessSignalConfirm,
        targets: vec![
            Region {
                area: area(10, 5, 12, 1),
                target: MouseTarget::ProcessSignalCancel,
            },
            Region {
                area: area(26, 5, 15, 1),
                target: MouseTarget::ProcessSignalConfirm,
            },
        ],
        scrolls: Vec::new(),
    };
    for (code, action) in [
        (KeyCode::Esc, Action::CancelProcessSignal),
        (KeyCode::Tab, Action::ToggleProcessSignalFocus),
        (
            KeyCode::Left,
            Action::FocusProcessSignal(SignalConfirmButton::Cancel),
        ),
        (
            KeyCode::Right,
            Action::FocusProcessSignal(SignalConfirmButton::Confirm),
        ),
        (KeyCode::Enter, Action::ExecuteFocusedProcessSignal),
    ] {
        assert_eq!(
            translate_event(key(code, NONE), &modal, &None),
            Some(action)
        );
    }

    // Clicks in the dialog.
    assert_eq!(
        translate_event(click(12, 5), &modal, &None),
        Some(Action::CancelProcessSignal)
    );
    assert_eq!(
        translate_event(click(28, 5), &modal, &None),
        Some(Action::ConfirmProcessSignal)
    );
    assert_eq!(translate_event(click(50, 5), &modal, &None), None);
}

#[test]
fn menu_keys_move_and_open() {
    let press = |code| translate_key_event(KeyEvent::new(code, NONE), InputMode::Menu);

    assert_eq!(press(KeyCode::Up), Some(Action::MenuPrevious));
    assert_eq!(press(KeyCode::Char('j')), Some(Action::MenuNext));
    assert_eq!(press(KeyCode::Enter), Some(Action::ActivateSelectedMenuItem));
    assert_eq!(press(KeyCode::Esc), Some(Action::Escape));
    assert_eq!(press(KeyCode::Tab), None);
}

#[test]
fn ctrl_c_always_triggers_quit_in_all_input_modes() {
    let modes = [
        InputMode::Normal,
        InputMode::Help,
        InputMode::ProcessSearch,
        InputMode::ProcessDetail,
        InputMode::ProcessSignalConfirm,
        InputMode::ServiceSearch,
        InputMode::ServiceDetail,
        InputMode::LogSearch,
        InputMode::LogDetail,
        InputMode::NetworkDetail,
    ];

    for mode in modes {
        let regions = with_input_mode(mode);

        assert_eq!(
            translate_event(key(KeyCode::Char('c'), CONTROL), &regions, &None),
            Some(Action::Quit),
            "Ctrl+c failed in mode {mode:?}"
        );
        assert_eq!(
            translate_event(key(KeyCode::Char('C'), CONTROL), &regions, &None),
            Some(Action::Quit),
            "Ctrl+C failed in mode {mode:?}"
        );
    }
}

#[test]
fn keys_that_are_let_go_mean_nothing() {
    for (kind, expected) in [
        (KeyEventKind::Press, Some(Action::Quit)),
        (KeyEventKind::Repeat, Some(Action::Quit)),
        (KeyEventKind::Release, None),
    ] {
        let key = KeyEvent {
            code: KeyCode::Char('q'),
            modifiers: NONE,
            kind,
        };
        assert_eq!(translate_key_event(key, InputMode::Normal), expected);
    }
}

#[test]
fn question_mark_toggles_help_closed() {
    let question = key(KeyCode::Char('?'), NONE);

    assert_eq!(
        translate_event(question, &with_input_mode(InputMode::Help), &None),
        Some(Action::Escape)
    );
    assert_eq!(
        translate_event(question, &with_input_mode(InputMode::ProcessDetail), &None),
        None
    );
}

#[test]
fn ticks_keep_going_between_events() {
    let mut handler = EventHandler::new(250 * MILLISECOND, 0);

    assert_eq!(
        handler.next_step(None, 100 * MILLISECOND),
        HandlerStep::Poll(150 * MILLISECOND)
    );
    assert_eq!(
        handler.next_step(Some(120 * MILLISECOND), 100 * MILLISECOND),
        HandlerStep::Poll(20 * MILLISECOND)
    );
    assert_eq!(
        handler.next_step(Some(120 * MILLISECOND), 300 * MILLISECOND),
        HandlerStep::Draw,
        "drawing comes before a tick"
    );
    assert_eq!(
        handler.next_step(None, 300 * MILLISECOND),
        HandlerStep::Tick(300 * MILLISECOND)
    );
    assert_eq!(
        handler.next_step(None, 300 * MILLISECOND),
        HandlerStep::Poll(250 * MILLISECOND)
    );
}

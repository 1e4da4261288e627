//! When things are drawn, waited for and asked for, in terms of moments and arguments.
use vstd::prelude::*;

use crate::action::Action;
use crate::app::health;
use crate::app::health::SAMPLING_PRESETS;
use crate::app::state::AppState;
use crate::cli;
use crate::cli::Command;
use crate::event::{EventHandler, HandlerStep};
use crate::linux::control::{CollectorControl, CollectorWake, Deadline, WaitStep};
use crate::linux::service_listing;
use crate::linux::service_listing::{ChildState, CommandOutcome, PollStep};
use crate::scheduler;
use crate::scheduler::{RedrawPolicy, RedrawScheduler, TurnStep};
use crate::text;
use crate::text_laws;
use crate::time::Nanos;

verus! {

broadcast use vstd::string::group_string_axioms;

/// What is waited for is neither cut short nor overslept: up to the end of the wait there is
/// nothing else to do, and at its end there is.
pub proof fn lemma_waiting_ends_in_time(
    handler: EventHandler,
    redraw_deadline: Option<Nanos>,
    now: Nanos,
    later: Nanos,
)
    requires
        now <= later,
        handler.step_at(redraw_deadline, now) is Poll,
    ensures
        ({
            let span = handler.step_at(redraw_deadline, now)->Poll_0;
            &&& span > 0
            &&& handler.step_at(redraw_deadline, later) is Poll == (later < now + span)
        }),
{
}

/// A frame that is due is drawn before anything else, and a tick that is due comes where none is.
/// Neither comes early.
pub proof fn lemma_steps_are_due(
    handler: EventHandler,
    redraw_deadline: Option<Nanos>,
    now: Nanos,
)
    ensures
        handler.step_at(redraw_deadline, now) is Draw == (redraw_deadline is Some
            && redraw_deadline->0 <= now),
        handler.step_at(redraw_deadline, now) is Tick ==> handler.next_tick <= now
            && handler.step_at(redraw_deadline, now) == HandlerStep::Tick(now),
        handler.next_tick <= now && handler.step_at(redraw_deadline, now) !is Draw
            ==> handler.step_at(redraw_deadline, now) is Tick,
{
}

/// After a tick the next one is a tick rate away, counted from it, and drawing puts none off.
pub proof fn lemma_ticks_keep_their_rate(handler: EventHandler, now: Nanos, later: Nanos)
    requires
        now + handler.tick_rate <= Nanos::MAX,
    ensures
        handler.after_step(HandlerStep::Tick(now)).step_at(None, later) is Tick == (later >= now
            + handler.tick_rate),
        handler.after_step(HandlerStep::Draw) == handler,
        handler.after_step(HandlerStep::Poll(later)) == handler,
{
}

/// An action brings what a collector found.
pub open spec fn is_finding(action: Action) -> bool {
    ||| action is SystemMetricsUpdated
    ||| action is ProcessesUpdated
    ||| action is ServicesUpdated
    ||| action is NetworkUpdated
    ||| action is HardwareDiscovered
    ||| action is LogsUpdated
}

/// What collectors find and where the mouse is waits for a frame; everything else is drawn at
/// once.
pub proof fn lemma_only_findings_wait(action: Action)
    ensures
        (RedrawPolicy::of(action) == RedrawPolicy::FrameLimited) == is_finding(action),
        (RedrawPolicy::of(action) == RedrawPolicy::CoalescedHover) == (action is HoverMouseTarget),
        (RedrawPolicy::of(action) == RedrawPolicy::Immediate) == (!is_finding(action)
            && action !is HoverMouseTarget),
{
}

/// A move of the mouse is drawn a frame after the first move that was not drawn yet: those that
/// follow meanwhile neither hasten it nor put it off.
pub proof fn lemma_moves_are_drawn_together(
    scheduler: RedrawScheduler,
    first: Nanos,
    second: Nanos,
    at: Nanos,
)
    requires
        scheduler.deadline is None,
        first <= second,
        second + scheduler.hover_frame_interval <= Nanos::MAX,
    ensures
        scheduler.with_hover(first).due(at) == (at >= first + scheduler.hover_frame_interval),
        scheduler.with_hover(first).with_hover(second) == scheduler.with_hover(first),
{
}

/// What a collector finds is drawn at once where nothing was drawn for a frame or ever, and
/// otherwise as soon as a frame is over since the last drawing.
pub proof fn lemma_findings_are_drawn_in_frames(scheduler: RedrawScheduler, now: Nanos, at: Nanos)
    requires
        scheduler.deadline is None,
        scheduler.last_render is Some ==> scheduler.last_render->0
            + scheduler.background_frame_interval <= Nanos::MAX,
    ensures
        scheduler.last_render is None ==> scheduler.with_background(now).due(at) == (at >= now),
        scheduler.last_render is Some ==> scheduler.with_background(now).due(at) == (at >= now && at
            >= scheduler.last_render->0 + scheduler.background_frame_interval),
{
}

/// A collector sleeps no longer than to the end of its wait and is not woken before: until then
/// it has nothing to do, and then its time is over.
pub proof fn lemma_collector_wakes_in_time(
    control: CollectorControl,
    deadline: Deadline,
    now: Nanos,
    later: Nanos,
)
    requires
        now <= later,
        control.next_step(deadline, now) is SleepFor,
    ensures
        ({
            let span = control.next_step(deadline, now)->SleepFor_0;
            &&& span > 0
            &&& later < now + span ==> control.next_step(deadline, later) is SleepFor
            &&& later >= now + span ==> control.next_step(deadline, later) == WaitStep::Wake(
                CollectorWake::Timeout,
            )
        }),
{
}

/// A collector that is neither stopped nor paused serves what was requested of it, before and
/// after the end of its wait; one that is not asked runs to its end.
pub proof fn lemma_requests_are_served(control: CollectorControl, start: Nanos, now: Nanos)
    requires
        !control.stop,
        !control.paused,
        start + control.period <= Nanos::MAX,
    ensures
        control.pending_refresh_generation is Some ==> control.next_step(
            Deadline::PeriodAfter(start),
            now,
        ) == WaitStep::Wake(CollectorWake::Refresh(control.pending_refresh_generation->0)),
        control.pending_refresh_generation is None ==> (control.next_step(
            Deadline::PeriodAfter(start),
            now,
        ) == WaitStep::Wake(CollectorWake::Timeout)) == (now >= start + control.period),
{
}

proof fn lemma_asked_from_there(
    left: Seq<Seq<char>>,
    right: Seq<Seq<char>>,
    at_left: int,
    at_right: int,
    interval: Nanos,
)
    requires
        0 <= at_left <= left.len(),
        0 <= at_right <= right.len(),
        left.skip(at_left) == right.skip(at_right),
    ensures
        cli::asked_for(left, at_left, interval) == cli::asked_for(right, at_right, interval),
    decreases left.len() - at_left,
{
    let behind = left.skip(at_left);
    assert(behind.len() == left.len() - at_left);
    assert(right.skip(at_right).len() == right.len() - at_right);
    if at_left < left.len() {
        assert(left[at_left] == behind[0]);
        assert(right[at_right] == behind[0]);
        assert(left.skip(at_left + 1) =~= left.skip(at_left).skip(1));
        assert(right.skip(at_right + 1) =~= right.skip(at_right).skip(1));
        if at_left + 1 < left.len() {
            assert(left[at_left + 1] == behind[1]);
            assert(right[at_right + 1] == behind[1]);
            assert(left.skip(at_left + 2) =~= left.skip(at_left).skip(2));
            assert(right.skip(at_right + 2) =~= right.skip(at_right).skip(2));
            match cli::named_preset(left[at_left + 1], 0) {
                Some(chosen) => lemma_asked_from_there(
                    left,
                    right,
                    at_left + 2,
                    at_right + 2,
                    chosen,
                ),
                None => {},
            }
        }
        match text::without_prefix(left[at_left], "--interval="@) {
            Some(value) => match cli::named_preset(value, 0) {
                Some(chosen) => lemma_asked_from_there(
                    left,
                    right,
                    at_left + 1,
                    at_right + 1,
                    chosen,
                ),
                None => {},
            },
            None => {},
        }
    }
}

proof fn lemma_presets_are_named(place: int, from: int)
    requires
        0 <= from <= place < 8,
    ensures
        cli::named_preset(SAMPLING_PRESETS[place].0@, from) == Some(SAMPLING_PRESETS[place].1),
    decreases place - from,
{
    reveal_strlit("250ms");
    reveal_strlit("500ms");
    reveal_strlit("1s");
    reveal_strlit("2s");
    reveal_strlit("5s");
    reveal_strlit("10s");
    reveal_strlit("30s");
    reveal_strlit("60s");
    if from < place {
        lemma_presets_are_named(place, from + 1);
        let left = SAMPLING_PRESETS[from].0@;
        let right = SAMPLING_PRESETS[place].0@;
        assert(left != right) by {
            if left == right {
                assert(left.len() == right.len());
                assert(left[0] == right[0]);
            }
        }
    }
}

/// An interval that is asked for by the name of a preset is that of the preset, in either of two
/// spellings, and what follows it is asked for as if nothing came before.
pub proof fn lemma_interval_is_chosen(place: int, rest: Seq<Seq<char>>, interval: Nanos)
    requires
        0 <= place < 8,
    ensures
        ({
            let name = SAMPLING_PRESETS[place].0@;
            let chosen = SAMPLING_PRESETS[place].1;
            &&& cli::asked_for(seq!["--interval"@, name] + rest, 0, interval) == cli::asked_for(
                rest,
                0,
                chosen,
            )
            &&& cli::asked_for(seq!["--interval="@ + name] + rest, 0, interval)
                == cli::asked_for(rest, 0, chosen)
            &&& cli::asked_for(seq!["--interval"@, name], 0, interval) == Ok::<
                Command,
                Seq<char>,
            >(Command::Run { interval: chosen })
        }),
{
    reveal_strlit("-h");
    reveal_strlit("--help");
    reveal_strlit("-V");
    reveal_strlit("--version");
    reveal_strlit("--interval");
    reveal_strlit("--interval=");
    let name = SAMPLING_PRESETS[place].0@;
    let chosen = SAMPLING_PRESETS[place].1;
    lemma_presets_are_named(place, 0);
    let apart = seq!["--interval"@, name] + rest;
    assert(apart[0] == "--interval"@ && apart[1] == name);
    assert("--interval"@[2] == 'i' && "--help"@[2] == 'h' && "--version"@[2] == 'v');
    assert(apart.skip(2) =~= rest.skip(0));
    lemma_asked_from_there(apart, rest, 2, 0, chosen);
    let joined = seq!["--interval="@ + name] + rest;
    let first = "--interval="@ + name;
    assert(joined[0] == first);
    assert(first[2] == 'i');
    assert(first.len() > "--interval"@.len());
    text_laws::lemma_prefix_is_taken_off(first, "--interval="@, name);
    assert(joined.skip(1) =~= rest.skip(0));
    lemma_asked_from_there(joined, rest, 1, 0, chosen);
    let alone = seq!["--interval"@, name];
    assert(alone[0] == "--interval"@ && alone[1] == name);
    assert(cli::asked_for(alone, 2, chosen) == Ok::<Command, Seq<char>>(
        Command::Run { interval: chosen },
    ));
}

/// Without arguments the interval is the one that was chosen before; help and the version are
/// given where they are asked for first, in either of two spellings; and an interval without a
/// value is a complaint.
pub proof fn lemma_plain_arguments(rest: Seq<Seq<char>>, interval: Nanos)
    ensures
        cli::asked_for(Seq::empty(), 0, interval) == Ok::<Command, Seq<char>>(
            Command::Run { interval },
        ),
        cli::asked_for(seq!["--help"@] + rest, 0, interval) == Ok::<Command, Seq<char>>(
            Command::Help,
        ),
        cli::asked_for(seq!["-h"@] + rest, 0, interval) == Ok::<Command, Seq<char>>(Command::Help),
        cli::asked_for(seq!["--version"@] + rest, 0, interval) == Ok::<Command, Seq<char>>(
            Command::Version,
        ),
        cli::asked_for(seq!["-V"@] + rest, 0, interval) == Ok::<Command, Seq<char>>(
            Command::Version,
        ),
        cli::asked_for(seq!["--interval"@], 0, interval) is Err,
{
    reveal_strlit("-h");
    reveal_strlit("--help");
    reveal_strlit("-V");
    reveal_strlit("--version");
    reveal_strlit("--interval");
    assert("--interval"@[2] == 'i' && "--help"@[2] == 'h' && "--version"@[2] == 'v');
    assert("-h"@[1] == 'h' && "-V"@[1] == 'V');
    assert((seq!["--help"@] + rest)[0] == "--help"@);
    assert((seq!["-h"@] + rest)[0] == "-h"@);
    assert((seq!["--version"@] + rest)[0] == "--version"@);
    assert((seq!["-V"@] + rest)[0] == "-V"@);
}

/// A frame is drawn once: what was due is not due again, and after everything was drawn nothing
/// is, until something is requested.
pub proof fn lemma_frames_are_drawn_once(scheduler: RedrawScheduler, now: Nanos, later: Nanos)
    ensures
        scheduler.due(now) ==> !scheduler.asked(now).due(later),
        !scheduler.due(now) ==> scheduler.asked(now) == scheduler,
        !scheduler.drawn(now).due(later),
        scheduler.drawn(now).last_render == Some(now),
        scheduler.asked(now).last_render == scheduler.last_render,
{
}

/// What a collector finds right after everything was drawn is drawn a frame later.
pub proof fn lemma_findings_wait_a_frame(
    scheduler: RedrawScheduler,
    drawn: Nanos,
    now: Nanos,
    at: Nanos,
)
    requires
        drawn <= now < drawn + scheduler.background_frame_interval <= Nanos::MAX,
    ensures
        scheduler.drawn(drawn).with_background(now).due(at) == (at >= drawn
            + scheduler.background_frame_interval),
{
}

/// The collector of services runs exactly while they are seen, and is told only of changes.
pub proof fn lemma_unseen_services_are_paused(paused: bool, visible: bool)
    ensures
        (match scheduler::pause_wanted(paused, visible) {
            Some(change) => change,
            None => paused,
        }) == !visible,
        scheduler::pause_wanted(paused, visible) matches Some(change) ==> change != paused,
{
}

/// A request is served once, and by the latest number that was asked for; a collector that is
/// stopped takes none.
pub proof fn lemma_request_is_served_once(
    control: CollectorControl,
    first: u64,
    second: u64,
    deadline: Deadline,
    now: Nanos,
)
    requires
        !control.stop,
        !control.paused,
        control.pending_refresh_generation is None,
    ensures
        ({
            let asked = control.requested(first).requested(second);
            let step = asked.next_step(deadline, now);
            &&& step == WaitStep::Wake(
                CollectorWake::Refresh(
                    if first >= second {
                        first
                    } else {
                        second
                    },
                ),
            )
            &&& asked.after_step(step) == control
            &&& control.after_step(control.next_step(deadline, now)) == control
        }),
        (CollectorControl { stop: true, ..control }).requested(first) == (CollectorControl {
            stop: true,
            ..control
        }),
{
}

/// A command that runs is looked at again before its deadline at the latest and at least every 25
/// milliseconds, and it is ended once the deadline is there and not before. One that exited is
/// done, also after that.
pub proof fn lemma_commands_end_in_time(now: Nanos, deadline: Nanos)
    ensures
        service_listing::command_step(ChildState::Running, now, deadline) == PollStep::Kill(
            CommandOutcome::TimedOut,
        ) <==> deadline <= now,
        now < deadline ==> (service_listing::command_step(
            ChildState::Running,
            now,
            deadline,
        ) matches PollStep::Wait(span) && 0 < span <= 25_000_000 && now + span <= deadline && (span
            == 25_000_000 || now + span == deadline)),
        service_listing::command_step(ChildState::Exited, now, deadline) == PollStep::Finish,
{
}

/// A sampling interval is shown under the name by which it is asked for.
pub proof fn lemma_intervals_are_shown_by_name(place: int)
    requires
        0 <= place < 8,
    ensures
        health::interval_label(SAMPLING_PRESETS[place].1) == SAMPLING_PRESETS[place].0@,
        cli::named_preset(health::interval_label(SAMPLING_PRESETS[place].1), 0) == Some(
            SAMPLING_PRESETS[place].1,
        ),
{
    reveal_with_fuel(health::preset_place, 9);
    lemma_presets_are_named(place, 0);
}

/// A turn goes on after what changed nothing and after what waits for a frame, for sixteen actions
/// at most; to quit ends it.
pub proof fn lemma_turns_go_on(app: AppState, action: Action, applied: usize)
    requires
        !app.after(action).1 || is_finding(action) || action is HoverMouseTarget,
    ensures
        app.after(action).0.should_quit || applied >= 16 ==> scheduler::step_of(
            app,
            action,
            applied,
        ) == TurnStep::End,
        !app.after(action).0.should_quit && applied < 16 ==> scheduler::step_of(
            app,
            action,
            applied,
        ) == TurnStep::Continue,
{
    reveal(scheduler::step_of);
}

/// What changed is drawn: at once where the user did it, and otherwise with the frame that is
/// asked for. What changed nothing asks for none.
pub proof fn lemma_changes_ask_for_a_frame(
    app: AppState,
    redraws: RedrawScheduler,
    action: Action,
    now: Nanos,
    applied: usize,
)
    ensures
        ({
            let (next, asked) = scheduler::after_action(app, redraws, action, now);
            let changed = app.after(action).1;
            &&& next == app.after(action).0
            &&& !changed ==> asked == redraws
            &&& changed && is_finding(action) ==> asked == redraws.with_background(now)
            &&& changed && action is HoverMouseTarget ==> asked == redraws.with_hover(now)
            &&& changed && !is_finding(action) && action !is HoverMouseTarget
                ==> scheduler::step_of(app, action, applied) == TurnStep::Render
        }),
{
    reveal(scheduler::after_action);
    reveal(scheduler::step_of);
}

/// Actions are applied in their order: those of two rows one after the other.
pub proof fn lemma_actions_are_applied_in_order(
    app: AppState,
    redraws: RedrawScheduler,
    first: Seq<Action>,
    second: Seq<Action>,
    now: Nanos,
)
    ensures
        ({
            let (between, asked) = scheduler::after_actions(app, redraws, first, now);
            scheduler::after_actions(app, redraws, first + second, now)
                == scheduler::after_actions(between, asked, second, now)
        }),
    decreases second.len(),
{
    if second.len() == 0 {
        assert(first + second =~= first);
    } else {
        assert((first + second).drop_last() =~= first + second.drop_last());
        assert((first + second).last() == second.last());
        lemma_actions_are_applied_in_order(app, redraws, first, second.drop_last(), now);
    }
}

} // verus!

//! Applying actions in turns, and when to draw.
use vstd::prelude::*;

use crate::action::Action;
use crate::app::App;
use crate::app::state::AppState;
use crate::linux::control;
use crate::shutdown::Shutdown;
use crate::time::Nanos;

verus! {

/// How often a tick comes.
pub const TICK_RATE: Nanos = 250_000_000;

/// Between two frames that only show where the mouse is.
pub const HOVER_FRAME_INTERVAL: Nanos = 33_000_000;

/// Between two frames that only show what the collectors found.
pub const BACKGROUND_FRAME_INTERVAL: Nanos = 50_000_000;

/// Upper bound on actions applied before the loop draws or waits again.
pub const MAX_ACTIONS_PER_TURN: usize = 16;

/// How soon a change is drawn.
#[derive(Debug, Clone, Copy, PartialEq, Eq, Structural)]
pub enum RedrawPolicy {
    Immediate,
    CoalescedHover,
    FrameLimited,
}

impl RedrawPolicy {
    /// What the user did is drawn at once. Where the mouse is, and what the collectors found,
    /// can wait for the next frame.
    pub open spec fn of(action: Action) -> RedrawPolicy {
        match action {
            Action::HoverMouseTarget(_) => RedrawPolicy::CoalescedHover,
            Action::SystemMetricsUpdated(_)
            | Action::ProcessesUpdated(_)
            | Action::ServicesUpdated(_)
            | Action::NetworkUpdated(_)
            | Action::HardwareDiscovered(_)
            | Action::LogsUpdated(_) => RedrawPolicy::FrameLimited,
            _ => RedrawPolicy::Immediate,
        }
    }

    pub fn for_action(action: &Action) -> (policy: RedrawPolicy)
        ensures
            policy == RedrawPolicy::of(*action),
    {
        match action {
            Action::HoverMouseTarget(_) => RedrawPolicy::CoalescedHover,
            Action::SystemMetricsUpdated(_)
            | Action::ProcessesUpdated(_)
            | Action::ServicesUpdated(_)
            | Action::NetworkUpdated(_)
            | Action::HardwareDiscovered(_)
            | Action::LogsUpdated(_) => RedrawPolicy::FrameLimited,
            _ => RedrawPolicy::Immediate,
        }
    }
}

/// Keeps the next moment to draw.
#[derive(Debug, Clone, PartialEq, Eq, Structural)]
pub struct RedrawScheduler {
    pub hover_frame_interval: Nanos,
    pub background_frame_interval: Nanos,
    pub deadline: Option<Nanos>,
    pub last_render: Option<Nanos>,
}

impl RedrawScheduler {
    pub fn new(hover_frame_interval: Nanos, background_frame_interval: Nanos) -> (scheduler:
        RedrawScheduler)
        ensures
            scheduler == (RedrawScheduler {
                hover_frame_interval,
                background_frame_interval,
                deadline: None,
                last_render: None,
            }),
    {
        RedrawScheduler {
            hover_frame_interval,
            background_frame_interval,
            deadline: None,
            last_render: None,
        }
    }

    pub fn deadline(&self) -> (deadline: Option<Nanos>)
        ensures
            deadline == self.deadline,
    {
        self.deadline
    }

    /// The scheduler with a moment to draw: a later one never puts off an earlier one.
    pub open spec fn scheduled(self, at: Nanos) -> RedrawScheduler {
        RedrawScheduler {
            deadline: Some(
                match self.deadline {
                    Some(deadline) => if deadline < at {
                        deadline
                    } else {
                        at
                    },
                    None => at,
                },
            ),
            ..self
        }
    }

    fn schedule(&mut self, at: Nanos)
        ensures
            *final(self) == old(self).scheduled(at),
    {
        self.deadline = Some(
            match self.deadline {
                Some(deadline) => if deadline < at {
                    deadline
                } else {
                    at
                },
                None => at,
            },
        );
    }

    /// The scheduler once the mouse moved over something else.
    pub open spec fn with_hover(self, now: Nanos) -> RedrawScheduler {
        self.scheduled(control::moment_after(now, self.hover_frame_interval))
    }

    pub fn request_hover(&mut self, now: Nanos)
        ensures
            *final(self) == old(self).with_hover(now),
    {
        let at: Nanos = now.saturating_add(self.hover_frame_interval);
        self.schedule(at);
    }

    /// When what the collectors found is drawn: at once where nothing was drawn lately, and
    /// otherwise one frame after the last.
    pub open spec fn background_moment(self, now: Nanos) -> Nanos {
        match self.last_render {
            Some(rendered) => {
                let earliest = control::moment_after(rendered, self.background_frame_interval);
                if earliest > now {
                    earliest
                } else {
                    now
                }
            },
            None => now,
        }
    }

    /// The scheduler once a collector found something.
    pub open spec fn with_background(self, now: Nanos) -> RedrawScheduler {
        self.scheduled(self.background_moment(now))
    }

    pub fn request_background(&mut self, now: Nanos)
        ensures
            *final(self) == old(self).with_background(now),
    {
        let mut at: Nanos = now;
        match self.last_render {
            Some(rendered) => {
                let earliest: Nanos = rendered.saturating_add(self.background_frame_interval);
                if earliest > now {
                    at = earliest;
                }
            },
            None => {},
        }
        self.schedule(at);
    }

    /// It is time to draw.
    pub open spec fn due(self, now: Nanos) -> bool {
        self.deadline matches Some(deadline) && now >= deadline
    }

    /// The scheduler once it was asked whether it is time to draw: a moment that has come is
    /// forgotten.
    pub open spec fn asked(self, now: Nanos) -> RedrawScheduler {
        if self.due(now) {
            RedrawScheduler { deadline: None, ..self }
        } else {
            self
        }
    }

    /// Tells whether it is time to draw, and if so forgets the moment.
    pub fn take_due(&mut self, now: Nanos) -> (due: bool)
        ensures
            due == old(self).due(now),
            *final(self) == old(self).asked(now),
    {
        match self.deadline {
            Some(deadline) => if now >= deadline {
                self.deadline = None;
                true
            } else {
                false
            },
            None => false,
        }
    }

    /// The scheduler once everything was drawn.
    pub open spec fn drawn(self, now: Nanos) -> RedrawScheduler {
        RedrawScheduler { deadline: None, last_render: Some(now), ..self }
    }

    /// Everything was drawn at `now`: nothing is left to be drawn.
    pub fn rendered(&mut self, now: Nanos)
        ensures
            *final(self) == old(self).drawn(now),
    {
        self.deadline = None;
        self.last_render = Some(now);
    }
}

/// While nothing is requested nothing is drawn, however much time passes.
pub proof fn lemma_idle_draws_nothing(scheduler: RedrawScheduler, now: Nanos)
    requires
        scheduler.deadline is None,
    ensures
        !scheduler.due(now),
{
}

/// A frame that is due is not put off by what is requested meanwhile.
pub proof fn lemma_requests_do_not_put_off(scheduler: RedrawScheduler, deadline: Nanos, now: Nanos)
    requires
        scheduler.deadline == Some(deadline),
    ensures
        scheduler.with_hover(now).deadline matches Some(at) && at <= deadline,
        scheduler.with_background(now).deadline matches Some(at) && at <= deadline,
{
}

/// What the collectors find is drawn at most once for every frame, however often they find
/// something: once everything was drawn, the next frame comes no earlier than that.
pub proof fn lemma_background_is_frame_limited(scheduler: RedrawScheduler, drawn: Nanos, now: Nanos)
    requires
        scheduler.last_render == Some(drawn),
        scheduler.deadline is None,
        drawn + scheduler.background_frame_interval <= Nanos::MAX,
    ensures
        forall|later: Nanos|
            later < drawn + scheduler.background_frame_interval ==> !(
            #[trigger] scheduler.with_background(now).due(later)),
{
}

/// How a turn goes on after an action.
#[derive(Debug, Clone, Copy, PartialEq, Eq, Structural)]
pub enum TurnStep {
    /// The change is drawn at once. Later input has to wait, so that it is understood by what
    /// is seen.
    Render,
    /// The next action that is ready is applied.
    Continue,
    /// The turn is over.
    End,
}

/// The scheduler after an action that changed something or not.
pub open spec fn redraws_after(
    redraws: RedrawScheduler,
    policy: RedrawPolicy,
    changed: bool,
    now: Nanos,
) -> RedrawScheduler {
    if !changed {
        redraws
    } else {
        match policy {
            RedrawPolicy::Immediate => redraws,
            RedrawPolicy::CoalescedHover => redraws.with_hover(now),
            RedrawPolicy::FrameLimited => redraws.with_background(now),
        }
    }
}

/// How a turn goes on after its action number `applied`, which changed something or not.
pub open spec fn turn_after(policy: RedrawPolicy, changed: bool, quit: bool, applied: usize) -> TurnStep {
    if changed && policy == RedrawPolicy::Immediate {
        TurnStep::Render
    } else if quit || applied >= MAX_ACTIONS_PER_TURN {
        TurnStep::End
    } else {
        TurnStep::Continue
    }
}

/// The application and the scheduler after one action.
#[verifier::opaque]
pub open spec fn after_action(
    app: AppState,
    redraws: RedrawScheduler,
    action: Action,
    now: Nanos,
) -> (AppState, RedrawScheduler) {
    let (next, changed) = app.after(action);
    (next, redraws_after(redraws, RedrawPolicy::of(action), changed, now))
}

/// How a turn goes on after its action number `applied`.
#[verifier::opaque]
pub open spec fn step_of(app: AppState, action: Action, applied: usize) -> TurnStep {
    let (next, changed) = app.after(action);
    turn_after(RedrawPolicy::of(action), changed, next.should_quit, applied)
}

/// The application and the scheduler after a number of actions.
pub open spec fn after_actions(
    app: AppState,
    redraws: RedrawScheduler,
    actions: Seq<Action>,
    now: Nanos,
) -> (AppState, RedrawScheduler)
    decreases actions.len(),
{
    if actions.len() == 0 {
        (app, redraws)
    } else {
        let (app, redraws) = after_actions(app, redraws, actions.drop_last(), now);
        after_action(app, redraws, actions.last(), now)
    }
}

/// How a turn goes on after the last of these actions.
pub open spec fn step_after(
    app: AppState,
    redraws: RedrawScheduler,
    actions: Seq<Action>,
    now: Nanos,
) -> TurnStep {
    step_of(
        after_actions(app, redraws, actions.drop_last(), now).0,
        actions.last(),
        actions.len() as usize,
    )
}

/// After these actions the turn went on, and what was ready next was asked for. That left `rest`
/// of the source.
pub open spec fn asked<E, S, F: Fn(S, &App) -> (Result<Option<Action>, E>, S)>(
    app: AppState,
    redraws: RedrawScheduler,
    actions: Seq<Action>,
    now: Nanos,
    next_ready: F,
    seen: App,
    source: S,
    reply: Result<Option<Action>, E>,
    rest: S,
) -> bool {
    &&& step_after(app, redraws, actions, now) == TurnStep::Continue
    &&& seen@ == after_actions(app, redraws, actions, now).0
    &&& next_ready.ensures((source, &seen), (reply, rest))
}

/// A turn that applied these actions and got these replies: each reply but the last is the next
/// action, and each left the source behind that the next came from.
pub open spec fn turn_so_far<E, S, F: Fn(S, &App) -> (Result<Option<Action>, E>, S)>(
    app: AppState,
    redraws: RedrawScheduler,
    first: Option<Action>,
    now: Nanos,
    next_ready: F,
    actions: Seq<Action>,
    seen: Seq<App>,
    sources: Seq<S>,
    replies: Seq<Result<Option<Action>, E>>,
) -> bool {
    &&& seen.len() == replies.len()
    &&& sources.len() == replies.len() + 1
    &&& actions.len() > 0 ==> first == Some(actions[0])
    &&& forall|i: int|
        0 <= i < replies.len() ==> asked(
            app,
            redraws,
            actions.take(i + 1),
            now,
            next_ready,
            seen[i],
            sources[i],
            #[trigger] replies[i],
            sources[i + 1],
        )
    &&& forall|i: int|
        0 < i < actions.len() ==> replies[i - 1] == Ok::<Option<Action>, E>(
            Some(#[trigger] actions[i]),
        )
}

/// A turn that applied these actions has to ask for what is ready next: the last one did not
/// end it.
pub open spec fn turn_goes_on<E, S, F: Fn(S, &App) -> (Result<Option<Action>, E>, S)>(
    app: AppState,
    redraws: RedrawScheduler,
    first: Option<Action>,
    now: Nanos,
    next_ready: F,
    actions: Seq<Action>,
    seen: Seq<App>,
    sources: Seq<S>,
    replies: Seq<Result<Option<Action>, E>>,
) -> bool {
    &&& turn_so_far(app, redraws, first, now, next_ready, actions, seen, sources, replies)
    &&& actions.len() == replies.len() + 1
    &&& step_after(app, redraws, actions, now) == TurnStep::Continue
}

/// How a turn ends: with an action to be drawn at once, with one that ends it, or because
/// nothing more is ready.
pub open spec fn turn_result<E>(
    app: AppState,
    redraws: RedrawScheduler,
    first: Option<Action>,
    now: Nanos,
    actions: Seq<Action>,
    replies: Seq<Result<Option<Action>, E>>,
    result: Result<bool, E>,
) -> bool {
    if actions.len() == 0 {
        first is None && replies.len() == 0 && result == Ok::<bool, E>(false)
    } else {
        match step_after(app, redraws, actions, now) {
            TurnStep::Render => replies.len() == actions.len() - 1 && result == Ok::<bool, E>(true),
            TurnStep::End => replies.len() == actions.len() - 1 && result == Ok::<bool, E>(false),
            TurnStep::Continue => replies.len() == actions.len() && match replies.last() {
                Err(error) => result == Err::<bool, E>(error),
                Ok(next) => next is None && result == Ok::<bool, E>(false),
            },
        }
    }
}

/// Applies one action, number `applied` of its turn, and tells how the turn goes on.
pub fn apply_action(
    app: &mut App,
    redraws: &mut RedrawScheduler,
    action: Action,
    now: Nanos,
    applied: usize,
) -> (step: TurnStep)
    requires
        old(app).wf(),
    ensures
        final(app).wf(),
        (final(app)@, *final(redraws)) == after_action(old(app)@, *old(redraws), action, now),
        step == step_of(old(app)@, action, applied),
{
    proof {
        reveal(after_action);
        reveal(step_of);
    }
    let policy = RedrawPolicy::for_action(&action);
    if app.update(action) {
        match policy {
            RedrawPolicy::Immediate => {
                return TurnStep::Render;
            },
            RedrawPolicy::CoalescedHover => {
                redraws.request_hover(now);
            },
            RedrawPolicy::FrameLimited => {
                redraws.request_background(now);
            },
        }
    }
    if app.should_quit() || applied >= MAX_ACTIONS_PER_TURN {
        TurnStep::End
    } else {
        TurnStep::Continue
    }
}

/// Applies `first` and what is ready after it, until a change has to be drawn at once, enough
/// was applied, or nothing more is ready. Tells whether to draw at once. `next_ready` takes what
/// is ready next out of the source, and gives back the rest of it. It need only be callable where
/// the turn goes on, and the source is handed back as the last call left it, so nothing is taken
/// that is not applied.
pub fn apply_actions<E, S, F>(
    app: &mut App,
    redraws: &mut RedrawScheduler,
    first: Option<Action>,
    now: Nanos,
    source: S,
    next_ready: F,
) -> (turn: (Result<bool, E>, S)) where F: Fn(S, &App) -> (Result<Option<Action>, E>, S)
    requires
        old(app).wf(),
        forall|
            reached: App,
            actions: Seq<Action>,
            seen: Seq<App>,
            sources: Seq<S>,
            replies: Seq<Result<Option<Action>, E>>,
        |
            (#[trigger] reached.wf()) && #[trigger] turn_goes_on(
                old(app)@,
                *old(redraws),
                first,
                now,
                next_ready,
                actions,
                seen,
                sources,
                replies,
            ) && sources[0] == source && reached@ == after_actions(
                old(app)@,
                *old(redraws),
                actions,
                now,
            ).0 ==> next_ready.requires((sources.last(), &reached)),
    ensures
        final(app).wf(),
        exists|
            actions: Seq<Action>,
            seen: Seq<App>,
            sources: Seq<S>,
            replies: Seq<Result<Option<Action>, E>>,
        | #[trigger]
            turn_so_far(
                old(app)@,
                *old(redraws),
                first,
                now,
                next_ready,
                actions,
                seen,
                sources,
                replies,
            ) && sources[0] == source && sources.last() == turn.1 && actions.len()
                <= MAX_ACTIONS_PER_TURN && turn_result(
                old(app)@,
                *old(redraws),
                first,
                now,
                actions,
                replies,
                turn.0,
            ) && (final(app)@, *final(redraws)) == after_actions(
                old(app)@,
                *old(redraws),
                actions,
                now,
            ),
{
    let ghost start = app@;
    let ghost calm = *redraws;
    let mut next = first;
    let mut rest = source;
    let mut applied: usize = 0;
    let ghost mut actions: Seq<Action> = Seq::empty();
    let ghost mut seen: Seq<App> = Seq::empty();
    let ghost mut sources: Seq<S> = seq![source];
    let ghost mut replies: Seq<Result<Option<Action>, E>> = Seq::empty();
    loop
        invariant
            start == old(app)@,
            calm == *old(redraws),
            app.wf(),
            applied == actions.len() == replies.len(),
            applied < MAX_ACTIONS_PER_TURN,
            (app@, *redraws) == after_actions(start, calm, actions, now),
            turn_so_far(start, calm, first, now, next_ready, actions, seen, sources, replies),
            sources[0] == source,
            sources.last() == rest,
            actions.len() == 0 ==> next == first,
            actions.len() > 0 ==> replies.last() == Ok::<Option<Action>, E>(next),
            forall|
                reached: App,
                actions: Seq<Action>,
                seen: Seq<App>,
                sources: Seq<S>,
                replies: Seq<Result<Option<Action>, E>>,
            |
                (#[trigger] reached.wf()) && #[trigger] turn_goes_on(
                    start,
                    calm,
                    first,
                    now,
                    next_ready,
                    actions,
                    seen,
                    sources,
                    replies,
                ) && sources[0] == source && reached@ == after_actions(start, calm, actions, now).0
                    ==> next_ready.requires((sources.last(), &reached)),
        decreases MAX_ACTIONS_PER_TURN - applied,
    {
        let action = match next {
            Some(action) => action,
            None => {
                proof {
                    if actions.len() > 0 {
                        let last = replies.len() - 1;
                        assert(asked(
                            start,
                            calm,
                            actions.take(last + 1),
                            now,
                            next_ready,
                            seen[last],
                            sources[last],
                            replies[last],
                            sources[last + 1],
                        ));
                        assert(actions.take(last + 1) =~= actions);
                    }
                }
                return (Ok(false), rest);
            },
        };
        applied = applied + 1;
        let ghost earlier = actions;
        proof {
            actions = actions.push(action);
            assert(actions.drop_last() =~= earlier);
            assert forall|i: int| 0 <= i < replies.len() implies asked(
                start,
                calm,
                actions.take(i + 1),
                now,
                next_ready,
                seen[i],
                sources[i],
                #[trigger] replies[i],
                sources[i + 1],
            ) by {
                assert(actions.take(i + 1) =~= earlier.take(i + 1));
            }
            assert forall|i: int| 0 < i < actions.len() implies replies[i - 1] == Ok::<
                Option<Action>,
                E,
            >(Some(#[trigger] actions[i])) by {
                if i < earlier.len() {
                    assert(actions[i] == earlier[i]);
                }
            }
            assert(turn_so_far(start, calm, first, now, next_ready, actions, seen, sources, replies));
        }
        match apply_action(app, redraws, action, now, applied) {
            TurnStep::Render => {
                return (Ok(true), rest);
            },
            TurnStep::End => {
                return (Ok(false), rest);
            },
            TurnStep::Continue => {},
        }
        proof {
            lemma_turn_goes_on(start, calm, actions, now);
            assert(turn_goes_on(start, calm, first, now, next_ready, actions, seen, sources, replies));
        }
        let (reply, left) = next_ready(rest, app);
        rest = left;
        let ghost shorter = replies;
        let ghost fewer = seen;
        let ghost handed = sources;
        proof {
            replies = replies.push(reply);
            seen = seen.push(*app);
            sources = sources.push(rest);
            assert forall|i: int| 0 <= i < replies.len() implies asked(
                start,
                calm,
                actions.take(i + 1),
                now,
                next_ready,
                seen[i],
                sources[i],
                #[trigger] replies[i],
                sources[i + 1],
            ) by {
                if i < shorter.len() {
                    assert(replies[i] == shorter[i]);
                    assert(seen[i] == fewer[i]);
                    assert(sources[i] == handed[i]);
                    assert(sources[i + 1] == handed[i + 1]);
                } else {
                    assert(actions.take(i + 1) =~= actions);
                }
            }
            assert(turn_so_far(start, calm, first, now, next_ready, actions, seen, sources, replies));
        }
        match reply {
            Ok(ready) => {
                next = ready;
            },
            Err(error) => {
                return (Err(error), rest);
            },
        }
    }
}

proof fn lemma_turn_goes_on(
    app: AppState,
    redraws: RedrawScheduler,
    actions: Seq<Action>,
    now: Nanos,
)
    requires
        0 < actions.len() <= MAX_ACTIONS_PER_TURN,
        step_after(app, redraws, actions, now) == TurnStep::Continue,
    ensures
        actions.len() < MAX_ACTIONS_PER_TURN,
{
    reveal(step_of);
}

/// What the user did and what changed something by it is drawn at once, and nothing more is
/// applied before.
pub proof fn lemma_input_is_drawn_at_once(app: AppState, action: Action, applied: usize)
    requires
        RedrawPolicy::of(action) == RedrawPolicy::Immediate,
        app.after(action).1,
    ensures
        step_of(app, action, applied) == TurnStep::Render,
{
    reveal(step_of);
}

/// However many actions are ready, a turn comes to an end.
pub proof fn lemma_turns_end(app: AppState, action: Action)
    ensures
        step_of(app, action, MAX_ACTIONS_PER_TURN) != TurnStep::Continue,
{
    reveal(step_of);
}

/// To quit ends a turn, with nothing to be drawn.
pub proof fn lemma_quit_ends_a_turn(app: AppState, applied: usize)
    ensures
        step_of(app, Action::Quit, applied) == TurnStep::End,
        app.after(Action::Quit).0.should_quit,
{
    reveal(step_of);
}

/// The next action that is ready. What came from the terminal goes first, then what the
/// collectors found, and the journal, which may never pause, goes last. Each source need only be
/// callable where all before it had nothing, so those behind the first that is ready are left
/// alone.
pub fn poll_ready_action<E, T, M, P, S, N, H, J>(
    terminal: T,
    metrics: M,
    processes: P,
    services: S,
    network: N,
    hardware: H,
    journal: J,
) -> (ready: Result<Option<Action>, E>) where
    T: FnOnce() -> Result<Option<Action>, E>,
    M: FnOnce() -> Option<Action>,
    P: FnOnce() -> Option<Action>,
    S: FnOnce() -> Option<Action>,
    N: FnOnce() -> Option<Action>,
    H: FnOnce() -> Option<Action>,
    J: FnOnce() -> Option<Action>,

    requires
        terminal.requires(()),
        terminal.ensures((), Ok::<Option<Action>, E>(None)) ==> {
            &&& metrics.requires(())
            &&& metrics.ensures((), None) ==> {
                &&& processes.requires(())
                &&& processes.ensures((), None) ==> {
                    &&& services.requires(())
                    &&& services.ensures((), None) ==> {
                        &&& network.requires(())
                        &&& network.ensures((), None) ==> {
                            &&& hardware.requires(())
                            &&& hardware.ensures((), None) ==> journal.requires(())
                        }
                    }
                }
            }
        },
    ensures
        exists|input: Result<Option<Action>, E>| #[trigger]
            terminal.ensures((), input) && match input {
                Err(error) => ready == Err::<Option<Action>, E>(error),
                Ok(Some(action)) => ready == Ok::<Option<Action>, E>(Some(action)),
                Ok(None) => ready matches Ok(found) && exists|offers: Seq<Option<Action>>|
                    {
                        &&& #[trigger] first_offer(offers) == found
                        &&& 0 < offers.len() <= 6
                        &&& offers.len() < 6 ==> found is Some
                        &&& metrics.ensures((), offers[0])
                        &&& offers.len() > 1 ==> processes.ensures((), offers[1])
                        &&& offers.len() > 2 ==> services.ensures((), offers[2])
                        &&& offers.len() > 3 ==> network.ensures((), offers[3])
                        &&& offers.len() > 4 ==> hardware.ensures((), offers[4])
                        &&& offers.len() > 5 ==> journal.ensures((), offers[5])
                    },
            },
{
    let input = terminal();
    match input {
        Err(error) => {
            return Err(error);
        },
        Ok(Some(action)) => {
            return Ok(Some(action));
        },
        Ok(None) => {},
    }
    let first = metrics();
    let ghost offers = seq![first];
    if first.is_some() {
        proof {
            lemma_last_offer(offers, first);
        }
        return Ok(first);
    }
    let second = processes();
    let ghost offers = seq![first, second];
    if second.is_some() {
        proof {
            lemma_last_offer(offers, second);
        }
        return Ok(second);
    }
    let third = services();
    let ghost offers = seq![first, second, third];
    if third.is_some() {
        proof {
            lemma_last_offer(offers, third);
        }
        return Ok(third);
    }
    let fourth = network();
    let ghost offers = seq![first, second, third, fourth];
    if fourth.is_some() {
        proof {
            lemma_last_offer(offers, fourth);
        }
        return Ok(fourth);
    }
    let fifth = hardware();
    let ghost offers = seq![first, second, third, fourth, fifth];
    if fifth.is_some() {
        proof {
            lemma_last_offer(offers, fifth);
        }
        return Ok(fifth);
    }
    let sixth = journal();
    let ghost offers = seq![first, second, third, fourth, fifth, sixth];
    proof {
        lemma_last_offer(offers, sixth);
    }
    Ok(sixth)
}

/// The first action that is offered.
pub open spec fn first_offer(offers: Seq<Option<Action>>) -> Option<Action>
    decreases offers.len(),
{
    if offers.len() == 0 {
        None
    } else if first_offer(offers.drop_last()) is Some {
        first_offer(offers.drop_last())
    } else {
        offers.last()
    }
}

proof fn lemma_last_offer(offers: Seq<Option<Action>>, last: Option<Action>)
    requires
        offers.len() > 0,
        offers.last() == last,
        forall|i: int| 0 <= i < offers.len() - 1 ==> (#[trigger] offers[i]) is None,
    ensures
        first_offer(offers) == last,
{
    lemma_no_offer(offers.drop_last());
}

proof fn lemma_no_offer(offers: Seq<Option<Action>>)
    requires
        forall|i: int| 0 <= i < offers.len() ==> (#[trigger] offers[i]) is None,
    ensures
        first_offer(offers) is None,
    decreases offers.len(),
{
    if offers.len() > 0 {
        assert(offers[offers.len() - 1] is None);
        lemma_no_offer(offers.drop_last());
    }
}

/// What the terminal sent, unless a signal asks to end: that goes first, and the terminal is
/// then left alone.
pub fn input_action<E, T>(shutdown: &Shutdown, terminal: T) -> (ready: Result<Option<Action>, E>) where
    T: FnOnce() -> Result<Option<Action>, E>,

    requires
        shutdown.reported() is None ==> terminal.requires(()),
    ensures
        shutdown.reported() is Some ==> ready == Ok::<Option<Action>, E>(Some(Action::Quit)),
        shutdown.reported() is None ==> terminal.ensures((), ready),
{
    match shutdown.requested() {
        Some(_) => Ok(Some(Action::Quit)),
        None => terminal(),
    }
}

/// How the pause of a collector has to change, where its data is seen or not.
pub open spec fn pause_wanted(paused: bool, visible: bool) -> Option<bool> {
    if paused == visible {
        Some(!visible)
    } else {
        None
    }
}

/// Whether the collector of services has to be paused or let go on, by whether they are seen.
pub fn service_pause_change(paused: bool, visible: bool) -> (change: Option<bool>)
    ensures
        change == pause_wanted(paused, visible),
{
    if paused == visible {
        Some(!paused)
    } else {
        None
    }
}

/// Ends the application: the terminal is given back before the workers are waited for, however
/// the loop ended.
pub fn finish_application<T, W, R>(terminal: T, workers: W, result: R) -> (returned: R)
    ensures
        returned == result,
{
    {
        let _terminal = terminal;
    }
    {
        let _workers = workers;
    }
    result
}

} // verus!

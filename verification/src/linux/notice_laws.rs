//! What moments, signals and commands look like to the user, digit by digit and case by case.
use vstd::prelude::*;

use crate::linux::localtime;
use crate::linux::localtime::{BrokenDownTime, LocalTime};
use crate::linux::process::{ProcessIdentity, ProcessSignal, ProcessSignalError};
use crate::linux::signal;
use crate::linux::signal::{OsError, StatError};
use crate::linux::stat;
use crate::numerals;

verus! {

broadcast use vstd::string::group_string_axioms;

/// The character of a digit.
pub open spec fn figure(digit: int) -> char {
    if digit == 0 {
        '0'
    } else if digit == 1 {
        '1'
    } else if digit == 2 {
        '2'
    } else if digit == 3 {
        '3'
    } else if digit == 4 {
        '4'
    } else if digit == 5 {
        '5'
    } else if digit == 6 {
        '6'
    } else if digit == 7 {
        '7'
    } else if digit == 8 {
        '8'
    } else {
        '9'
    }
}

/// A number below a hundred in two digits.
pub open spec fn two_figures(number: int) -> Seq<char> {
    seq![figure(number / 10), figure(number % 10)]
}

proof fn lemma_figures(digit: nat)
    requires
        digit < 10,
    ensures
        numerals::digit_char(digit) == figure(digit as int),
{
}

proof fn lemma_two_figures(number: nat)
    requires
        number < 100,
    ensures
        localtime::padded(number, 2) == two_figures(number as int),
{
    reveal_with_fuel(numerals::decimal, 3);
    lemma_figures(number / 10);
    lemma_figures(number % 10);
    if number < 10 {
        assert(localtime::padded(number, 2) =~= two_figures(number as int));
    } else {
        assert(numerals::decimal(number) =~= two_figures(number as int));
        assert(localtime::padded(number, 2) =~= two_figures(number as int));
    }
}

proof fn lemma_four_figures(number: nat)
    requires
        number < 10000,
    ensures
        localtime::padded(number, 4) == two_figures(number as int / 100) + two_figures(
            number as int % 100,
        ),
{
    reveal_with_fuel(numerals::decimal, 5);
    let wanted = two_figures(number as int / 100) + two_figures(number as int % 100);
    lemma_figures(number % 10);
    lemma_figures(number / 10 % 10);
    lemma_figures(number / 100 % 10);
    lemma_figures(number / 1000);
    assert(number / 10 / 10 == number / 100);
    assert(number / 100 / 10 == number / 1000);
    assert(number % 100 / 10 == number / 10 % 10);
    assert(number % 100 % 10 == number % 10);
    if number < 10 {
        assert(localtime::padded(number, 4) =~= wanted);
    } else if number < 100 {
        assert(localtime::padded(number, 4) =~= wanted);
    } else if number < 1000 {
        assert(localtime::padded(number, 4) =~= wanted);
    } else {
        assert(localtime::padded(number, 4) =~= wanted);
    }
}

/// A time of day reads hours, minutes and seconds in two digits each, in this order.
pub proof fn lemma_clock_reads_the_time(time: LocalTime)
    requires
        time.hour < 24,
        time.minute < 60,
        time.second <= 60,
    ensures
        time.clock_text() == two_figures(time.hour as int) + seq![':'] + two_figures(
            time.minute as int,
        ) + seq![':'] + two_figures(time.second as int),
{
    reveal_strlit(":");
    lemma_two_figures(time.hour as nat);
    lemma_two_figures(time.minute as nat);
    lemma_two_figures(time.second as nat);
    assert(":"@ =~= seq![':']);
}

/// A moment reads its year, month and day, its time of day, and how many hours and minutes it is
/// ahead of UTC or behind it.
pub proof fn lemma_moment_reads_date_and_time(time: LocalTime)
    requires
        0 <= time.year < 10000,
        1 <= time.month <= 12,
        1 <= time.day <= 31,
        time.hour < 24,
        time.minute < 60,
        time.second <= 60,
        -86400 < time.utc_offset_seconds < 86400,
    ensures
        ({
            let ahead = time.utc_offset_seconds >= 0;
            let away = if ahead {
                time.utc_offset_seconds as int
            } else {
                -time.utc_offset_seconds
            };
            time.full_text() == two_figures(time.year as int / 100) + two_figures(
                time.year as int % 100,
            ) + seq!['-'] + two_figures(time.month as int) + seq!['-'] + two_figures(
                time.day as int,
            ) + seq![' '] + (two_figures(time.hour as int) + seq![':'] + two_figures(
                time.minute as int,
            ) + seq![':'] + two_figures(time.second as int)) + seq![' '] + (if ahead {
                seq!['+']
            } else {
                seq!['-']
            }) + two_figures(away / 3600) + two_figures(away % 3600 / 60)
        }),
{
    reveal_strlit("-");
    reveal_strlit("+");
    reveal_strlit(" ");
    lemma_clock_reads_the_time(time);
    lemma_four_figures(time.year as nat);
    lemma_two_figures(time.month as nat);
    lemma_two_figures(time.day as nat);
    let away = localtime::distance(time.utc_offset_seconds) as int;
    assert(away / 60 / 60 == away / 3600);
    assert(away / 60 % 60 == away % 3600 / 60);
    lemma_two_figures((away / 3600) as nat);
    lemma_two_figures((away % 3600 / 60) as nat);
    assert("-"@ =~= seq!['-']);
    assert("+"@ =~= seq!['+']);
    assert(" "@ =~= seq![' ']);
}

/// A moment as the C library counts it has its years from 1900 on and its months from zero on;
/// all else is taken over as it is.
pub proof fn lemma_moment_is_taken_over(time: BrokenDownTime)
    requires
        -1900 <= time.years_since_1900 < 8100,
        0 <= time.month <= 11,
        1 <= time.day <= 31,
        0 <= time.hour < 24,
        0 <= time.minute < 60,
        0 <= time.second <= 60,
        -86400 < time.utc_offset_seconds < 86400,
    ensures
        LocalTime::of(time) is Some,
        ({
            let taken = LocalTime::of(time)->0;
            &&& taken.year == time.years_since_1900 + 1900
            &&& taken.month == time.month + 1
            &&& taken.day == time.day
            &&& taken.hour == time.hour
            &&& taken.minute == time.minute
            &&& taken.second == time.second
            &&& taken.utc_offset_seconds == time.utc_offset_seconds
        }),
{
}

/// A process is signalled only if it is the one that was chosen: its PID leads to a status, and
/// the status shows the start time of the chosen one.
pub proof fn lemma_only_the_chosen_process_is_signalled(
    identity: ProcessIdentity,
    contents: String,
    page_size: u64,
)
    requires
        stat::described(contents@, page_size) is Some,
    ensures
        signal::checked(identity, Ok(contents)) is Ok == (stat::described(
            contents@,
            page_size,
        )->0.start_time == identity.start_time),
        signal::checked(identity, Ok(contents)) is Err ==> signal::checked(identity, Ok(contents))
            == Err::<(), ProcessSignalError>(ProcessSignalError::StaleIdentity),
{
    stat::lemma_start_time_agrees(contents@, page_size);
}

/// A process without a status is gone; where its status cannot be read for another reason, that
/// is what is told.
pub proof fn lemma_process_without_status_is_gone(identity: ProcessIdentity, error: StatError)
    ensures
        error.not_found ==> signal::checked(identity, Err(error)) == Err::<(), ProcessSignalError>(
            ProcessSignalError::ProcessNotFound,
        ),
        !error.not_found ==> signal::checked(identity, Err(error)) == Err::<
            (),
            ProcessSignalError,
        >(ProcessSignalError::Failed(error.message)),
{
}

/// The errors of the system that have a meaning for signals are told apart, and any other is told
/// in the words of the system.
pub proof fn lemma_errors_are_told_apart(error: OsError, unsupported: i32)
    requires
        signal::unsupported_code(unsupported),
    ensures
        ({
            let meaning = signal::error_meaning(error, unsupported);
            &&& meaning is ProcessNotFound == (error.code == Some(3i32))
            &&& meaning is PermissionDenied == (error.code == Some(1i32) || error.code == Some(
                13i32,
            ))
            &&& meaning is Unsupported == (error.code == Some(unsupported))
            &&& meaning !is StaleIdentity
            &&& meaning is Failed ==> meaning->Failed_0 == error.message
        }),
{
}

/// The two signals have the numbers that the system knows them by.
pub proof fn lemma_signals_have_their_numbers()
    ensures
        ProcessSignal::Term.number() == 15,
        ProcessSignal::Kill.number() == 9,
        ProcessSignal::Term.name_text() == "SIGTERM"@,
        ProcessSignal::Kill.name_text() == "SIGKILL"@,
{
}

/// No signal goes to PID zero, which stands for a whole group of processes, nor to one that no
/// process can have.
pub proof fn lemma_groups_are_not_signalled(pid: u32)
    ensures
        !signal::signalable(0),
        signal::signalable(pid) == (pid != 0 && pid < 0x8000_0000),
{
}

/// A process is shown with the command that its arguments spell; one that has none with its
/// executable, where that is known.
pub proof fn lemma_arguments_go_before_the_executable(
    arguments: Option<Seq<u8>>,
    executable: Option<Seq<char>>,
)
    ensures
        arguments is Some && stat::command_of(arguments->0) is Some ==> stat::chosen_command(
            arguments,
            executable,
        ) == stat::command_of(arguments->0),
        arguments is None || arguments->0.len() == 0 ==> stat::chosen_command(
            arguments,
            executable,
        ) == executable,
{
    if arguments is Some && arguments->0.len() == 0 {
        assert(stat::arguments_from(arguments->0, 0).len() == 0);
        assert(stat::decoded(stat::arguments_from(arguments->0, 0)).len() == 0);
    }
}

/// The words for the state of a process begin with its letter; the letters of one state in two
/// kinds of kernels mean the same, and one that is not known is not taken for another.
pub proof fn lemma_states_have_their_letters(state: char)
    ensures
        ({
            let shown = stat::state_text(state);
            &&& shown.len() > 3
            &&& state == 'R' || state == 'S' || state == 'D' || state == 'Z' || state == 'T'
                || state == 'I' || state == 'X' ==> shown[0] == state
            &&& state == 't' ==> shown == stat::state_text('T')
            &&& state == 'x' ==> shown == stat::state_text('X')
            &&& shown[0] == state || state == 't' || state == 'x' || shown[0] == '?'
        }),
{
    reveal_strlit("R (running)");
    reveal_strlit("S (sleeping)");
    reveal_strlit("D (disk sleep)");
    reveal_strlit("Z (zombie)");
    reveal_strlit("T (stopped)");
    reveal_strlit("I (idle)");
    reveal_strlit("X (dead)");
    reveal_strlit("? (unknown)");
}

} // verus!

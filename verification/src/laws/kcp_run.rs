//! Laws of the run of a stream's engine.
use crate::buffer::contents;
use crate::clock::{elapsed, millis_of};
use crate::error::{ErrorKind, PunchError};
use crate::kcp_stream::{
    all_event, Event, KcpOutput, KcpRun, RunEnd, RunStep, SendOutcome, WaitFor, Wake, FAST_RESEND,
    FLUSH_MILLIS, QUEUE_LEN, RECEIVE_LEN, TICK_MILLIS, WINDOW,
};
use bytes::BytesMut;
use std::time::SystemTime;
use vstd::prelude::*;

verus! {

/// The engine is brought to the low 32 bits of the milliseconds from the epoch to what a clock
/// showed, or to zero where that stood before the epoch.
pub open spec fn updates_at(clock: SystemTime, step: RunStep) -> bool {
    match elapsed(clock) {
        Some(duration) => step matches RunStep::Update(time) && (millis_of(duration) - time)
            % 0x1_0000_0000 == 0,
        None => step == RunStep::Update(0),
    }
}

/// A tick brings the engine to the time in milliseconds, unless the rest of a packet goes first.
pub proof fn lemma_tick_updates_the_engine(run: &mut KcpRun, step: RunStep)
    requires
        old(run).leftover() is None,
        call_ensures(KcpRun::woken, (run, Wake::Tick), step),
    ensures
        exists|clock: SystemTime| #[trigger] updates_at(clock, step),
        final(run).leftover() is None,
        final(run).postponed() is None,
{
    let clock = choose|clock: SystemTime|
        match #[trigger] elapsed(clock) {
            Some(duration) => step matches RunStep::Update(time) && time == millis_of(duration)
                % 0x1_0000_0000,
            None => step == RunStep::Update(0),
        };
    assert(updates_at(clock, step));
}

/// Between two ticks the time of the engine goes up by the milliseconds between what the clock
/// showed, modulo what fits.
pub proof fn lemma_ticks_count_milliseconds(
    run: &mut KcpRun,
    first: RunStep,
    later_run: &mut KcpRun,
    second: RunStep,
)
    requires
        old(run).leftover() is None,
        old(later_run).leftover() is None,
        call_ensures(KcpRun::woken, (run, Wake::Tick), first),
        call_ensures(KcpRun::woken, (later_run, Wake::Tick), second),
    ensures
        first is Update,
        second is Update,
        exists|clock: SystemTime, later: SystemTime|
            #![trigger updates_at(clock, first), updates_at(later, second)]
            updates_at(clock, first) && updates_at(later, second) && (elapsed(clock) is Some
                && elapsed(later) is Some ==> ((second->Update_0 - first->Update_0) - (millis_of(
                elapsed(later)->0,
            ) - millis_of(elapsed(clock)->0))) % 0x1_0000_0000 == 0),
{
    lemma_tick_updates_the_engine(run, first);
    lemma_tick_updates_the_engine(later_run, second);
    let clock = choose|clock: SystemTime| #[trigger] updates_at(clock, first);
    let later = choose|later: SystemTime| #[trigger] updates_at(later, second);
    assert(updates_at(clock, first) && updates_at(later, second));
}

/// What came in is dealt with as it is: a packet is fed to the engine, data is handed to it, and the
/// end of either side ends the run. Without the rest of a packet nothing goes before it.
pub proof fn lemma_wake_is_dealt_with(run: &mut KcpRun, wake: Wake, step: RunStep)
    requires
        old(run).leftover() is None,
        old(run).postponed() is None,
        call_ensures(KcpRun::woken, (run, wake), step),
    ensures
        wake matches Wake::Input(Some(packet)) ==> step == RunStep::Feed(packet),
        wake matches Wake::Output(Some(data)) ==> step == RunStep::Send(data),
        wake == Wake::Input(None) ==> step == RunStep::Stop(
            RunEnd::Failed(PunchError::InputClosed),
        ),
        wake == Wake::Output(None) ==> step == RunStep::Stop(
            RunEnd::Failed(PunchError::OutputClosed),
        ),
        step is Update ==> wake == Wake::Tick,
        final(run).leftover() is None,
        final(run).postponed() is None,
{
}

/// The rest of a packet is fed first, and then what came in is dealt with as it would have been
/// without it. What the engine leaves of the rest is the end of it.
pub proof fn lemma_rest_goes_first(
    run: &mut KcpRun,
    wake: Wake,
    first: RunStep,
    run_again: &mut KcpRun,
    rest: BytesMut,
    taken: usize,
    second: RunStep,
)
    requires
        old(run).leftover() == Some(rest),
        *old(run_again) == *final(run),
        call_ensures(KcpRun::woken, (run, wake), first),
        call_ensures(KcpRun::fed, (run_again, rest, Some(taken)), second),
    ensures
        wake == Wake::Input(None) ==> first == RunStep::Stop(
            RunEnd::Failed(PunchError::InputClosed),
        ),
        wake == Wake::Output(None) ==> first == RunStep::Stop(
            RunEnd::Failed(PunchError::OutputClosed),
        ),
        wake matches Wake::Input(Some(packet)) ==> first == RunStep::Feed(rest) && second
            == RunStep::Feed(packet),
        wake matches Wake::Output(Some(data)) ==> first == RunStep::Feed(rest) && second
            == RunStep::Send(data),
        wake == Wake::Tick ==> first == RunStep::Feed(rest) && exists|clock: SystemTime| #[trigger]
            updates_at(clock, second),
        wake != Wake::Input(None) && wake != Wake::Output(None) ==> {
            &&& final(run_again).postponed() is None
            &&& final(run_again).leftover() is Some <==> taken < contents(rest).len()
        },
{
    if wake == Wake::Tick {
        assert(old(run_again).postponed() == Some(Event::Timeout));
        let clock = choose|clock: SystemTime|
            match #[trigger] elapsed(clock) {
                Some(duration) => second matches RunStep::Update(time) && time == millis_of(
                    duration,
                ) % 0x1_0000_0000,
                None => second == RunStep::Update(0),
            };
        assert(updates_at(clock, second));
    }
}

/// What the engine took of a packet and what is kept of it make up the packet. Where it took all,
/// nothing is kept of it. Without an event that was put off, the engine is asked for data.
pub proof fn lemma_fed_packet_is_whole(
    run: &mut KcpRun,
    packet: BytesMut,
    taken: usize,
    step: RunStep,
)
    requires
        call_ensures(KcpRun::fed, (run, packet, Some(taken)), step),
    ensures
        taken < contents(packet).len() ==> {
            &&& final(run).leftover() matches Some(rest)
            &&& contents(rest).len() == contents(packet).len() - taken
            &&& forall|i: int|
                0 <= i < contents(rest).len() ==> #[trigger] contents(rest)[i] == contents(
                    packet,
                )[taken + i]
        },
        taken >= contents(packet).len() ==> final(run).leftover() == old(run).leftover(),
        final(run).postponed() is None,
        old(run).postponed() is None ==> step == RunStep::Receive,
{
}

/// An engine that fails ends the run, whatever it was at.
pub proof fn lemma_failed_engine_ends_the_run(
    run: &mut KcpRun,
    packet: BytesMut,
    fed: RunStep,
    worked: RunStep,
)
    requires
        call_ensures(KcpRun::fed, (run, packet, None::<usize>), fed),
        call_ensures(KcpRun::worked, (&*old(run), false), worked),
    ensures
        fed == RunStep::Stop(RunEnd::EngineFailed),
        worked == RunStep::Stop(RunEnd::EngineFailed),
        *final(run) == *old(run),
{
}

/// After its work the engine is asked for data. All that it wrote goes to the user, and the engine
/// waits when it wrote nothing, or once the user has taken the data. The run is finished when the
/// user reads no more.
pub proof fn lemma_data_goes_to_the_user(
    run: &KcpRun,
    worked: RunStep,
    buf: &[u8],
    len: usize,
    forward: RunStep,
    nothing: RunStep,
    taken: RunStep,
    refused: RunStep,
)
    requires
        len <= buf@.len(),
        call_ensures(KcpRun::worked, (run, true), worked),
        call_ensures(KcpRun::received, (run, buf, Some(len)), forward),
        call_ensures(KcpRun::received, (run, buf, None::<usize>), nothing),
        call_ensures(KcpRun::forwarded, (run, true), taken),
        call_ensures(KcpRun::forwarded, (run, false), refused),
    ensures
        worked == RunStep::Receive,
        forward matches RunStep::Forward(data) && contents(data).len() == len && forall|i: int|
            0 <= i < len ==> #[trigger] contents(data)[i] == buf@[i],
        nothing == RunStep::Wait,
        taken == RunStep::Wait,
        refused == RunStep::Stop(RunEnd::Finished),
{
}

/// A new run has nothing left from before: it waits for both sides while there is room in the
/// window.
pub proof fn lemma_new_run_waits_for_both_sides(
    run: KcpRun,
    wait_snd: usize,
    snd_wnd: u16,
    wait: WaitFor,
)
    requires
        call_ensures(KcpRun::new, (), run),
        call_ensures(KcpRun::wait_for, (&run, wait_snd, snd_wnd), wait),
    ensures
        wait == WaitFor::All <==> wait_snd < snd_wnd,
        wait == WaitFor::Input <==> wait_snd >= snd_wnd,
        run.leftover() is None,
        run.postponed() is None,
{
}

/// Data is waited for exactly while there is room in the window. Where there is, a packet is waited
/// for exactly if nothing is left of one before it. Where there is none, a packet is always waited
/// for.
pub proof fn lemma_wait_keeps_to_the_window(
    run: &KcpRun,
    wait_snd: usize,
    snd_wnd: u16,
    wait: WaitFor,
)
    requires
        call_ensures(KcpRun::wait_for, (run, wait_snd, snd_wnd), wait),
    ensures
        wait == WaitFor::Output || wait == WaitFor::All <==> wait_snd < snd_wnd,
        wait == WaitFor::Input || wait == WaitFor::All <==> wait_snd >= snd_wnd || run.leftover()
            is None,
{
}

/// What ended a wait is what the engine deals with, unless it was the end of one side.
pub proof fn lemma_event_is_what_came(wake: Wake, event: Result<Event, PunchError>)
    requires
        call_ensures(all_event, (wake,), event),
    ensures
        wake matches Wake::Input(Some(packet)) ==> event == Ok::<Event, PunchError>(
            Event::Input(packet),
        ),
        wake matches Wake::Output(Some(data)) ==> event == Ok::<Event, PunchError>(
            Event::Output(data),
        ),
        wake == Wake::Tick <==> event == Ok::<Event, PunchError>(Event::Timeout),
        wake == Wake::Input(None) <==> event == Err::<Event, PunchError>(PunchError::InputClosed),
        wake == Wake::Output(None) <==> event == Err::<Event, PunchError>(
            PunchError::OutputClosed,
        ),
{
}

/// A run ends with an error unless the user has stopped reading: that of the side that has come to
/// its end, or an error of its own kind where the engine has failed.
pub proof fn lemma_end_has_its_kind(
    error: PunchError,
    kind: ErrorKind,
    failed: Option<ErrorKind>,
    engine_failed: Option<ErrorKind>,
    finished: Option<ErrorKind>,
)
    requires
        call_ensures(PunchError::kind, (&error,), kind),
        call_ensures(RunEnd::kind, (&RunEnd::Failed(error),), failed),
        call_ensures(RunEnd::kind, (&RunEnd::EngineFailed,), engine_failed),
        call_ensures(RunEnd::kind, (&RunEnd::Finished,), finished),
    ensures
        failed == Some(kind),
        engine_failed == Some(ErrorKind::Other),
        finished is None,
{
}

/// A packet counts as written as a whole, or not at all: it does not only if it could not be sent.
pub proof fn lemma_packet_is_written_as_a_whole(
    output: &KcpOutput,
    buf: &[u8],
    outcome: SendOutcome,
    written: Option<usize>,
)
    requires
        call_ensures(KcpOutput::write, (output, buf, outcome), written),
    ensures
        written is None <==> outcome == SendOutcome::Failed,
        written is Some ==> written->0 == buf@.len(),
{
}

/// An engine is updated, and sends again what is due, every ten milliseconds, or after two later
/// segments. Its window holds as many packets as wait between it and the stream, and what is taken
/// out of it at once is more than a packet can hold.
pub proof fn lemma_engine_keeps_its_limits()
    ensures
        TICK_MILLIS == 10,
        FLUSH_MILLIS == TICK_MILLIS,
        FAST_RESEND == 2,
        WINDOW == 128,
        QUEUE_LEN == WINDOW,
        RECEIVE_LEN == 65536,
{
}

} // verus!

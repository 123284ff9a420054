use vstd::prelude::*;
use crate::boot::spec_boot_actions;
use crate::frames::WAKE;
use crate::session::{
    FlashOptions, MAX_AUTOBAUD_ATTEMPTS, ERASE_TIMEOUT_MS, Phase, SessionSpec,
    spec_after_write, spec_autobaud_entry, spec_flash_entry, spec_go_fallback,
    spec_identify_entry, spec_identify_session, spec_step, spec_verify_tail,
};
use crate::errors::ErrorSpec;
use crate::wire::{ActionSpec, EventSpec};

verus! {

/// A write action that carries exactly the autobaud wake byte.
pub open spec fn is_wake_write(a: ActionSpec) -> bool {
    a matches ActionSpec::Write(w) && w == seq![WAKE]
}

/// How many wake bytes an action list sends.
pub open spec fn wake_writes(a: Seq<ActionSpec>) -> int
    decreases a.len(),
{
    if a.len() == 0 {
        0
    } else {
        wake_writes(a.drop_last()) + if is_wake_write(a.last()) {
            1int
        } else {
            0
        }
    }
}

pub proof fn lemma_wake_app(x: Seq<ActionSpec>, y: Seq<ActionSpec>)
    ensures
        wake_writes(x + y) == wake_writes(x) + wake_writes(y),
    decreases y.len(),
{
    if y.len() == 0 {
        assert(x + y =~= x);
    } else {
        lemma_wake_app(x, y.drop_last());
        assert((x + y).drop_last() =~= x + y.drop_last());
        assert((x + y).last() == y.last());
    }
}

pub proof fn lemma_wake_none(a: Seq<ActionSpec>)
    requires
        forall|i: int| 0 <= i < a.len() ==> !is_wake_write(#[trigger] a[i]),
    ensures
        wake_writes(a) == 0,
    decreases a.len(),
{
    if a.len() > 0 {
        lemma_wake_none(a.drop_last());
    }
}

pub proof fn lemma_wake_one(a: Seq<ActionSpec>, j: int)
    requires
        0 <= j < a.len(),
        is_wake_write(a[j]),
        forall|i: int| 0 <= i < a.len() && i != j ==> !is_wake_write(#[trigger] a[i]),
    ensures
        wake_writes(a) == 1,
    decreases a.len(),
{
    if j == a.len() - 1 {
        lemma_wake_none(a.drop_last());
    } else {
        lemma_wake_one(a.drop_last(), j);
    }
}


pub proof fn lemma_fallback_wake_free(s: SessionSpec, e: ErrorSpec)
    ensures
        wake_writes(spec_go_fallback(s, e).1) == 0,
{
    let l1 = seq![ActionSpec::Note(crate::wire::LogLevel::Warn, crate::wire::LogNoteSpec::GoFailed(e))];
    let l2 = crate::boot::spec_hw_reset_actions();
    let l3 = seq![ActionSpec::Note(crate::wire::LogLevel::Info, crate::wire::LogNoteSpec::ProgramStarted)];
    let l4 = spec_verify_tail(s);
    lemma_wake_none(l1);
    lemma_wake_none(l2);
    lemma_wake_none(l3);
    lemma_wake_none(l4);
    lemma_wake_app(l1, l2);
    lemma_wake_app(l1 + l2, l3);
    lemma_wake_app(l1 + l2 + l3, l4);
}

pub proof fn lemma_after_write_wake_free(s: SessionSpec)
    ensures
        wake_writes(spec_after_write(s).1) == 0,
{
    if !s.reset_after {
        lemma_wake_none(spec_verify_tail(s));
    } else if s.cmds.contains(crate::frames::CMD_GO) {
        lemma_wake_none(spec_after_write(s).1);
    } else {
        let l1 = seq![ActionSpec::Note(crate::wire::LogLevel::Info, crate::wire::LogNoteSpec::ResettingToRun)];
        let l2 = crate::boot::spec_hw_reset_actions();
        let l3 = seq![ActionSpec::Note(crate::wire::LogLevel::Info, crate::wire::LogNoteSpec::ProgramStarted)];
        let l4 = spec_verify_tail(s);
        lemma_wake_none(l1);
        lemma_wake_none(l2);
        lemma_wake_none(l3);
        lemma_wake_none(l4);
        lemma_wake_app(l1, l2);
        lemma_wake_app(l1 + l2, l3);
        lemma_wake_app(l1 + l2 + l3, l4);
    }
}

/// One step sends exactly as many wake bytes as it adds to the
/// session's wake count, keeps the count monotone, and preserves the
/// session invariant — so the count never passes the attempt bound.
#[verifier::rlimit(100)]
pub proof fn lemma_step_wakes(s: SessionSpec, ev: EventSpec)
    requires
        s.inv(),
        s.expects(ev),
    ensures
        spec_step(s, ev).0.inv(),
        spec_step(s, ev).0.wakes >= s.wakes,
        wake_writes(spec_step(s, ev).1) == spec_step(s, ev).0.wakes - s.wakes,
{
    let out = spec_step(s, ev).1;
    match ev {
        EventSpec::Byte(b) => {
            match s.phase {
                Phase::AutobaudAck => {
                    if b == crate::frames::ACK {
                        lemma_wake_none(out);
                    } else if s.wakes < MAX_AUTOBAUD_ATTEMPTS {
                        lemma_wake_one(out, 2);
                    } else {
                        lemma_wake_none(out);
                    }
                },
                Phase::EraseTail => {
                    if b == crate::frames::ACK {
                        if s.next_chunk >= s.chunks.len() {
                            lemma_after_write_wake_free(s);
                            lemma_wake_none(seq![
                                ActionSpec::Note(
                                    crate::wire::LogLevel::Info,
                                    crate::wire::LogNoteSpec::Writing,
                                ),
                            ]);
                            lemma_wake_app(
                                seq![
                                    ActionSpec::Note(
                                        crate::wire::LogLevel::Info,
                                        crate::wire::LogNoteSpec::Writing,
                                    ),
                                ],
                                spec_after_write(s).1,
                            );
                        } else {
                            lemma_wake_none(out);
                        }
                    } else {
                        lemma_wake_none(out);
                    }
                },
                Phase::WriteDataAck => {
                    if b == crate::frames::ACK {
                        crate::session::lemma_flat_take_succ(s.chunks, s.next_chunk as int);
                        crate::session::lemma_flat_take_le(s.chunks, s.next_chunk as int + 1);
                        assert(s.chunks.take(s.chunks.len() as int) =~= s.chunks);
                        let w2 = (s.written + s.chunks[s.next_chunk as int].1.len()) as u64;
                        let s2 = SessionSpec {
                            written: w2,
                            next_chunk: (s.next_chunk + 1) as usize,
                            ..s
                        };
                        if s2.next_chunk < s.chunks.len() {
                            lemma_wake_none(out);
                        } else {
                            lemma_after_write_wake_free(s2);
                            lemma_wake_none(seq![ActionSpec::Progress(w2, s.total)]);
                            lemma_wake_app(
                                seq![ActionSpec::Progress(w2, s.total)],
                                spec_after_write(s2).1,
                            );
                        }
                    } else {
                        lemma_wake_none(out);
                    }
                },
                Phase::GoCmdAck => {
                    if b == crate::frames::ACK {
                        assert(crate::frames::spec_address_frame(
                            crate::frames::LAUNCH_ADDRESS,
                        ).len() == 5);
                        lemma_wake_none(out);
                    } else {
                        lemma_fallback_wake_free(s, crate::session::spec_ack_err(b));
                    }
                },
                Phase::GoAddrAck => {
                    if b == crate::frames::ACK {
                        lemma_wake_none(seq![
                            ActionSpec::Note(
                                crate::wire::LogLevel::Info,
                                crate::wire::LogNoteSpec::ProgramStarted,
                            ),
                        ]);
                        lemma_wake_none(spec_verify_tail(s));
                        lemma_wake_app(
                            seq![
                                ActionSpec::Note(
                                    crate::wire::LogLevel::Info,
                                    crate::wire::LogNoteSpec::ProgramStarted,
                                ),
                            ],
                            spec_verify_tail(s),
                        );
                    } else {
                        lemma_fallback_wake_free(s, crate::session::spec_ack_err(b));
                    }
                },
                Phase::WriteCmdAck => {
                    if b == crate::frames::ACK {
                        assert(crate::frames::spec_address_frame(
                            s.chunks[s.next_chunk as int].0,
                        ).len() == 5);
                    }
                    lemma_wake_none(out);
                },
                Phase::WriteAddrAck => {
                    if b == crate::frames::ACK {
                        assert(crate::frames::spec_write_payload_frame(
                            s.chunks[s.next_chunk as int].1,
                        ).len() == s.chunks[s.next_chunk as int].1.len() + 2);
                    }
                    lemma_wake_none(out);
                },
                _ => {
                    lemma_wake_none(out);
                },
            }
        },
        EventSpec::TimedOut => {
            if s.phase == Phase::AutobaudAck && s.wakes < MAX_AUTOBAUD_ATTEMPTS {
                lemma_wake_one(out, 1);
            } else if s.phase == Phase::GoCmdAck || s.phase == Phase::GoAddrAck {
                lemma_fallback_wake_free(s, ErrorSpec::Timeout);
            } else {
                lemma_wake_none(out);
            }
        },
        EventSpec::Bytes(v) => {
            lemma_wake_none(out);
        },
        EventSpec::Completed => {
            lemma_wake_none(out);
        },
        EventSpec::Failed(e) => {
            if s.phase == Phase::GoCmdAck || s.phase == Phase::GoAddrAck {
                lemma_fallback_wake_free(s, e);
            } else {
                lemma_wake_none(out);
            }
        },
    }
}

/// Whether a session accepts this event sequence, step by step.
pub open spec fn valid_events(s: SessionSpec, evs: Seq<EventSpec>) -> bool
    decreases evs.len(),
{
    evs.len() == 0 || (s.expects(evs.first()) && valid_events(
        spec_step(s, evs.first()).0,
        evs.drop_first(),
    ))
}

/// The session a run of events leaves behind.
pub open spec fn spec_run(s: SessionSpec, evs: Seq<EventSpec>) -> SessionSpec
    decreases evs.len(),
{
    if evs.len() == 0 {
        s
    } else {
        spec_run(spec_step(s, evs.first()).0, evs.drop_first())
    }
}

/// Every action a run of events emits, in order.
pub open spec fn spec_run_actions(s: SessionSpec, evs: Seq<EventSpec>) -> Seq<ActionSpec>
    decreases evs.len(),
{
    if evs.len() == 0 {
        Seq::empty()
    } else {
        spec_step(s, evs.first()).1 + spec_run_actions(spec_step(s, evs.first()).0, evs.drop_first())
    }
}

/// Autobaud boundedness over a whole run: the steps send exactly the
/// wake bytes the final count records, and the count never exceeds
/// the attempt bound.
pub proof fn lemma_autobaud_bounded(s: SessionSpec, evs: Seq<EventSpec>)
    requires
        s.inv(),
        valid_events(s, evs),
    ensures
        spec_run(s, evs).inv(),
        spec_run(s, evs).wakes >= s.wakes,
        wake_writes(spec_run_actions(s, evs)) == spec_run(s, evs).wakes - s.wakes,
        wake_writes(spec_run_actions(s, evs)) + s.wakes <= MAX_AUTOBAUD_ATTEMPTS,
    decreases evs.len(),
{
    if evs.len() > 0 {
        lemma_step_wakes(s, evs.first());
        lemma_autobaud_bounded(spec_step(s, evs.first()).0, evs.drop_first());
        lemma_wake_app(
            spec_step(s, evs.first()).1,
            spec_run_actions(spec_step(s, evs.first()).0, evs.drop_first()),
        );
    }
}

pub proof fn lemma_boot_wake_free(mode: crate::boot::BootMode)
    ensures
        wake_writes(spec_boot_actions(mode)) == 0,
        forall|i: int|
            0 <= i < spec_boot_actions(mode).len() ==> !is_wake_write(
                #[trigger] spec_boot_actions(mode)[i],
            ),
{
    lemma_wake_none(spec_boot_actions(mode));
}

/// The whole autobaud handshake of an identify session — the entry's
/// unconditional wake plus every retry a run provokes — sends at most
/// five wake bytes.
pub proof fn lemma_identify_wakes(opts: FlashOptions, evs: Seq<EventSpec>)
    requires
        valid_events(spec_identify_session(opts), evs),
    ensures
        wake_writes(spec_identify_entry(opts)) == 1,
        wake_writes(spec_identify_entry(opts)) + wake_writes(
            spec_run_actions(spec_identify_session(opts), evs),
        ) <= MAX_AUTOBAUD_ATTEMPTS,
{
    lemma_boot_wake_free(opts.boot_mode);
    lemma_wake_one(spec_autobaud_entry(opts.read_timeout_ms), 3);
    lemma_wake_app(
        spec_boot_actions(opts.boot_mode),
        spec_autobaud_entry(opts.read_timeout_ms),
    );
    assert(spec_identify_session(opts).inv()) by {
        assert(Seq::<(u32, Seq<u8>)>::empty().take(0) =~= Seq::<(u32, Seq<u8>)>::empty());
    }
    lemma_autobaud_bounded(spec_identify_session(opts), evs);
}

/// Deadline respect, step by step: every read a step issues carries
/// the session's configured timeout, except the one awaiting the
/// mass-erase acknowledgement, which carries the fixed erase deadline.
#[verifier::rlimit(100)]
pub proof fn lemma_deadlines_bounded(s: SessionSpec, ev: EventSpec)
    requires
        s.inv(),
        s.expects(ev),
    ensures
        forall|i: int|
            0 <= i < spec_step(s, ev).1.len() ==> ((#[trigger] spec_step(s, ev).1[i]) matches
            ActionSpec::Read(d) ==> d == s.read_timeout_ms || (d == ERASE_TIMEOUT_MS
                && spec_step(s, ev).0.phase == Phase::EraseTail)),
{
}


/// The whole autobaud handshake of a flash session sends at most
/// five wake bytes as well: its entry also wakes exactly once.
pub proof fn lemma_flash_wakes(s: SessionSpec, opts: FlashOptions, evs: Seq<EventSpec>)
    requires
        s.inv(),
        s.wakes == 1,
        valid_events(s, evs),
    ensures
        wake_writes(spec_flash_entry(opts, s.total)) == 1,
        wake_writes(spec_flash_entry(opts, s.total)) + wake_writes(spec_run_actions(s, evs))
            <= MAX_AUTOBAUD_ATTEMPTS,
{
    let l1 = seq![
        ActionSpec::Note(
            crate::wire::LogLevel::Info,
            crate::wire::LogNoteSpec::FirmwareLoaded(s.total),
        ),
    ];
    let l2 = spec_boot_actions(opts.boot_mode);
    let l3 = seq![
        ActionSpec::Note(crate::wire::LogLevel::Info, crate::wire::LogNoteSpec::Connecting),
    ];
    let l4 = spec_autobaud_entry(opts.read_timeout_ms);
    lemma_wake_none(l1);
    lemma_boot_wake_free(opts.boot_mode);
    lemma_wake_none(l3);
    lemma_wake_one(l4, 3);
    lemma_wake_app(l1, l2);
    lemma_wake_app(l1 + l2, l3);
    lemma_wake_app(l1 + l2 + l3, l4);
    lemma_autobaud_bounded(s, evs);
}

/// The entry action lists respect the configured deadline too: every
/// read they issue carries it.
pub proof fn lemma_entry_deadlines(opts: FlashOptions, total: u64)
    ensures
        forall|i: int|
            0 <= i < spec_identify_entry(opts).len() ==> ((#[trigger] spec_identify_entry(
                opts,
            )[i]) matches ActionSpec::Read(d) ==> d == opts.read_timeout_ms),
        forall|i: int|
            0 <= i < spec_flash_entry(opts, total).len() ==> ((#[trigger] spec_flash_entry(
                opts,
                total,
            )[i]) matches ActionSpec::Read(d) ==> d == opts.read_timeout_ms),
{
}

/// Identify is a function of the options and the peer's replies
/// alone: a quiescent target that answers two back-to-back runs
/// identically yields identical outcomes, version and command set
/// included.
pub proof fn lemma_identify_deterministic(
    opts: FlashOptions,
    evs1: Seq<EventSpec>,
    evs2: Seq<EventSpec>,
)
    requires
        evs1 == evs2,
    ensures
        spec_run(spec_identify_session(opts), evs1) == spec_run(spec_identify_session(opts), evs2),
        spec_run(spec_identify_session(opts), evs1).outcome == spec_run(
            spec_identify_session(opts),
            evs2,
        ).outcome,
{
}

} // verus!


use vstd::prelude::*;
use crate::boot::{BootMode, BootLineConfig, spec_boot_actions, spec_hw_reset_actions, push_boot_actions, push_hw_reset};
use crate::errors::{Error, ErrorSpec, spec_error_text};
use crate::frames::{
    ACK, NACK, CMD_GET, CMD_GET_ID, CMD_GO, CMD_WRITE_MEMORY, CMD_ERASE, CMD_EXTENDED_ERASE,
    WAKE, LAUNCH_ADDRESS, spec_cmd_frame, spec_address_frame, spec_write_payload_frame,
    spec_ext_erase_trailer, spec_legacy_erase_trailer, cmd_frame, address_frame,
    write_payload_frame, ext_erase_trailer, legacy_erase_trailer,
};
use crate::hex::{spec_parse_image, spec_hex_err_text, parse_hex_to_image};
use crate::image::{Chunk, chunk_pairs, chunks_pairs, sorted_by_addr, seq_to_map, image_to_blocks, chunks_of_blocks};
use crate::wire::{Action, ActionSpec, Event, EventSpec, LogLevel, LogNote, LogNoteSpec, acts, push_act};

verus! {

/// The per-command response deadline, in milliseconds, unless a
/// caller configures another.
pub const DEFAULT_READ_TIMEOUT_MS: u64 = 800;

/// The extended deadline for the mass-erase acknowledgement.
pub const ERASE_TIMEOUT_MS: u64 = 25_000;

/// How many autobaud wake bytes a session may send in all.
pub const MAX_AUTOBAUD_ATTEMPTS: u8 = 5;

/// Immutable configuration for an identify or flash session.
#[derive(Clone, Copy, Debug)]
pub struct FlashOptions {
    /// Serial baud rate.
    pub baud_rate: u32,
    /// Which boot-entry pulse pattern to run first.
    pub boot_mode: BootMode,
    /// Default boot-line polarity record; informational only.
    pub lines: BootLineConfig,
    /// Reserved: read-back verification is accepted and skipped.
    pub verify: bool,
    /// Launch the written program when flashing ends.
    pub reset_after: bool,
    /// Per-byte response deadline in milliseconds.
    pub read_timeout_ms: u64,
}

impl Default for FlashOptions {
    /// 115 200 baud, no boot-entry pulses, no verify, no launch,
    /// 800 ms response deadline.
    fn default() -> (r: Self)
        ensures
            r.baud_rate == 115_200,
            r.boot_mode == BootMode::NoAction,
            r.lines.boot_level == crate::boot::Level::High,
            r.lines.reset_assert_level == crate::boot::Level::Low,
            !r.verify,
            !r.reset_after,
            r.read_timeout_ms == DEFAULT_READ_TIMEOUT_MS,
    {
        FlashOptions {
            baud_rate: 115_200,
            boot_mode: BootMode::NoAction,
            lines: BootLineConfig { boot_level: crate::boot::Level::High, reset_assert_level: crate::boot::Level::Low },
            verify: false,
            reset_after: false,
            read_timeout_ms: DEFAULT_READ_TIMEOUT_MS,
        }
    }
}

/// What an identify session reports.
#[derive(Clone, Debug)]
pub struct IdentifyResult {
    pub ok: bool,
    pub bootloader_version: Option<u8>,
    pub supported_commands: Vec<u8>,
    pub product_id: Option<u16>,
    pub error: Option<String>,
}

/// The mathematical shape of an identify report.
pub struct IdentifyResultSpec {
    pub ok: bool,
    pub bootloader_version: Option<u8>,
    pub supported_commands: Seq<u8>,
    pub product_id: Option<u16>,
    pub error: Option<Seq<char>>,
}

impl View for IdentifyResult {
    type V = IdentifyResultSpec;

    open spec fn view(&self) -> IdentifyResultSpec {
        IdentifyResultSpec {
            ok: self.ok,
            bootloader_version: self.bootloader_version,
            supported_commands: self.supported_commands@,
            product_id: self.product_id,
            error: match &self.error {
                Some(s) => Some(s@),
                None => None,
            },
        }
    }
}

/// How a finished session ended.
#[derive(Debug)]
pub enum Outcome {
    /// An identify session's report, successful or not.
    Identified(IdentifyResult),
    /// A flash session wrote every chunk.
    Flashed,
    /// A flash session failed.
    Failed(Error),
}

/// The mathematical shape of an outcome.
pub enum OutcomeSpec {
    Identified(IdentifyResultSpec),
    Flashed,
    Failed(ErrorSpec),
}

impl View for Outcome {
    type V = OutcomeSpec;

    open spec fn view(&self) -> OutcomeSpec {
        match self {
            Outcome::Identified(r) => OutcomeSpec::Identified(r@),
            Outcome::Flashed => OutcomeSpec::Flashed,
            Outcome::Failed(e) => OutcomeSpec::Failed(e@),
        }
    }
}

/// Which flow a session runs.
#[derive(Clone, Copy, PartialEq, Eq, Structural, Debug)]
pub enum Flow {
    Identify,
    Flash,
}

/// Where in the protocol a session stands; most phases await one
/// response byte.
#[derive(Clone, Copy, PartialEq, Eq, Structural, Debug)]
pub enum Phase {
    /// Awaiting the acknowledgement of a wake byte.
    AutobaudAck,
    /// Awaiting the acknowledgement of the GET command.
    GetAck,
    /// Awaiting GET's count byte.
    GetLen,
    /// Awaiting GET's version byte; the count byte said how many
    /// command bytes follow.
    GetVersion { n: u8 },
    /// Awaiting GET's command bytes.
    GetBody { n: u8 },
    /// Awaiting GET's trailing acknowledgement.
    GetTail,
    /// Awaiting the acknowledgement of the GET ID command.
    GetIdAck,
    /// Awaiting GET ID's count byte.
    GetIdLen,
    /// Awaiting GET ID's body: one more byte than the count said.
    GetIdBody { n: u8 },
    /// Awaiting GET ID's trailing acknowledgement.
    GetIdTail,
    /// Awaiting the acknowledgement of the erase command byte.
    EraseCmdAck { ext: bool },
    /// Awaiting the acknowledgement of the mass-erase trailer.
    EraseTail,
    /// Awaiting the acknowledgement of a write-memory command byte.
    WriteCmdAck,
    /// Awaiting the acknowledgement of a write destination address.
    WriteAddrAck,
    /// Awaiting the acknowledgement of a write payload.
    WriteDataAck,
    /// Awaiting the acknowledgement of the launch command byte.
    GoCmdAck,
    /// Awaiting the acknowledgement of the launch address.
    GoAddrAck,
    /// Awaiting the shell's report that the final line pulses ran.
    Finishing,
    /// The session is over; the outcome is set.
    Done,
}

/// The views of a chunk list.
pub open spec fn chunks_view(cs: Seq<Chunk>) -> Seq<(u32, Seq<u8>)> {
    cs.map_values(|c: Chunk| (c.addr, c.data@))
}

/// The addressed bytes a chunk-view list covers, in order.
pub open spec fn chunk_flat(cs: Seq<(u32, Seq<u8>)>) -> Seq<(u32, u8)>
    decreases cs.len(),
{
    if cs.len() == 0 {
        Seq::empty()
    } else {
        chunk_flat(cs.drop_last()) + Seq::new(
            cs.last().1.len(),
            |i: int| (((cs.last().0 + i) as u32), cs.last().1[i]),
        )
    }
}

pub proof fn lemma_chunks_view_flat(cs: Seq<Chunk>)
    ensures
        chunk_flat(chunks_view(cs)) == chunks_pairs(cs),
    decreases cs.len(),
{
    if cs.len() == 0 {
        assert(chunk_flat(chunks_view(cs)) =~= chunks_pairs(cs));
    } else {
        lemma_chunks_view_flat(cs.drop_last());
        assert(chunks_view(cs).drop_last() =~= chunks_view(cs.drop_last()));
        assert(chunks_view(cs).last() == (cs.last().addr, cs.last().data@));
        assert(Seq::new(
            chunks_view(cs).last().1.len(),
            |i: int| (((chunks_view(cs).last().0 + i) as u32), chunks_view(cs).last().1[i]),
        ) =~= chunk_pairs(cs.last()));
        assert(chunk_flat(chunks_view(cs)) =~= chunks_pairs(cs));
    }
}

pub proof fn lemma_flat_take_succ(cs: Seq<(u32, Seq<u8>)>, k: int)
    requires
        0 <= k < cs.len(),
    ensures
        chunk_flat(cs.take(k + 1)).len() == chunk_flat(cs.take(k)).len() + cs[k].1.len(),
{
    assert(cs.take(k + 1).drop_last() =~= cs.take(k));
    assert(cs.take(k + 1).last() == cs[k]);
}

pub proof fn lemma_flat_take_le(cs: Seq<(u32, Seq<u8>)>, k: int)
    requires
        0 <= k <= cs.len(),
    ensures
        chunk_flat(cs.take(k)).len() <= chunk_flat(cs).len(),
    decreases cs.len(),
{
    if k == cs.len() {
        assert(cs.take(k) =~= cs);
    } else {
        lemma_flat_take_le(cs.drop_last(), k);
        assert(cs.drop_last().take(k) =~= cs.take(k));
    }
}

/// The mathematical shape of a session.
#[verifier::ext_equal]
pub struct SessionSpec {
    pub flow: Flow,
    pub read_timeout_ms: u64,
    pub reset_after: bool,
    pub verify: bool,
    pub wakes: u8,
    pub version: u8,
    pub cmds: Seq<u8>,
    pub chunks: Seq<(u32, Seq<u8>)>,
    pub next_chunk: usize,
    pub written: u64,
    pub total: u64,
    pub pid_bytes: Seq<u8>,
    pub phase: Phase,
    pub outcome: Option<OutcomeSpec>,
}

impl SessionSpec {
    /// The write phases walk the chunk list.
    pub open spec fn in_write_phase(self) -> bool {
        self.phase == Phase::WriteCmdAck || self.phase == Phase::WriteAddrAck || self.phase
            == Phase::WriteDataAck
    }

    /// Internal consistency: the wake budget is bounded, every chunk
    /// fits one write-memory transfer, the write cursor is in range,
    /// the progress counters measure the chunk bytes, and exactly the
    /// finished session carries an outcome.
    pub open spec fn inv(self) -> bool {
        &&& self.wakes <= MAX_AUTOBAUD_ATTEMPTS
        &&& (self.phase == Phase::AutobaudAck ==> self.wakes >= 1)
        &&& forall|k: int|
            0 <= k < self.chunks.len() ==> 1 <= (#[trigger] self.chunks[k]).1.len() <= 256
        &&& self.chunks.len() <= usize::MAX
        &&& self.next_chunk <= self.chunks.len()
        &&& (self.in_write_phase() ==> self.next_chunk < self.chunks.len())
        &&& self.total == chunk_flat(self.chunks).len()
        &&& self.written == chunk_flat(self.chunks.take(self.next_chunk as int)).len()
        &&& (self.phase == Phase::Done <==> self.outcome is Some)
    }

    /// Which event the session awaits after its last action list.
    pub open spec fn expects(self, ev: EventSpec) -> bool {
        match self.phase {
            Phase::Done => false,
            Phase::GetBody { n } => (ev matches EventSpec::Bytes(v) && v.len() == n) || (
            ev is Failed),
            Phase::GetIdBody { n } => (ev matches EventSpec::Bytes(v) && v.len() == n + 1) || (
            ev is Failed),
            Phase::Finishing => (ev is Completed) || (ev is Failed),
            _ => (ev is Byte) || (ev is TimedOut) || (ev is Failed),
        }
    }
}

/// The error a response byte that is not ACK carries.
pub open spec fn spec_ack_err(b: u8) -> ErrorSpec {
    if b == NACK {
        ErrorSpec::Nack
    } else {
        ErrorSpec::UnexpectedResponse(b)
    }
}

/// Failing ends the session: an identify session reports a failed
/// result carrying the error's message, a flash session carries the
/// error itself.
pub open spec fn spec_fail(s: SessionSpec, e: ErrorSpec) -> (SessionSpec, Seq<ActionSpec>) {
    if s.flow == Flow::Identify {
        (
            SessionSpec {
                phase: Phase::Done,
                outcome: Some(
                    OutcomeSpec::Identified(
                        IdentifyResultSpec {
                            ok: false,
                            bootloader_version: None,
                            supported_commands: Seq::empty(),
                            product_id: None,
                            error: Some(spec_error_text(e)),
                        },
                    ),
                ),
                ..s
            },
            Seq::empty(),
        )
    } else {
        (
            SessionSpec { phase: Phase::Done, outcome: Some(OutcomeSpec::Failed(e)), ..s },
            Seq::empty(),
        )
    }
}

/// An identify session ends successfully: the discovered version and
/// command set, and whatever product id the lenient reply gave.
pub open spec fn spec_id_done(s: SessionSpec, pid: Option<u16>) -> (SessionSpec, Seq<ActionSpec>) {
    (
        SessionSpec {
            phase: Phase::Done,
            outcome: Some(
                OutcomeSpec::Identified(
                    IdentifyResultSpec {
                        ok: true,
                        bootloader_version: Some(s.version),
                        supported_commands: s.cmds,
                        product_id: pid,
                        error: None,
                    },
                ),
            ),
            ..s
        },
        Seq::empty(),
    )
}

/// The warning a reserved verify request earns, at the session's end.
pub open spec fn spec_verify_tail(s: SessionSpec) -> Seq<ActionSpec> {
    if s.verify {
        seq![ActionSpec::Note(LogLevel::Warn, LogNoteSpec::VerifySkipped)]
    } else {
        Seq::empty()
    }
}

/// After the last chunk: done, unless a launch was requested — then
/// the GO command where supported, else a hardware reset.
pub open spec fn spec_after_write(s: SessionSpec) -> (SessionSpec, Seq<ActionSpec>) {
    if !s.reset_after {
        (
            SessionSpec { phase: Phase::Done, outcome: Some(OutcomeSpec::Flashed), ..s },
            spec_verify_tail(s),
        )
    } else if s.cmds.contains(CMD_GO) {
        (
            SessionSpec { phase: Phase::GoCmdAck, ..s },
            seq![
                ActionSpec::Note(LogLevel::Info, LogNoteSpec::StartingProgram),
                ActionSpec::Write(spec_cmd_frame(CMD_GO)),
                ActionSpec::Read(s.read_timeout_ms),
            ],
        )
    } else {
        (
            SessionSpec { phase: Phase::Finishing, ..s },
            seq![ActionSpec::Note(LogLevel::Info, LogNoteSpec::ResettingToRun)]
                + spec_hw_reset_actions() + seq![
                ActionSpec::Note(LogLevel::Info, LogNoteSpec::ProgramStarted),
            ] + spec_verify_tail(s),
        )
    }
}

/// A failed launch logs a warning and falls back to the hardware
/// reset pulse; the flash still counts as successful if the pulses run.
pub open spec fn spec_go_fallback(s: SessionSpec, e: ErrorSpec) -> (SessionSpec, Seq<ActionSpec>) {
    (
        SessionSpec { phase: Phase::Finishing, ..s },
        seq![ActionSpec::Note(LogLevel::Warn, LogNoteSpec::GoFailed(e))] + spec_hw_reset_actions()
            + seq![ActionSpec::Note(LogLevel::Info, LogNoteSpec::ProgramStarted)]
            + spec_verify_tail(s),
    )
}

/// Starts the write loop, or skips straight past it when there is
/// nothing to write.
pub open spec fn spec_write_start(s: SessionSpec) -> (SessionSpec, Seq<ActionSpec>) {
    if s.next_chunk < s.chunks.len() {
        (
            SessionSpec { phase: Phase::WriteCmdAck, ..s },
            seq![
                ActionSpec::Note(LogLevel::Info, LogNoteSpec::Writing),
                ActionSpec::Write(spec_cmd_frame(CMD_WRITE_MEMORY)),
                ActionSpec::Read(s.read_timeout_ms),
            ],
        )
    } else {
        let (s2, a2) = spec_after_write(s);
        (s2, seq![ActionSpec::Note(LogLevel::Info, LogNoteSpec::Writing)] + a2)
    }
}

/// One more wake byte after silence: a short pause, then the wake and
/// its deadline.
pub open spec fn spec_retry_quiet(s: SessionSpec) -> (SessionSpec, Seq<ActionSpec>) {
    (
        SessionSpec { wakes: (s.wakes + 1) as u8, ..s },
        seq![
            ActionSpec::Sleep(50),
            ActionSpec::Write(seq![WAKE]),
            ActionSpec::Sleep(100),
            ActionSpec::Read(s.read_timeout_ms),
        ],
    )
}

/// One more wake byte after noise: pending input is discarded first.
pub open spec fn spec_retry_noise(s: SessionSpec) -> (SessionSpec, Seq<ActionSpec>) {
    (
        SessionSpec { wakes: (s.wakes + 1) as u8, ..s },
        seq![
            ActionSpec::ClearInput,
            ActionSpec::Sleep(100),
            ActionSpec::Write(seq![WAKE]),
            ActionSpec::Sleep(100),
            ActionSpec::Read(s.read_timeout_ms),
        ],
    )
}

/// Autobaud succeeded: query the command set.
pub open spec fn spec_synced(s: SessionSpec) -> (SessionSpec, Seq<ActionSpec>) {
    if s.flow == Flow::Identify {
        (
            SessionSpec { phase: Phase::GetAck, ..s },
            seq![
                ActionSpec::Write(spec_cmd_frame(CMD_GET)),
                ActionSpec::Read(s.read_timeout_ms),
            ],
        )
    } else {
        (
            SessionSpec { phase: Phase::GetAck, ..s },
            seq![
                ActionSpec::Note(LogLevel::Info, LogNoteSpec::Querying),
                ActionSpec::Write(spec_cmd_frame(CMD_GET)),
                ActionSpec::Read(s.read_timeout_ms),
            ],
        )
    }
}

/// The command set is in hand: identify reads the product id;
/// flashing picks extended erase over legacy erase, or fails when the
/// target supports neither.
pub open spec fn spec_discovered(s: SessionSpec) -> (SessionSpec, Seq<ActionSpec>) {
    if s.flow == Flow::Identify {
        (
            SessionSpec { phase: Phase::GetIdAck, ..s },
            seq![
                ActionSpec::Write(spec_cmd_frame(CMD_GET_ID)),
                ActionSpec::Read(s.read_timeout_ms),
            ],
        )
    } else if s.cmds.contains(CMD_EXTENDED_ERASE) {
        (
            SessionSpec { phase: Phase::EraseCmdAck { ext: true }, ..s },
            seq![
                ActionSpec::Note(LogLevel::Info, LogNoteSpec::Erasing),
                ActionSpec::Write(spec_cmd_frame(CMD_EXTENDED_ERASE)),
                ActionSpec::Read(s.read_timeout_ms),
            ],
        )
    } else if s.cmds.contains(CMD_ERASE) {
        (
            SessionSpec { phase: Phase::EraseCmdAck { ext: false }, ..s },
            seq![
                ActionSpec::Note(LogLevel::Info, LogNoteSpec::Erasing),
                ActionSpec::Write(spec_cmd_frame(CMD_ERASE)),
                ActionSpec::Read(s.read_timeout_ms),
            ],
        )
    } else {
        spec_fail(s, ErrorSpec::NoEraseSupport)
    }
}

/// The product id the lenient GET ID reply denotes: two body bytes
/// are big-endian, one is zero-extended, anything else is absent.
pub open spec fn spec_pid_of(bytes: Seq<u8>) -> Option<u16> {
    if bytes.len() == 2 {
        Some((bytes[0] * 256 + bytes[1]) as u16)
    } else if bytes.len() == 1 {
        Some(bytes[0] as u16)
    } else {
        None
    }
}

/// The step on a delivered response byte.
pub open spec fn spec_step_byte(s: SessionSpec, b: u8) -> (SessionSpec, Seq<ActionSpec>) {
    match s.phase {
        Phase::AutobaudAck => if b == ACK {
            spec_synced(s)
        } else if s.wakes < MAX_AUTOBAUD_ATTEMPTS {
            spec_retry_noise(s)
        } else {
            spec_fail(s, spec_ack_err(b))
        },
        Phase::GetAck => if b == ACK {
            (
                SessionSpec { phase: Phase::GetLen, ..s },
                seq![ActionSpec::Read(s.read_timeout_ms)],
            )
        } else {
            spec_fail(s, spec_ack_err(b))
        },
        Phase::GetLen => (
            SessionSpec { phase: Phase::GetVersion { n: b }, ..s },
            seq![ActionSpec::Read(s.read_timeout_ms)],
        ),
        Phase::GetVersion { n } => if n > 0 {
            (
                SessionSpec { version: b, phase: Phase::GetBody { n }, ..s },
                seq![ActionSpec::ReadExact(n as usize)],
            )
        } else {
            (
                SessionSpec { version: b, cmds: Seq::empty(), phase: Phase::GetTail, ..s },
                seq![ActionSpec::Read(s.read_timeout_ms)],
            )
        },
        Phase::GetTail => if b == ACK {
            spec_discovered(s)
        } else {
            spec_fail(s, spec_ack_err(b))
        },
        Phase::GetIdAck => if b == ACK {
            (
                SessionSpec { phase: Phase::GetIdLen, ..s },
                seq![ActionSpec::Read(s.read_timeout_ms)],
            )
        } else {
            spec_id_done(s, None)
        },
        Phase::GetIdLen => (
            SessionSpec { phase: Phase::GetIdBody { n: b }, ..s },
            seq![ActionSpec::ReadExact((b + 1) as usize)],
        ),
        Phase::GetIdTail => if b == ACK {
            spec_id_done(s, spec_pid_of(s.pid_bytes))
        } else {
            spec_id_done(s, None)
        },
        Phase::EraseCmdAck { ext } => if b == ACK {
            (
                SessionSpec { phase: Phase::EraseTail, ..s },
                seq![
                    ActionSpec::Write(
                        if ext {
                            spec_ext_erase_trailer()
                        } else {
                            spec_legacy_erase_trailer()
                        },
                    ),
                    ActionSpec::Read(ERASE_TIMEOUT_MS),
                ],
            )
        } else {
            spec_fail(s, spec_ack_err(b))
        },
        Phase::EraseTail => if b == ACK {
            spec_write_start(s)
        } else {
            spec_fail(s, spec_ack_err(b))
        },
        Phase::WriteCmdAck => if b == ACK {
            (
                SessionSpec { phase: Phase::WriteAddrAck, ..s },
                seq![
                    ActionSpec::Write(spec_address_frame(s.chunks[s.next_chunk as int].0)),
                    ActionSpec::Read(s.read_timeout_ms),
                ],
            )
        } else {
            spec_fail(s, spec_ack_err(b))
        },
        Phase::WriteAddrAck => if b == ACK {
            (
                SessionSpec { phase: Phase::WriteDataAck, ..s },
                seq![
                    ActionSpec::Write(spec_write_payload_frame(s.chunks[s.next_chunk as int].1)),
                    ActionSpec::Read(s.read_timeout_ms),
                ],
            )
        } else {
            spec_fail(s, spec_ack_err(b))
        },
        Phase::WriteDataAck => if b == ACK {
            let w2 = (s.written + s.chunks[s.next_chunk as int].1.len()) as u64;
            let s2 = SessionSpec { written: w2, next_chunk: (s.next_chunk + 1) as usize, ..s };
            if s2.next_chunk < s.chunks.len() {
                (
                    SessionSpec { phase: Phase::WriteCmdAck, ..s2 },
                    seq![
                        ActionSpec::Progress(w2, s.total),
                        ActionSpec::Write(spec_cmd_frame(CMD_WRITE_MEMORY)),
                        ActionSpec::Read(s.read_timeout_ms),
                    ],
                )
            } else {
                let (s3, a3) = spec_after_write(s2);
                (s3, seq![ActionSpec::Progress(w2, s.total)] + a3)
            }
        } else {
            spec_fail(s, spec_ack_err(b))
        },
        Phase::GoCmdAck => if b == ACK {
            (
                SessionSpec { phase: Phase::GoAddrAck, ..s },
                seq![
                    ActionSpec::Write(spec_address_frame(LAUNCH_ADDRESS)),
                    ActionSpec::Read(s.read_timeout_ms),
                ],
            )
        } else {
            spec_go_fallback(s, spec_ack_err(b))
        },
        Phase::GoAddrAck => if b == ACK {
            (
                SessionSpec { phase: Phase::Done, outcome: Some(OutcomeSpec::Flashed), ..s },
                seq![ActionSpec::Note(LogLevel::Info, LogNoteSpec::ProgramStarted)]
                    + spec_verify_tail(s),
            )
        } else {
            spec_go_fallback(s, spec_ack_err(b))
        },
        _ => (s, Seq::empty()),
    }
}

/// The step on an expired read deadline.
pub open spec fn spec_step_timeout(s: SessionSpec) -> (SessionSpec, Seq<ActionSpec>) {
    match s.phase {
        Phase::AutobaudAck => if s.wakes < MAX_AUTOBAUD_ATTEMPTS {
            spec_retry_quiet(s)
        } else {
            spec_fail(s, ErrorSpec::Timeout)
        },
        Phase::GetIdAck => spec_id_done(s, None),
        Phase::GetIdLen => spec_id_done(s, None),
        Phase::GetIdTail => spec_id_done(s, None),
        Phase::GoCmdAck => spec_go_fallback(s, ErrorSpec::Timeout),
        Phase::GoAddrAck => spec_go_fallback(s, ErrorSpec::Timeout),
        _ => spec_fail(s, ErrorSpec::Timeout),
    }
}

/// The step on a completed exact read.
pub open spec fn spec_step_bytes(s: SessionSpec, v: Seq<u8>) -> (SessionSpec, Seq<ActionSpec>) {
    match s.phase {
        Phase::GetBody { .. } => (
            SessionSpec { cmds: v, phase: Phase::GetTail, ..s },
            seq![ActionSpec::Read(s.read_timeout_ms)],
        ),
        Phase::GetIdBody { .. } => (
            SessionSpec { pid_bytes: v, phase: Phase::GetIdTail, ..s },
            seq![ActionSpec::Read(s.read_timeout_ms)],
        ),
        _ => (s, Seq::empty()),
    }
}

/// The step when every action ran without awaiting data.
pub open spec fn spec_step_completed(s: SessionSpec) -> (SessionSpec, Seq<ActionSpec>) {
    match s.phase {
        Phase::Finishing => (
            SessionSpec { phase: Phase::Done, outcome: Some(OutcomeSpec::Flashed), ..s },
            Seq::empty(),
        ),
        _ => (s, Seq::empty()),
    }
}

/// The step on a failed action: the product-id query swallows the
/// failure, a pending launch falls back to the hardware reset, and
/// everything else fails the session.
pub open spec fn spec_step_failed(s: SessionSpec, e: ErrorSpec) -> (SessionSpec, Seq<ActionSpec>) {
    match s.phase {
        Phase::GetIdAck => spec_id_done(s, None),
        Phase::GetIdLen => spec_id_done(s, None),
        Phase::GetIdBody { .. } => spec_id_done(s, None),
        Phase::GetIdTail => spec_id_done(s, None),
        Phase::GoCmdAck => spec_go_fallback(s, e),
        Phase::GoAddrAck => spec_go_fallback(s, e),
        _ => spec_fail(s, e),
    }
}

/// One transition of the protocol machine: the next session and the
/// actions the shell must run before reporting the next event.
pub open spec fn spec_step(s: SessionSpec, ev: EventSpec) -> (SessionSpec, Seq<ActionSpec>) {
    match ev {
        EventSpec::Byte(b) => spec_step_byte(s, b),
        EventSpec::TimedOut => spec_step_timeout(s),
        EventSpec::Bytes(v) => spec_step_bytes(s, v),
        EventSpec::Completed => spec_step_completed(s),
        EventSpec::Failed(e) => spec_step_failed(s, e),
    }
}


/// A live identify or flash session: a pure machine the serial shell
/// drives by running its action lists and reporting one event back
/// after each.
#[derive(Debug)]
pub struct Session {
    flow: Flow,
    read_timeout_ms: u64,
    reset_after: bool,
    verify: bool,
    wakes: u8,
    version: u8,
    cmds: Vec<u8>,
    chunks: Vec<Chunk>,
    next_chunk: usize,
    written: u64,
    total: u64,
    pid_bytes: Vec<u8>,
    phase: Phase,
    outcome: Option<Outcome>,
}

impl View for Session {
    type V = SessionSpec;

    closed spec fn view(&self) -> SessionSpec {
        SessionSpec {
            flow: self.flow,
            read_timeout_ms: self.read_timeout_ms,
            reset_after: self.reset_after,
            verify: self.verify,
            wakes: self.wakes,
            version: self.version,
            cmds: self.cmds@,
            chunks: chunks_view(self.chunks@),
            next_chunk: self.next_chunk,
            written: self.written,
            total: self.total,
            pid_bytes: self.pid_bytes@,
            phase: self.phase,
            outcome: match self.outcome {
                Some(o) => Some(o@),
                None => None,
            },
        }
    }
}

impl Session {
    /// The outcome, once the session is done.
    pub fn outcome(&self) -> (r: &Option<Outcome>)
        ensures
            match r {
                Some(o) => self@.outcome matches Some(os) && o@ == os,
                None => self@.outcome is None,
            },
    {
        &self.outcome
    }

    /// Whether the session is over.
    pub fn is_done(&self) -> (r: bool)
        ensures
            r == (self@.phase == Phase::Done),
    {
        self.phase == Phase::Done
    }
}

/// A fresh byte-for-byte copy.
fn copy_bytes(v: &Vec<u8>) -> (r: Vec<u8>)
    ensures
        r@ == v@,
{
    let mut out: Vec<u8> = Vec::new();
    let mut i: usize = 0;
    while i < v.len()
        invariant
            i <= v@.len(),
            out@ =~= v@.take(i as int),
        decreases v@.len() - i,
    {
        out.push(v[i]);
        proof {
            assert(v@.take(i + 1) =~= v@.take(i as int).push(v@[i as int]));
        }
        i = i + 1;
    }
    proof {
        assert(v@.take(v@.len() as int) =~= v@);
    }
    out
}

/// Whether a byte occurs in the list.
fn contains_byte(v: &Vec<u8>, b: u8) -> (r: bool)
    ensures
        r == v@.contains(b),
{
    let mut i: usize = 0;
    while i < v.len()
        invariant
            i <= v@.len(),
            forall|j: int| 0 <= j < i ==> v@[j] != b,
        decreases v@.len() - i,
    {
        if v[i] == b {
            return true;
        }
        i = i + 1;
    }
    false
}

fn push_write_cmd(a: &mut Vec<Action>, c: u8)
    ensures
        acts(final(a)@) == acts(old(a)@).push(ActionSpec::Write(spec_cmd_frame(c))),
{
    let f = cmd_frame(c);
    push_act(a, Action::Write(f));
}

fn push_wake(a: &mut Vec<Action>)
    ensures
        acts(final(a)@) == acts(old(a)@).push(ActionSpec::Write(seq![WAKE])),
{
    let mut w: Vec<u8> = Vec::new();
    w.push(WAKE);
    proof {
        assert(w@ =~= seq![WAKE]);
    }
    push_act(a, Action::Write(w));
}

fn fail_session(s: Session, e: Error) -> (r: Session)
    ensures
        r@ == spec_fail(s@, e@).0,
{
    let mut s2 = s;
    match s2.flow {
        Flow::Identify => {
            let text = e.text();
            s2.outcome = Some(
                Outcome::Identified(
                    IdentifyResult {
                        ok: false,
                        bootloader_version: None,
                        supported_commands: Vec::new(),
                        product_id: None,
                        error: Some(text),
                    },
                ),
            );
        },
        Flow::Flash => {
            s2.outcome = Some(Outcome::Failed(e));
        },
    }
    s2.phase = Phase::Done;
    proof {
        assert(s2@ =~= spec_fail(s@, e@).0);
    }
    s2
}

fn id_done_session(s: Session, pid: Option<u16>) -> (r: Session)
    ensures
        r@ == spec_id_done(s@, pid).0,
{
    let mut s2 = s;
    let cmds_copy = copy_bytes(&s2.cmds);
    s2.outcome = Some(
        Outcome::Identified(
            IdentifyResult {
                ok: true,
                bootloader_version: Some(s2.version),
                supported_commands: cmds_copy,
                product_id: pid,
                error: None,
            },
        ),
    );
    s2.phase = Phase::Done;
    proof {
        assert(s2@ =~= spec_id_done(s@, pid).0);
    }
    s2
}

fn after_write_session(s: Session, a: &mut Vec<Action>) -> (r: Session)
    ensures
        r@ == spec_after_write(s@).0,
        acts(final(a)@) == acts(old(a)@) + spec_after_write(s@).1,
{
    let ghost a0 = acts(a@);
    let mut s2 = s;
    if !s2.reset_after {
        s2.outcome = Some(Outcome::Flashed);
        s2.phase = Phase::Done;
        if s2.verify {
            push_act(a, Action::Note(LogLevel::Warn, LogNote::VerifySkipped));
        }
    } else if contains_byte(&s2.cmds, CMD_GO) {
        push_act(a, Action::Note(LogLevel::Info, LogNote::StartingProgram));
        push_write_cmd(a, CMD_GO);
        push_act(a, Action::Read(s2.read_timeout_ms));
        s2.phase = Phase::GoCmdAck;
    } else {
        push_act(a, Action::Note(LogLevel::Info, LogNote::ResettingToRun));
        push_hw_reset(a);
        push_act(a, Action::Note(LogLevel::Info, LogNote::ProgramStarted));
        if s2.verify {
            push_act(a, Action::Note(LogLevel::Warn, LogNote::VerifySkipped));
        }
        s2.phase = Phase::Finishing;
    }
    proof {
        assert(s2@ =~= spec_after_write(s@).0);
        assert(acts(a@) =~= a0 + spec_after_write(s@).1);
    }
    s2
}

fn go_fallback_session(s: Session, a: &mut Vec<Action>, e: Error) -> (r: Session)
    ensures
        r@ == spec_go_fallback(s@, e@).0,
        acts(final(a)@) == acts(old(a)@) + spec_go_fallback(s@, e@).1,
{
    let ghost a0 = acts(a@);
    let mut s2 = s;
    push_act(a, Action::Note(LogLevel::Warn, LogNote::GoFailed(e)));
    push_hw_reset(a);
    push_act(a, Action::Note(LogLevel::Info, LogNote::ProgramStarted));
    if s2.verify {
        push_act(a, Action::Note(LogLevel::Warn, LogNote::VerifySkipped));
    }
    s2.phase = Phase::Finishing;
    proof {
        assert(s2@ =~= spec_go_fallback(s@, e@).0);
        assert(acts(a@) =~= a0 + spec_go_fallback(s@, e@).1);
    }
    s2
}

fn ack_error(b: u8) -> (e: Error)
    ensures
        e@ == spec_ack_err(b),
{
    if b == NACK {
        Error::Nack
    } else {
        Error::UnexpectedResponse(b)
    }
}

fn sb_autobaud(s: Session, b: u8) -> (r: (Session, Vec<Action>))
    requires
        s@.inv(),
        s@.phase == Phase::AutobaudAck,
    ensures
        r.0@ == spec_step_byte(s@, b).0,
        acts(r.1@) == spec_step_byte(s@, b).1,
        r.0@.inv(),
{
    let ghost s0 = s@;
    let mut s2 = s;
    let mut a: Vec<Action> = Vec::new();
    proof {
        assert(acts(a@) =~= Seq::<ActionSpec>::empty());
    }
    let t = s2.read_timeout_ms;
    if b == ACK {
        if s2.flow == Flow::Flash {
            push_act(&mut a, Action::Note(LogLevel::Info, LogNote::Querying));
        }
        push_write_cmd(&mut a, CMD_GET);
        push_act(&mut a, Action::Read(t));
        s2.phase = Phase::GetAck;
        proof {
            assert(acts(a@) =~= spec_step_byte(s0, b).1);
            assert(s2@ =~= spec_step_byte(s0, b).0);
        }
    } else if s2.wakes < MAX_AUTOBAUD_ATTEMPTS {
        push_act(&mut a, Action::ClearInput);
        push_act(&mut a, Action::Sleep(100));
        push_wake(&mut a);
        push_act(&mut a, Action::Sleep(100));
        push_act(&mut a, Action::Read(t));
        s2.wakes = s2.wakes + 1;
        proof {
            assert(acts(a@) =~= spec_step_byte(s0, b).1);
            assert(s2@ =~= spec_step_byte(s0, b).0);
        }
    } else {
        s2 = fail_session(s2, ack_error(b));
    }
    (s2, a)
}

fn sb_get_tail(s: Session, b: u8) -> (r: (Session, Vec<Action>))
    requires
        s@.inv(),
        s@.phase == Phase::GetTail,
    ensures
        r.0@ == spec_step_byte(s@, b).0,
        acts(r.1@) == spec_step_byte(s@, b).1,
        r.0@.inv(),
{
    let ghost s0 = s@;
    let mut s2 = s;
    let mut a: Vec<Action> = Vec::new();
    proof {
        assert(acts(a@) =~= Seq::<ActionSpec>::empty());
    }
    let t = s2.read_timeout_ms;
    if b == ACK {
        if s2.flow == Flow::Identify {
            push_write_cmd(&mut a, CMD_GET_ID);
            push_act(&mut a, Action::Read(t));
            s2.phase = Phase::GetIdAck;
        } else if contains_byte(&s2.cmds, CMD_EXTENDED_ERASE) {
            push_act(&mut a, Action::Note(LogLevel::Info, LogNote::Erasing));
            push_write_cmd(&mut a, CMD_EXTENDED_ERASE);
            push_act(&mut a, Action::Read(t));
            s2.phase = Phase::EraseCmdAck { ext: true };
        } else if contains_byte(&s2.cmds, CMD_ERASE) {
            push_act(&mut a, Action::Note(LogLevel::Info, LogNote::Erasing));
            push_write_cmd(&mut a, CMD_ERASE);
            push_act(&mut a, Action::Read(t));
            s2.phase = Phase::EraseCmdAck { ext: false };
        } else {
            s2 = fail_session(s2, Error::NoEraseSupport);
        }
        proof {
            assert(acts(a@) =~= spec_step_byte(s0, b).1);
            assert(s2@ =~= spec_step_byte(s0, b).0);
        }
    } else {
        s2 = fail_session(s2, ack_error(b));
    }
    (s2, a)
}

fn sb_erase_cmd_ack(s: Session, b: u8, ext: bool) -> (r: (Session, Vec<Action>))
    requires
        s@.inv(),
        s@.phase == (Phase::EraseCmdAck { ext }),
    ensures
        r.0@ == spec_step_byte(s@, b).0,
        acts(r.1@) == spec_step_byte(s@, b).1,
        r.0@.inv(),
{
    let ghost s0 = s@;
    let mut s2 = s;
    let mut a: Vec<Action> = Vec::new();
    proof {
        assert(acts(a@) =~= Seq::<ActionSpec>::empty());
    }
    if b == ACK {
        let tr = if ext {
            ext_erase_trailer()
        } else {
            legacy_erase_trailer()
        };
        push_act(&mut a, Action::Write(tr));
        push_act(&mut a, Action::Read(ERASE_TIMEOUT_MS));
        s2.phase = Phase::EraseTail;
        proof {
            assert(acts(a@) =~= spec_step_byte(s0, b).1);
            assert(s2@ =~= spec_step_byte(s0, b).0);
        }
    } else {
        s2 = fail_session(s2, ack_error(b));
    }
    (s2, a)
}

fn sb_erase_tail(s: Session, b: u8) -> (r: (Session, Vec<Action>))
    requires
        s@.inv(),
        s@.phase == Phase::EraseTail,
    ensures
        r.0@ == spec_step_byte(s@, b).0,
        acts(r.1@) == spec_step_byte(s@, b).1,
        r.0@.inv(),
{
    let ghost s0 = s@;
    let mut s2 = s;
    let mut a: Vec<Action> = Vec::new();
    proof {
        assert(acts(a@) =~= Seq::<ActionSpec>::empty());
    }
    let t = s2.read_timeout_ms;
    if b == ACK {
        push_act(&mut a, Action::Note(LogLevel::Info, LogNote::Writing));
        if s2.next_chunk < s2.chunks.len() {
            push_write_cmd(&mut a, CMD_WRITE_MEMORY);
            push_act(&mut a, Action::Read(t));
            s2.phase = Phase::WriteCmdAck;
        } else {
            s2 = after_write_session(s2, &mut a);
        }
        proof {
            assert(acts(a@) =~= spec_step_byte(s0, b).1);
            assert(s2@ =~= spec_step_byte(s0, b).0);
        }
    } else {
        s2 = fail_session(s2, ack_error(b));
    }
    (s2, a)
}

fn sb_write_cmd_ack(s: Session, b: u8) -> (r: (Session, Vec<Action>))
    requires
        s@.inv(),
        s@.phase == Phase::WriteCmdAck,
    ensures
        r.0@ == spec_step_byte(s@, b).0,
        acts(r.1@) == spec_step_byte(s@, b).1,
        r.0@.inv(),
{
    let ghost s0 = s@;
    let mut s2 = s;
    let mut a: Vec<Action> = Vec::new();
    proof {
        assert(acts(a@) =~= Seq::<ActionSpec>::empty());
    }
    let t = s2.read_timeout_ms;
    if b == ACK {
        let addr = s2.chunks[s2.next_chunk].addr;
        let f = address_frame(addr);
        push_act(&mut a, Action::Write(f));
        push_act(&mut a, Action::Read(t));
        s2.phase = Phase::WriteAddrAck;
        proof {
            assert(s0.chunks[s0.next_chunk as int].0 == addr);
            assert(acts(a@) =~= spec_step_byte(s0, b).1);
            assert(s2@ =~= spec_step_byte(s0, b).0);
        }
    } else {
        s2 = fail_session(s2, ack_error(b));
    }
    (s2, a)
}

fn sb_write_addr_ack(s: Session, b: u8) -> (r: (Session, Vec<Action>))
    requires
        s@.inv(),
        s@.phase == Phase::WriteAddrAck,
    ensures
        r.0@ == spec_step_byte(s@, b).0,
        acts(r.1@) == spec_step_byte(s@, b).1,
        r.0@.inv(),
{
    let ghost s0 = s@;
    let mut s2 = s;
    let mut a: Vec<Action> = Vec::new();
    proof {
        assert(acts(a@) =~= Seq::<ActionSpec>::empty());
    }
    let t = s2.read_timeout_ms;
    if b == ACK {
        proof {
            assert(s0.chunks[s0.next_chunk as int].1 == s2.chunks@[s2.next_chunk as int].data@);
            assert(1 <= s0.chunks[s0.next_chunk as int].1.len() <= 256);
        }
        let f = write_payload_frame(s2.chunks[s2.next_chunk].data.as_slice());
        push_act(&mut a, Action::Write(f));
        push_act(&mut a, Action::Read(t));
        s2.phase = Phase::WriteDataAck;
        proof {
            assert(acts(a@) =~= spec_step_byte(s0, b).1);
            assert(s2@ =~= spec_step_byte(s0, b).0);
        }
    } else {
        s2 = fail_session(s2, ack_error(b));
    }
    (s2, a)
}

fn sb_write_data_ack(s: Session, b: u8) -> (r: (Session, Vec<Action>))
    requires
        s@.inv(),
        s@.phase == Phase::WriteDataAck,
    ensures
        r.0@ == spec_step_byte(s@, b).0,
        acts(r.1@) == spec_step_byte(s@, b).1,
        r.0@.inv(),
{
    let ghost s0 = s@;
    let mut s2 = s;
    let mut a: Vec<Action> = Vec::new();
    proof {
        assert(acts(a@) =~= Seq::<ActionSpec>::empty());
    }
    let t = s2.read_timeout_ms;
    if b == ACK {
        let len = s2.chunks[s2.next_chunk].data.len();
        let n_chunks = s2.chunks.len();
        proof {
            assert(s0.chunks[s0.next_chunk as int].1.len() == len);
            lemma_flat_take_succ(s0.chunks, s0.next_chunk as int);
            lemma_flat_take_le(s0.chunks, s0.next_chunk as int + 1);
            assert(s0.chunks.take(s0.chunks.len() as int) =~= s0.chunks);
            assert(s0.written + len <= s0.total);
            assert(s0.chunks.len() == n_chunks);
            assert(s2.next_chunk < n_chunks);
        }
        s2.written = s2.written + (len as u64);
        s2.next_chunk = s2.next_chunk + 1;
        push_act(&mut a, Action::Progress(s2.written, s2.total));
        if s2.next_chunk < s2.chunks.len() {
            push_write_cmd(&mut a, CMD_WRITE_MEMORY);
            push_act(&mut a, Action::Read(t));
            s2.phase = Phase::WriteCmdAck;
        } else {
            s2 = after_write_session(s2, &mut a);
        }
        proof {
            assert(acts(a@) =~= spec_step_byte(s0, b).1);
            assert(s2@ =~= spec_step_byte(s0, b).0);
        }
    } else {
        s2 = fail_session(s2, ack_error(b));
    }
    (s2, a)
}

fn sb_go_cmd_ack(s: Session, b: u8) -> (r: (Session, Vec<Action>))
    requires
        s@.inv(),
        s@.phase == Phase::GoCmdAck,
    ensures
        r.0@ == spec_step_byte(s@, b).0,
        acts(r.1@) == spec_step_byte(s@, b).1,
        r.0@.inv(),
{
    let ghost s0 = s@;
    let mut s2 = s;
    let mut a: Vec<Action> = Vec::new();
    proof {
        assert(acts(a@) =~= Seq::<ActionSpec>::empty());
    }
    let t = s2.read_timeout_ms;
    if b == ACK {
        let f = address_frame(LAUNCH_ADDRESS);
        push_act(&mut a, Action::Write(f));
        push_act(&mut a, Action::Read(t));
        s2.phase = Phase::GoAddrAck;
        proof {
            assert(acts(a@) =~= spec_step_byte(s0, b).1);
            assert(s2@ =~= spec_step_byte(s0, b).0);
        }
    } else {
        s2 = go_fallback_session(s2, &mut a, ack_error(b));
        proof {
            assert(acts(a@) =~= spec_step_byte(s0, b).1);
        }
    }
    (s2, a)
}

fn sb_go_addr_ack(s: Session, b: u8) -> (r: (Session, Vec<Action>))
    requires
        s@.inv(),
        s@.phase == Phase::GoAddrAck,
    ensures
        r.0@ == spec_step_byte(s@, b).0,
        acts(r.1@) == spec_step_byte(s@, b).1,
        r.0@.inv(),
{
    let ghost s0 = s@;
    let mut s2 = s;
    let mut a: Vec<Action> = Vec::new();
    proof {
        assert(acts(a@) =~= Seq::<ActionSpec>::empty());
    }
    if b == ACK {
        push_act(&mut a, Action::Note(LogLevel::Info, LogNote::ProgramStarted));
        if s2.verify {
            push_act(&mut a, Action::Note(LogLevel::Warn, LogNote::VerifySkipped));
        }
        s2.outcome = Some(Outcome::Flashed);
        s2.phase = Phase::Done;
        proof {
            assert(acts(a@) =~= spec_step_byte(s0, b).1);
            assert(s2@ =~= spec_step_byte(s0, b).0);
        }
    } else {
        s2 = go_fallback_session(s2, &mut a, ack_error(b));
        proof {
            assert(acts(a@) =~= spec_step_byte(s0, b).1);
        }
    }
    (s2, a)
}

fn step_byte(s: Session, b: u8) -> (r: (Session, Vec<Action>))
    requires
        s@.inv(),
        s@.expects(EventSpec::Byte(b)),
    ensures
        r.0@ == spec_step_byte(s@, b).0,
        acts(r.1@) == spec_step_byte(s@, b).1,
        r.0@.inv(),
{
    let ghost s0 = s@;
    let ph = s.phase;
    match ph {
        Phase::AutobaudAck => sb_autobaud(s, b),
        Phase::GetTail => sb_get_tail(s, b),
        Phase::EraseCmdAck { ext } => sb_erase_cmd_ack(s, b, ext),
        Phase::EraseTail => sb_erase_tail(s, b),
        Phase::WriteCmdAck => sb_write_cmd_ack(s, b),
        Phase::WriteAddrAck => sb_write_addr_ack(s, b),
        Phase::WriteDataAck => sb_write_data_ack(s, b),
        Phase::GoCmdAck => sb_go_cmd_ack(s, b),
        Phase::GoAddrAck => sb_go_addr_ack(s, b),
        _ => {
            let mut s2 = s;
            let mut a: Vec<Action> = Vec::new();
            proof {
                assert(acts(a@) =~= Seq::<ActionSpec>::empty());
            }
            let t = s2.read_timeout_ms;
            match s2.phase {
                Phase::GetAck => {
                    if b == ACK {
                        push_act(&mut a, Action::Read(t));
                        s2.phase = Phase::GetLen;
                    } else {
                        s2 = fail_session(s2, ack_error(b));
                    }
                },
                Phase::GetLen => {
                    push_act(&mut a, Action::Read(t));
                    s2.phase = Phase::GetVersion { n: b };
                },
                Phase::GetVersion { n } => {
                    s2.version = b;
                    if n > 0 {
                        push_act(&mut a, Action::ReadExact(n as usize));
                        s2.phase = Phase::GetBody { n };
                    } else {
                        s2.cmds = Vec::new();
                        push_act(&mut a, Action::Read(t));
                        s2.phase = Phase::GetTail;
                    }
                    proof {
                        assert(s2@ =~= spec_step_byte(s0, b).0);
                    }
                },
                Phase::GetIdAck => {
                    if b == ACK {
                        push_act(&mut a, Action::Read(t));
                        s2.phase = Phase::GetIdLen;
                    } else {
                        s2 = id_done_session(s2, None);
                    }
                },
                Phase::GetIdLen => {
                    push_act(&mut a, Action::ReadExact(b as usize + 1));
                    s2.phase = Phase::GetIdBody { n: b };
                },
                Phase::GetIdTail => {
                    if b == ACK {
                        let pid = if s2.pid_bytes.len() == 2 {
                            Some((s2.pid_bytes[0] as u16) * 256 + (s2.pid_bytes[1] as u16))
                        } else if s2.pid_bytes.len() == 1 {
                            Some(s2.pid_bytes[0] as u16)
                        } else {
                            None
                        };
                        s2 = id_done_session(s2, pid);
                    } else {
                        s2 = id_done_session(s2, None);
                    }
                },
                _ => {
                    proof {
                        assert(false);
                    }
                },
            }
            (s2, a)
        },
    }
}

fn step_timeout(s: Session) -> (r: (Session, Vec<Action>))
    requires
        s@.inv(),
        s@.expects(EventSpec::TimedOut),
    ensures
        r.0@ == spec_step_timeout(s@).0,
        acts(r.1@) == spec_step_timeout(s@).1,
        r.0@.inv(),
{
    let ghost s0 = s@;
    let mut s2 = s;
    let mut a: Vec<Action> = Vec::new();
    proof {
        assert(acts(a@) =~= Seq::<ActionSpec>::empty());
    }
    let t = s2.read_timeout_ms;
    match s2.phase {
        Phase::AutobaudAck => {
            if s2.wakes < MAX_AUTOBAUD_ATTEMPTS {
                push_act(&mut a, Action::Sleep(50));
                push_wake(&mut a);
                push_act(&mut a, Action::Sleep(100));
                push_act(&mut a, Action::Read(t));
                s2.wakes = s2.wakes + 1;
                proof {
                    assert(acts(a@) =~= spec_step_timeout(s0).1);
                    assert(s2@ =~= spec_step_timeout(s0).0);
                }
            } else {
                s2 = fail_session(s2, Error::Timeout);
            }
        },
        Phase::GetIdAck => {
            s2 = id_done_session(s2, None);
        },
        Phase::GetIdLen => {
            s2 = id_done_session(s2, None);
        },
        Phase::GetIdTail => {
            s2 = id_done_session(s2, None);
        },
        Phase::GoCmdAck => {
            s2 = go_fallback_session(s2, &mut a, Error::Timeout);
            proof {
                assert(acts(a@) =~= spec_step_timeout(s0).1);
            }
        },
        Phase::GoAddrAck => {
            s2 = go_fallback_session(s2, &mut a, Error::Timeout);
            proof {
                assert(acts(a@) =~= spec_step_timeout(s0).1);
            }
        },
        _ => {
            s2 = fail_session(s2, Error::Timeout);
        },
    }
    (s2, a)
}

fn step_bytes(s: Session, v: Vec<u8>) -> (r: (Session, Vec<Action>))
    requires
        s@.inv(),
        s@.expects(EventSpec::Bytes(v@)),
    ensures
        r.0@ == spec_step_bytes(s@, v@).0,
        acts(r.1@) == spec_step_bytes(s@, v@).1,
        r.0@.inv(),
{
    let ghost s0 = s@;
    let mut s2 = s;
    let mut a: Vec<Action> = Vec::new();
    proof {
        assert(acts(a@) =~= Seq::<ActionSpec>::empty());
    }
    let t = s2.read_timeout_ms;
    match s2.phase {
        Phase::GetBody { .. } => {
            s2.cmds = v;
            push_act(&mut a, Action::Read(t));
            s2.phase = Phase::GetTail;
            proof {
                assert(acts(a@) =~= spec_step_bytes(s0, s2.cmds@).1);
                assert(s2@ =~= spec_step_bytes(s0, s2.cmds@).0);
            }
        },
        Phase::GetIdBody { .. } => {
            s2.pid_bytes = v;
            push_act(&mut a, Action::Read(t));
            s2.phase = Phase::GetIdTail;
            proof {
                assert(acts(a@) =~= spec_step_bytes(s0, s2.pid_bytes@).1);
                assert(s2@ =~= spec_step_bytes(s0, s2.pid_bytes@).0);
            }
        },
        _ => {
            proof {
                assert(false);
            }
        },
    }
    (s2, a)
}

fn step_completed(s: Session) -> (r: (Session, Vec<Action>))
    requires
        s@.inv(),
        s@.expects(EventSpec::Completed),
    ensures
        r.0@ == spec_step_completed(s@).0,
        acts(r.1@) == spec_step_completed(s@).1,
        r.0@.inv(),
{
    let mut s2 = s;
    let a: Vec<Action> = Vec::new();
    proof {
        assert(acts(a@) =~= Seq::<ActionSpec>::empty());
    }
    match s2.phase {
        Phase::Finishing => {
            s2.outcome = Some(Outcome::Flashed);
            s2.phase = Phase::Done;
            proof {
                assert(s2@ =~= spec_step_completed(s@).0);
            }
        },
        _ => {
            proof {
                assert(false);
            }
        },
    }
    (s2, a)
}

fn step_failed(s: Session, e: Error) -> (r: (Session, Vec<Action>))
    requires
        s@.inv(),
        s@.expects(EventSpec::Failed(e@)),
    ensures
        r.0@ == spec_step_failed(s@, e@).0,
        acts(r.1@) == spec_step_failed(s@, e@).1,
        r.0@.inv(),
{
    let ghost s0 = s@;
    let mut s2 = s;
    let mut a: Vec<Action> = Vec::new();
    proof {
        assert(acts(a@) =~= Seq::<ActionSpec>::empty());
    }
    match s2.phase {
        Phase::GetIdAck => {
            s2 = id_done_session(s2, None);
        },
        Phase::GetIdLen => {
            s2 = id_done_session(s2, None);
        },
        Phase::GetIdBody { .. } => {
            s2 = id_done_session(s2, None);
        },
        Phase::GetIdTail => {
            s2 = id_done_session(s2, None);
        },
        Phase::GoCmdAck => {
            let ghost e0 = e@;
            s2 = go_fallback_session(s2, &mut a, e);
            proof {
                assert(acts(a@) =~= spec_step_failed(s0, e0).1);
            }
        },
        Phase::GoAddrAck => {
            let ghost e0 = e@;
            s2 = go_fallback_session(s2, &mut a, e);
            proof {
                assert(acts(a@) =~= spec_step_failed(s0, e0).1);
            }
        },
        _ => {
            s2 = fail_session(s2, e);
        },
    }
    (s2, a)
}

/// One transition: consumes the session and the reported event, and
/// returns the next session with the actions the shell must run.
pub fn step(s: Session, ev: Event) -> (r: (Session, Vec<Action>))
    requires
        s@.inv(),
        s@.expects(ev@),
    ensures
        r.0@ == spec_step(s@, ev@).0,
        acts(r.1@) == spec_step(s@, ev@).1,
        r.0@.inv(),
{
    match ev {
        Event::Byte(b) => step_byte(s, b),
        Event::TimedOut => step_timeout(s),
        Event::Bytes(v) => step_bytes(s, v),
        Event::Completed => step_completed(s),
        Event::Failed(e) => step_failed(s, e),
    }
}

/// The autobaud entry: clear pending input twice with a settle pause,
/// send the first wake byte, and await its acknowledgement.
pub open spec fn spec_autobaud_entry(t: u64) -> Seq<ActionSpec> {
    seq![
        ActionSpec::ClearInput,
        ActionSpec::Sleep(50),
        ActionSpec::ClearInput,
        ActionSpec::Write(seq![WAKE]),
        ActionSpec::Sleep(100),
        ActionSpec::Read(t),
    ]
}

/// A fresh identify session.
pub open spec fn spec_identify_session(opts: FlashOptions) -> SessionSpec {
    SessionSpec {
        flow: Flow::Identify,
        read_timeout_ms: opts.read_timeout_ms,
        reset_after: opts.reset_after,
        verify: opts.verify,
        wakes: 1,
        version: 0,
        cmds: Seq::empty(),
        chunks: Seq::empty(),
        next_chunk: 0,
        written: 0,
        total: 0,
        pid_bytes: Seq::empty(),
        phase: Phase::AutobaudAck,
        outcome: None,
    }
}

/// What an identify session asks the shell to do first.
pub open spec fn spec_identify_entry(opts: FlashOptions) -> Seq<ActionSpec> {
    spec_boot_actions(opts.boot_mode) + spec_autobaud_entry(opts.read_timeout_ms)
}

/// What a flash session asks the shell to do first.
pub open spec fn spec_flash_entry(opts: FlashOptions, total: u64) -> Seq<ActionSpec> {
    seq![ActionSpec::Note(LogLevel::Info, LogNoteSpec::FirmwareLoaded(total))]
        + spec_boot_actions(opts.boot_mode) + seq![
        ActionSpec::Note(LogLevel::Info, LogNoteSpec::Connecting),
    ] + spec_autobaud_entry(opts.read_timeout_ms)
}

fn push_autobaud_entry(a: &mut Vec<Action>, t: u64)
    ensures
        acts(final(a)@) == acts(old(a)@) + spec_autobaud_entry(t),
{
    let ghost a0 = acts(a@);
    push_act(a, Action::ClearInput);
    push_act(a, Action::Sleep(50));
    push_act(a, Action::ClearInput);
    push_wake(a);
    push_act(a, Action::Sleep(100));
    push_act(a, Action::Read(t));
    proof {
        assert(acts(a@) =~= a0 + spec_autobaud_entry(t));
    }
}

/// Begins an identify session: the boot-entry pulses, then the
/// autobaud handshake with its first wake byte.
pub fn identify(options: &FlashOptions) -> (r: (Session, Vec<Action>))
    ensures
        r.0@ == spec_identify_session(*options),
        acts(r.1@) == spec_identify_entry(*options),
        r.0@.inv(),
{
    let mut a: Vec<Action> = Vec::new();
    proof {
        assert(acts(a@) =~= Seq::<ActionSpec>::empty());
    }
    push_boot_actions(&mut a, options.boot_mode);
    push_autobaud_entry(&mut a, options.read_timeout_ms);
    let s = Session {
        flow: Flow::Identify,
        read_timeout_ms: options.read_timeout_ms,
        reset_after: options.reset_after,
        verify: options.verify,
        wakes: 1,
        version: 0,
        cmds: Vec::new(),
        chunks: Vec::new(),
        next_chunk: 0,
        written: 0,
        total: 0,
        pid_bytes: Vec::new(),
        phase: Phase::AutobaudAck,
        outcome: None,
    };
    proof {
        assert(chunks_view(Seq::<Chunk>::empty()) =~= Seq::<(u32, Seq<u8>)>::empty());
        assert(s@ =~= spec_identify_session(*options));
        assert(acts(a@) =~= spec_identify_entry(*options));
        assert(Seq::<(u32, Seq<u8>)>::empty().take(0) =~= Seq::<(u32, Seq<u8>)>::empty());
    }
    (s, a)
}

/// Begins a flash session from an Intel HEX text: parses the image,
/// coalesces it into blocks and write-memory chunks, and hands back
/// the session with its first actions. The chunks cover exactly the
/// parsed image's bytes in ascending address order, each within one
/// write-memory transfer.
pub fn flash_hex(text: &[u8], options: &FlashOptions) -> (r: Result<(Session, Vec<Action>), Error>)
    ensures
        match r {
            Ok(p) => {
                &&& spec_parse_image(text@) matches Ok(m) && seq_to_map(chunk_flat(p.0@.chunks))
                    == m
                &&& sorted_by_addr(chunk_flat(p.0@.chunks))
                &&& chunk_flat(p.0@.chunks).len() > 0
                &&& forall|k: int|
                    0 <= k < p.0@.chunks.len() ==> 1 <= (#[trigger] p.0@.chunks[k]).1.len() <= 256
                &&& forall|k: int|
                    0 <= k < p.0@.chunks.len() - 1 ==> ((#[trigger] p.0@.chunks[k + 1]).0
                        == p.0@.chunks[k].0 + p.0@.chunks[k].1.len() ==> p.0@.chunks[k].1.len()
                        == 256)
                &&& p.0@ == (SessionSpec {
                    flow: Flow::Flash,
                    read_timeout_ms: options.read_timeout_ms,
                    reset_after: options.reset_after,
                    verify: options.verify,
                    wakes: 1,
                    version: 0,
                    cmds: Seq::empty(),
                    chunks: p.0@.chunks,
                    next_chunk: 0,
                    written: 0,
                    total: chunk_flat(p.0@.chunks).len() as u64,
                    pid_bytes: Seq::empty(),
                    phase: Phase::AutobaudAck,
                    outcome: None,
                })
                &&& acts(p.1@) == spec_flash_entry(*options, p.0@.total)
                &&& p.0@.inv()
            },
            Err(e) => {
                ||| (spec_parse_image(text@) matches Err(h) && e@ == ErrorSpec::Hex(
                    spec_hex_err_text(h),
                ))
                ||| (spec_parse_image(text@) matches Ok(m) && m == Map::<u32, u8>::empty() && e@
                    == ErrorSpec::HexFileEmpty)
            },
        },
{
    let image = match parse_hex_to_image(text) {
        Ok(i) => i,
        Err(e) => {
            return Err(e);
        },
    };
    let blocks = image_to_blocks(&image);
    let chunks = chunks_of_blocks(&blocks);
    let n_chunks = chunks.len();
    let total = image.len() as u64;
    proof {
        assert(chunks_view(chunks@).len() == n_chunks);
        lemma_chunks_view_flat(chunks@);
        assert(chunk_flat(chunks_view(chunks@)) == image@);
        assert(forall|k: int|
            0 <= k < chunks_view(chunks@).len() ==> 1 <= (#[trigger] chunks_view(chunks@)[
                k]).1.len() <= 256) by {
            assert(forall|k: int|
                0 <= k < chunks@.len() ==> chunks_view(chunks@)[k].1 == (#[trigger] chunks@[
                    k]).data@);
        }
        assert(chunks_view(chunks@).take(0) =~= Seq::<(u32, Seq<u8>)>::empty());
        assert(forall|k: int|
            0 <= k < chunks_view(chunks@).len() - 1 ==> ((#[trigger] chunks_view(chunks@)[
                k + 1]).0 == chunks_view(chunks@)[k].0 + chunks_view(chunks@)[k].1.len()
                ==> chunks_view(chunks@)[k].1.len() == 256)) by {
            assert(forall|k: int|
                0 <= k < chunks@.len() ==> chunks_view(chunks@)[k] == ((#[trigger] chunks@[
                    k]).addr, chunks@[k].data@));
        }
    }
    let mut a: Vec<Action> = Vec::new();
    proof {
        assert(acts(a@) =~= Seq::<ActionSpec>::empty());
    }
    push_act(&mut a, Action::Note(LogLevel::Info, LogNote::FirmwareLoaded(total)));
    push_boot_actions(&mut a, options.boot_mode);
    push_act(&mut a, Action::Note(LogLevel::Info, LogNote::Connecting));
    push_autobaud_entry(&mut a, options.read_timeout_ms);
    let s = Session {
        flow: Flow::Flash,
        read_timeout_ms: options.read_timeout_ms,
        reset_after: options.reset_after,
        verify: options.verify,
        wakes: 1,
        version: 0,
        cmds: Vec::new(),
        chunks,
        next_chunk: 0,
        written: 0,
        total,
        pid_bytes: Vec::new(),
        phase: Phase::AutobaudAck,
        outcome: None,
    };
    proof {
        assert(acts(a@) =~= spec_flash_entry(*options, total));
        assert(s@.inv());
    }
    Ok((s, a))
}

} // verus!

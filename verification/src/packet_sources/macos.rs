//! The named-pipe packet source: IPC message types, their framing, and
//! the event-multiplexing task as an explicit state machine.
//!
//! The surrounding process owns the transport and the four event
//! sources (shutdown signal, control handle, transport readability,
//! outbound commands).  Whenever one becomes ready it hands the
//! outcome to [`MacosTask::step`], which decides the next state and
//! the single action to perform.  Every policy of the task — fatal
//! disconnects, drop-not-block delivery, best-effort configuration
//! forwarding, bounded-backoff reconnection, drain-then-stop shutdown
//! — is a clause of [`step_rel`], the relation `step` is proved to
//! implement.

use vstd::prelude::*;

use vstd::string::StringExecFns;
use vstd::utf8::{decode_utf8, encode_utf8};

use crate::framing::{
    decode_spec, decodes_ok, encode_control, encode_control_spec, encode_data, encode_data_spec,
    parse_wire, push_field, string_from_utf8, FrameError, IPC_BUF_SIZE, PAYLOAD_KEY,
};
use crate::intercept_conf::InterceptConf;
use crate::messages::{
    checksum_ok, repaired, valid_ip_packet, NetworkCommand, NetworkEvent, Packet, TunnelInfo,
};
use crate::queue::BoundedQueue;

verus! {

/// A message sent to the helper process: a raw packet to reinject, or
/// a new intercept rule set.
#[derive(Debug, PartialEq, Eq)]
pub enum MacosIpcSend {
    Packet(Vec<u8>),
    SetIntercept(InterceptConf),
}

/// A message received from the helper process: one captured packet and
/// the name of the process it was attributed to.
#[derive(Debug, PartialEq, Eq)]
pub enum MacosIpcRecv {
    Packet { data: Vec<u8>, process_name: Option<String> },
}

/// Frames one packet for the wire.  Only data messages are serialized
/// here — the attribution field flows inbound only, so it is left
/// empty.
pub fn serialize_packet(raw_packet: MacosIpcSend) -> (buf: Vec<u8>)
    requires
        raw_packet is Packet,
    ensures
        raw_packet matches MacosIpcSend::Packet(data) ==> buf@ == encode_data_spec(
            data@,
            Seq::<u8>::empty(),
        ),
{
    match raw_packet {
        MacosIpcSend::Packet(data) => {
            let mut buf: Vec<u8> = Vec::new();
            if data.len() > 0 {
                push_field(&mut buf, PAYLOAD_KEY, &data);
            }
            proof {
                assert(buf@ =~= encode_data_spec(data@, Seq::<u8>::empty()));
            }
            buf
        },
        MacosIpcSend::SetIntercept(_) => {
            proof {
                assert(false);
            }
            Vec::new()
        },
    }
}

/// Parses one received buffer as a packet message.  Succeeds exactly
/// on well-formed frames whose attribution is UTF-8; the process name
/// is always reported, an absent attribution field as the empty name.
pub fn deserialize_packet(buf: &[u8]) -> (r: Result<MacosIpcRecv, FrameError>)
    ensures
        match r {
            Ok(m) => {
                &&& decodes_ok(buf@)
                &&& m matches MacosIpcRecv::Packet { data, process_name }
                &&& data@ == decode_spec(buf@)->Some_0.payload
                &&& process_name matches Some(s)
                &&& s@ == decode_utf8(decode_spec(buf@)->Some_0.attribution)
            },
            Err(e) => !decodes_ok(buf@) && e == FrameError::Malformed,
        },
{
    let (payload, attribution, _conf) = parse_wire(buf)?;
    match string_from_utf8(attribution) {
        None => Err(FrameError::Malformed),
        Some(s) => Ok(MacosIpcRecv::Packet { data: payload, process_name: Some(s) }),
    }
}

/// Why a task stopped.
#[derive(Debug, PartialEq, Eq, Structural, Clone, Copy)]
pub enum TaskOutcome {
    /// The shutdown signal fired and the task drained normally.
    GracefulShutdown,
    /// A zero-length read: the helper process closed its end.
    PeerDisconnected,
    /// A read failed with an error other than would-block.
    ReadFailed,
    /// An unrecoverable error while opening or writing the write
    /// endpoint.
    WriteFailed,
}

/// What a readiness-triggered `try_read` produced.
pub enum ReadOutcome {
    /// The readiness event was a false positive; retry later.
    WouldBlock,
    /// One frame was read.
    Data(Vec<u8>),
    /// A successful read of length zero: the peer disconnected.
    Closed,
    /// Any read error other than would-block: fatal, reported as its
    /// own cause.
    Failed,
}

/// What an attempt to open the write endpoint produced.
pub enum OpenOutcome {
    Opened,
    /// The peer is not listening yet — expected transiently while the
    /// helper starts up.
    NotListening,
    /// Any other open error.
    Failed,
}

/// What a readiness-triggered `try_write` produced.
pub enum WriteOutcome {
    Written,
    /// The readiness event was a false positive; retry without delay.
    WouldBlock,
    /// Any other write error.
    Failed,
}

/// One of the four multiplexed wait conditions becoming ready, or the
/// outcome of an open or write attempt the task asked for.
pub enum TaskEvent {
    ShutdownSignal,
    Control(MacosIpcSend),
    TransportReadable(ReadOutcome),
    Outbound(NetworkCommand),
    WriteEndpoint(OpenOutcome),
    TransportWrite(WriteOutcome),
}

/// The single action the surrounding process performs after a step.
pub enum TaskAction {
    /// Wait for the next event.
    Wait,
    /// Best-effort write of a control frame to the transport; a
    /// failure is logged, never fatal.
    ForwardFrame(Vec<u8>),
    /// Offer one event to the inbound sink without blocking; drop it
    /// with a warning if the sink is saturated.
    DeliverInbound(NetworkEvent),
    /// Try to open the write endpoint, reporting an `OpenOutcome`.
    OpenWriteEndpoint,
    /// Sleep the configured backoff, then try to open again.
    RetryOpenAfterDelay,
    /// Wait for writability and try to write the pending frame,
    /// reporting a `WriteOutcome`.
    AttemptWrite,
    /// The task has terminated; release the transport.
    Stop,
}

/// Where the task stands.
pub enum TaskPhase {
    /// Transport open, loop not yet entered.
    Starting,
    /// Waiting on the four-way select.
    Running,
    /// Holding an encoded frame, trying to open the write endpoint.
    OpeningWrite { frame: Vec<u8>, draining: bool },
    /// Holding an encoded frame, writing it.
    WritingFrame { frame: Vec<u8>, draining: bool },
    /// Shutdown observed with no write in flight; about to stop.
    Draining,
    /// Loop exited; the transport is to be released.
    Terminated { outcome: TaskOutcome },
}

/// The shutdown signal has been observed.
pub open spec fn shutdown_seen(p: TaskPhase) -> bool {
    match p {
        TaskPhase::Draining => true,
        TaskPhase::Terminated { .. } => true,
        TaskPhase::OpeningWrite { draining, .. } => draining,
        TaskPhase::WritingFrame { draining, .. } => draining,
        _ => false,
    }
}

/// The action delivers one repaired inbound packet: valid, with the
/// checksum its header fields require, and carrying the given
/// attribution.
pub open spec fn delivers_packet(act: TaskAction, payload: Seq<u8>, name: Option<Seq<char>>) -> bool {
    &&& act matches TaskAction::DeliverInbound(
        NetworkEvent::ReceivePacket { packet, tunnel_info },
    )
    &&& packet.valid()
    &&& packet@ == repaired(payload)
    &&& checksum_ok(packet@)
    &&& tunnel_info matches TunnelInfo::Macos { process_name }
    &&& match (process_name, name) {
        (Some(s), Some(cs)) => s@ == cs,
        (None, None) => true,
        _ => false,
    }
}

/// What servicing a control message in the running state does: a rule
/// set that fits the transport buffer is forwarded, encoded as a
/// control frame; an oversized one is dropped with a warning.
pub open spec fn forwards_conf(act: TaskAction, conf: Seq<u8>) -> bool {
    if encode_control_spec(conf).len() <= IPC_BUF_SIZE {
        act matches TaskAction::ForwardFrame(v) && v@ == encode_control_spec(conf)
    } else {
        act is Wait
    }
}

/// What servicing a received frame does: a malformed frame is dropped,
/// a frame whose payload is not a valid packet is dropped, and any
/// other frame is delivered with its checksum repaired and its
/// attribution attached.  Never fatal.
pub open spec fn reads_frame(act: TaskAction, b: Seq<u8>) -> bool {
    if !decodes_ok(b) {
        act is Wait
    } else {
        let f = decode_spec(b)->Some_0;
        if !valid_ip_packet(f.payload) {
            act is Wait
        } else {
            delivers_packet(act, f.payload, Some(decode_utf8(f.attribution)))
        }
    }
}

/// What servicing an injected packet does: a valid packet is delivered
/// as a synthetic inbound event without attribution; anything else is
/// dropped.
pub open spec fn injects_packet(act: TaskAction, b: Seq<u8>) -> bool {
    if valid_ip_packet(b) {
        delivers_packet(act, b, None)
    } else {
        act is Wait
    }
}

/// The complete step relation of the task: for every phase and event,
/// the next phase and the action taken.  `step` is proved to implement
/// it.
pub open spec fn step_rel(pre: TaskPhase, ev: TaskEvent, post: TaskPhase, act: TaskAction) -> bool {
    match pre {
        TaskPhase::Terminated { outcome } => {
            post == TaskPhase::Terminated { outcome } && act is Stop
        },
        _ => {
            if ev matches TaskEvent::TransportReadable(ReadOutcome::Closed) {
                // A zero-length read is a disconnect: fatal wherever it
                // is observed.
                post == TaskPhase::Terminated { outcome: TaskOutcome::PeerDisconnected }
                    && act is Stop
            } else if ev matches TaskEvent::TransportReadable(ReadOutcome::Failed) {
                // Any other read error is fatal too, under its own
                // outcome so the embedding process can tell the causes
                // apart.
                post == TaskPhase::Terminated { outcome: TaskOutcome::ReadFailed } && act is Stop
            } else {
                match pre {
                    TaskPhase::Starting => post is Starting && act is Wait,
                    TaskPhase::Running => match ev {
                        TaskEvent::ShutdownSignal => post is Draining && act is Wait,
                        TaskEvent::Control(MacosIpcSend::SetIntercept(conf)) => post is Running
                            && forwards_conf(act, conf@),
                        TaskEvent::Control(MacosIpcSend::Packet(bytes)) => post is Running
                            && injects_packet(act, bytes@),
                        TaskEvent::TransportReadable(ReadOutcome::Data(buf)) => post is Running
                            && reads_frame(act, buf@),
                        TaskEvent::Outbound(NetworkCommand::SendPacket(p)) => {
                            if encode_data_spec(p@, Seq::<u8>::empty()).len() <= IPC_BUF_SIZE {
                                &&& post matches TaskPhase::OpeningWrite {
                                    frame: f2,
                                    draining: d2,
                                }
                                &&& f2@ == encode_data_spec(p@, Seq::<u8>::empty())
                                &&& d2 == false
                                &&& act is OpenWriteEndpoint
                            } else {
                                post is Running && act is Wait
                            }
                        },
                        _ => post is Running && act is Wait,
                    },
                    TaskPhase::OpeningWrite { frame, draining } => match ev {
                        TaskEvent::WriteEndpoint(OpenOutcome::Opened) => {
                            &&& post matches TaskPhase::WritingFrame { frame: f2, draining: d2 }
                            &&& f2@ == frame@
                            &&& d2 == draining
                            &&& act is AttemptWrite
                        },
                        TaskEvent::WriteEndpoint(OpenOutcome::NotListening) => {
                            &&& post matches TaskPhase::OpeningWrite { frame: f2, draining: d2 }
                            &&& f2@ == frame@
                            &&& d2 == draining
                            &&& act is RetryOpenAfterDelay
                        },
                        TaskEvent::WriteEndpoint(OpenOutcome::Failed) => post
                            == TaskPhase::Terminated { outcome: TaskOutcome::WriteFailed }
                            && act is Stop,
                        TaskEvent::ShutdownSignal => {
                            &&& post matches TaskPhase::OpeningWrite { frame: f2, draining: d2 }
                            &&& f2@ == frame@
                            &&& d2 == true
                            &&& act is Wait
                        },
                        _ => {
                            &&& post matches TaskPhase::OpeningWrite { frame: f2, draining: d2 }
                            &&& f2@ == frame@
                            &&& d2 == draining
                            &&& act is Wait
                        },
                    },
                    TaskPhase::WritingFrame { frame, draining } => match ev {
                        TaskEvent::TransportWrite(WriteOutcome::Written) => {
                            if draining {
                                post == TaskPhase::Terminated {
                                    outcome: TaskOutcome::GracefulShutdown,
                                } && act is Stop
                            } else {
                                post is Running && act is Wait
                            }
                        },
                        TaskEvent::TransportWrite(WriteOutcome::WouldBlock) => {
                            &&& post matches TaskPhase::WritingFrame { frame: f2, draining: d2 }
                            &&& f2@ == frame@
                            &&& d2 == draining
                            &&& act is AttemptWrite
                        },
                        TaskEvent::TransportWrite(WriteOutcome::Failed) => post
                            == TaskPhase::Terminated { outcome: TaskOutcome::WriteFailed }
                            && act is Stop,
                        TaskEvent::ShutdownSignal => {
                            &&& post matches TaskPhase::WritingFrame { frame: f2, draining: d2 }
                            &&& f2@ == frame@
                            &&& d2 == true
                            &&& act is AttemptWrite
                        },
                        _ => {
                            &&& post matches TaskPhase::WritingFrame { frame: f2, draining: d2 }
                            &&& f2@ == frame@
                            &&& d2 == draining
                            &&& act is Wait
                        },
                    },
                    TaskPhase::Draining => post is Draining && act is Wait,
                    TaskPhase::Terminated { .. } => false,
                }
            }
        },
    }
}

/// Law: disconnect detection.  A zero-length read — wherever it is
/// observed before termination — moves the task to `Terminated` with
/// the fatal `PeerDisconnected` outcome, never back to `Running`.
pub proof fn lemma_zero_read_is_fatal(
    pre: TaskPhase,
    outcome: ReadOutcome,
    post: TaskPhase,
    act: TaskAction,
)
    requires
        !(pre is Terminated),
        outcome is Closed,
        step_rel(pre, TaskEvent::TransportReadable(outcome), post, act),
    ensures
        post == (TaskPhase::Terminated { outcome: TaskOutcome::PeerDisconnected }),
        !(post is Running),
        act is Stop,
{
}

/// Law: reconnect on write, safety half.  A "peer not listening"
/// outcome while opening the write endpoint is never fatal on its own:
/// the task keeps the frame, stays in the opening state, and asks for
/// a delayed retry.
pub proof fn lemma_not_listening_never_fatal(
    frame: Seq<u8>,
    pre: TaskPhase,
    post: TaskPhase,
    act: TaskAction,
)
    requires
        pre matches TaskPhase::OpeningWrite { frame: f, .. } && f@ == frame,
        step_rel(pre, TaskEvent::WriteEndpoint(OpenOutcome::NotListening), post, act),
    ensures
        post matches TaskPhase::OpeningWrite { frame: f2, .. } && f2@ == frame,
        !(post is Terminated),
        act is RetryOpenAfterDelay,
{
}

/// Law: reconnect on write, progress half.  However many "peer not
/// listening" outcomes have been retried, the frame is still held; the
/// first successful open moves to the writing state and the write of
/// exactly that frame is attempted.
pub proof fn lemma_reconnect_retries_then_writes(
    frame: Seq<u8>,
    phases: Seq<TaskPhase>,
    acts: Seq<TaskAction>,
    post: TaskPhase,
    act: TaskAction,
)
    requires
        phases.len() >= 1,
        phases.len() == acts.len() + 1,
        phases[0] matches TaskPhase::OpeningWrite { frame: f, .. } && f@ == frame,
        forall|i: int|
            0 <= i < acts.len() ==> step_rel(
                phases[i],
                TaskEvent::WriteEndpoint(OpenOutcome::NotListening),
                phases[i + 1],
                #[trigger] acts[i],
            ),
        step_rel(
            phases[phases.len() - 1],
            TaskEvent::WriteEndpoint(OpenOutcome::Opened),
            post,
            act,
        ),
    ensures
        forall|i: int| 0 <= i < acts.len() ==> #[trigger] acts[i] is RetryOpenAfterDelay,
        forall|i: int|
            0 <= i < phases.len() ==> !((#[trigger] phases[i]) is Terminated),
        post matches TaskPhase::WritingFrame { frame: f2, .. } && f2@ == frame,
        act is AttemptWrite,
    decreases phases.len(),
{
    if acts.len() == 0 {
    } else {
        lemma_not_listening_never_fatal(frame, phases[0], phases[1], acts[0]);
        lemma_reconnect_retries_then_writes(
            frame,
            phases.drop_first(),
            acts.drop_first(),
            post,
            act,
        );
        assert forall|i: int| 0 <= i < acts.len() implies #[trigger] acts[i]
            is RetryOpenAfterDelay by {
            if i > 0 {
                assert(acts.drop_first()[i - 1] is RetryOpenAfterDelay);
            }
        };
        assert forall|i: int| 0 <= i < phases.len() implies !((#[trigger] phases[i])
            is Terminated) by {
            if i > 0 {
                assert(!(phases.drop_first()[i - 1] is Terminated));
            }
        };
    }
}

/// Law: shutdown ordering, first half.  Once the shutdown signal has
/// been observed, no step ever delivers a new inbound event, and the
/// observation is never forgotten.
pub proof fn lemma_no_inbound_after_shutdown(
    pre: TaskPhase,
    ev: TaskEvent,
    post: TaskPhase,
    act: TaskAction,
)
    requires
        shutdown_seen(pre),
        step_rel(pre, ev, post, act),
    ensures
        !(act is DeliverInbound),
        shutdown_seen(post),
{
}

/// Law: shutdown ordering, second half.  An outbound command accepted
/// before the shutdown signal is still attempted: with the signal
/// observed mid-write, a successful open still leads to a write
/// attempt, a would-block is still retried, and only a completed write
/// ends the task — then as a graceful shutdown.
pub proof fn lemma_accepted_write_still_attempted(
    frame: Seq<u8>,
    pre: TaskPhase,
    ev: TaskEvent,
    post: TaskPhase,
    act: TaskAction,
)
    requires
        step_rel(pre, ev, post, act),
    ensures
        (pre matches TaskPhase::OpeningWrite { frame: f, draining: true } && f@ == frame && ev
            == TaskEvent::WriteEndpoint(OpenOutcome::Opened)) ==> (post
            matches TaskPhase::WritingFrame { frame: f2, .. } && f2@ == frame
            && act is AttemptWrite),
        (pre matches TaskPhase::WritingFrame { frame: f, draining: true } && f@ == frame && ev
            == TaskEvent::TransportWrite(WriteOutcome::WouldBlock)) ==> (post
            matches TaskPhase::WritingFrame { frame: f2, .. } && f2@ == frame
            && act is AttemptWrite),
        (pre matches TaskPhase::WritingFrame { draining: true, .. } && ev
            == TaskEvent::TransportWrite(WriteOutcome::Written)) ==> post
            == (TaskPhase::Terminated { outcome: TaskOutcome::GracefulShutdown }),
{
}

/// Law: configuration messages are forwarded one frame per message, in
/// the order received, with no coalescing: two rule sets serviced in
/// sequence yield exactly their two control frames, first then second.
/// Stated for rule sets whose control frames fit the transport buffer:
/// an oversized rule set cannot cross the transport at all — its
/// encoding is a hard error by the buffer invariant of the wire
/// format — and is dropped with a warning instead of forwarded.
pub proof fn lemma_conf_forwarded_in_order(
    c1: Seq<u8>,
    c2: Seq<u8>,
    e1: TaskEvent,
    e2: TaskEvent,
    pre: TaskPhase,
    mid: TaskPhase,
    post: TaskPhase,
    a1: TaskAction,
    a2: TaskAction,
)
    requires
        pre is Running,
        e1 matches TaskEvent::Control(MacosIpcSend::SetIntercept(k1)) && k1@ == c1,
        e2 matches TaskEvent::Control(MacosIpcSend::SetIntercept(k2)) && k2@ == c2,
        encode_control_spec(c1).len() <= IPC_BUF_SIZE,
        encode_control_spec(c2).len() <= IPC_BUF_SIZE,
        step_rel(pre, e1, mid, a1),
        step_rel(mid, e2, post, a2),
    ensures
        a1 matches TaskAction::ForwardFrame(v1) && v1@ == encode_control_spec(c1),
        a2 matches TaskAction::ForwardFrame(v2) && v2@ == encode_control_spec(c2),
        mid is Running,
        post is Running,
{
}

/// Law: checksum invariant.  Whatever the event, every packet a step
/// hands to the inbound sink is a valid datagram carrying the checksum
/// its header fields require — regardless of the checksum in the
/// captured bytes.
pub proof fn lemma_delivered_packet_checksum(
    pre: TaskPhase,
    ev: TaskEvent,
    post: TaskPhase,
    act: TaskAction,
)
    requires
        step_rel(pre, ev, post, act),
    ensures
        act matches TaskAction::DeliverInbound(ne) ==> (ne matches NetworkEvent::ReceivePacket {
            packet,
            ..
        } && packet.valid() && checksum_ok(packet@)),
{
}

/// The per-platform packet-source task over the named-pipe transport,
/// as an explicit state machine.
pub struct MacosTask {
    pub phase: TaskPhase,
}

impl MacosTask {
    /// A freshly built task: transport open, loop not yet entered.
    pub fn new() -> (t: MacosTask)
        ensures
            t.phase is Starting,
    {
        MacosTask { phase: TaskPhase::Starting }
    }

    /// Enter the event loop.
    pub fn start(&mut self)
        requires
            old(self).phase is Starting,
        ensures
            final(self).phase is Running,
    {
        self.phase = TaskPhase::Running;
    }

    /// Exit the loop after a drain: normal shutdown.
    pub fn finish(&mut self)
        requires
            old(self).phase is Draining,
        ensures
            final(self).phase == (TaskPhase::Terminated {
                outcome: TaskOutcome::GracefulShutdown,
            }),
    {
        self.phase = TaskPhase::Terminated { outcome: TaskOutcome::GracefulShutdown };
    }

    /// The frame the task is currently trying to send, if any.
    pub fn pending_frame(&self) -> (r: Option<&Vec<u8>>)
        ensures
            match self.phase {
                TaskPhase::OpeningWrite { frame, .. } => r matches Some(f) && f@ == frame@,
                TaskPhase::WritingFrame { frame, .. } => r matches Some(f) && f@ == frame@,
                _ => r is None,
            },
    {
        match &self.phase {
            TaskPhase::OpeningWrite { frame, .. } => Some(frame),
            TaskPhase::WritingFrame { frame, .. } => Some(frame),
            _ => None,
        }
    }

    /// Why the task stopped, once it has.
    pub fn outcome(&self) -> (r: Option<TaskOutcome>)
        ensures
            match self.phase {
                TaskPhase::Terminated { outcome } => r == Some(outcome),
                _ => r is None,
            },
    {
        match &self.phase {
            TaskPhase::Terminated { outcome } => Some(*outcome),
            _ => None,
        }
    }

    /// Service one event: decide the next phase and the action the
    /// surrounding process performs, exactly as `step_rel` states.
    pub fn step(&mut self, event: TaskEvent) -> (act: TaskAction)
        ensures
            step_rel(old(self).phase, event, final(self).phase, act),
    {
        let mut phase = TaskPhase::Starting;
        core::mem::swap(&mut phase, &mut self.phase);
        match (phase, event) {
            (TaskPhase::Terminated { outcome }, _) => {
                self.phase = TaskPhase::Terminated { outcome };
                TaskAction::Stop
            },
            (_, TaskEvent::TransportReadable(ReadOutcome::Closed)) => {
                self.phase = TaskPhase::Terminated { outcome: TaskOutcome::PeerDisconnected };
                TaskAction::Stop
            },
            (_, TaskEvent::TransportReadable(ReadOutcome::Failed)) => {
                self.phase = TaskPhase::Terminated { outcome: TaskOutcome::ReadFailed };
                TaskAction::Stop
            },
            (TaskPhase::Starting, _) => {
                self.phase = TaskPhase::Starting;
                TaskAction::Wait
            },
            (TaskPhase::Running, TaskEvent::ShutdownSignal) => {
                self.phase = TaskPhase::Draining;
                TaskAction::Wait
            },
            (TaskPhase::Running, TaskEvent::Control(MacosIpcSend::SetIntercept(conf))) => {
                self.phase = TaskPhase::Running;
                match encode_control(&conf) {
                    Ok(frame) => TaskAction::ForwardFrame(frame),
                    Err(_) => TaskAction::Wait,
                }
            },
            (TaskPhase::Running, TaskEvent::Control(MacosIpcSend::Packet(bytes))) => {
                self.phase = TaskPhase::Running;
                match Packet::parse(bytes) {
                    Err(_) => TaskAction::Wait,
                    Ok(mut packet) => {
                        packet.fill_ip_checksum();
                        TaskAction::DeliverInbound(
                            NetworkEvent::ReceivePacket {
                                packet,
                                tunnel_info: TunnelInfo::Macos { process_name: None },
                            },
                        )
                    },
                }
            },
            (TaskPhase::Running, TaskEvent::TransportReadable(ReadOutcome::Data(buf))) => {
                self.phase = TaskPhase::Running;
                match deserialize_packet(buf.as_slice()) {
                    Err(_) => TaskAction::Wait,
                    Ok(MacosIpcRecv::Packet { data, process_name }) => {
                        match Packet::parse(data) {
                            Err(_) => TaskAction::Wait,
                            Ok(mut packet) => {
                                packet.fill_ip_checksum();
                                TaskAction::DeliverInbound(
                                    NetworkEvent::ReceivePacket {
                                        packet,
                                        tunnel_info: TunnelInfo::Macos { process_name },
                                    },
                                )
                            },
                        }
                    },
                }
            },
            (TaskPhase::Running, TaskEvent::Outbound(NetworkCommand::SendPacket(p))) => {
                let payload = p.into_inner();
                proof {
                    reveal_strlit("");
                    assert(""@ =~= Seq::<char>::empty());
                    assert(encode_utf8(""@) =~= Seq::<u8>::empty());
                }
                match encode_data(&payload, "") {
                    Ok(frame) => {
                        self.phase = TaskPhase::OpeningWrite { frame, draining: false };
                        TaskAction::OpenWriteEndpoint
                    },
                    Err(_) => {
                        self.phase = TaskPhase::Running;
                        TaskAction::Wait
                    },
                }
            },
            (TaskPhase::Running, _) => {
                self.phase = TaskPhase::Running;
                TaskAction::Wait
            },
            (
                TaskPhase::OpeningWrite { frame, draining },
                TaskEvent::WriteEndpoint(OpenOutcome::Opened),
            ) => {
                self.phase = TaskPhase::WritingFrame { frame, draining };
                TaskAction::AttemptWrite
            },
            (
                TaskPhase::OpeningWrite { frame, draining },
                TaskEvent::WriteEndpoint(OpenOutcome::NotListening),
            ) => {
                self.phase = TaskPhase::OpeningWrite { frame, draining };
                TaskAction::RetryOpenAfterDelay
            },
            (TaskPhase::OpeningWrite { .. }, TaskEvent::WriteEndpoint(OpenOutcome::Failed)) => {
                self.phase = TaskPhase::Terminated { outcome: TaskOutcome::WriteFailed };
                TaskAction::Stop
            },
            (TaskPhase::OpeningWrite { frame, .. }, TaskEvent::ShutdownSignal) => {
                self.phase = TaskPhase::OpeningWrite { frame, draining: true };
                TaskAction::Wait
            },
            (TaskPhase::OpeningWrite { frame, draining }, _) => {
                self.phase = TaskPhase::OpeningWrite { frame, draining };
                TaskAction::Wait
            },
            (
                TaskPhase::WritingFrame { frame: _, draining },
                TaskEvent::TransportWrite(WriteOutcome::Written),
            ) => {
                if draining {
                    self.phase = TaskPhase::Terminated { outcome: TaskOutcome::GracefulShutdown };
                    TaskAction::Stop
                } else {
                    self.phase = TaskPhase::Running;
                    TaskAction::Wait
                }
            },
            (
                TaskPhase::WritingFrame { frame, draining },
                TaskEvent::TransportWrite(WriteOutcome::WouldBlock),
            ) => {
                self.phase = TaskPhase::WritingFrame { frame, draining };
                TaskAction::AttemptWrite
            },
            (TaskPhase::WritingFrame { .. }, TaskEvent::TransportWrite(WriteOutcome::Failed)) => {
                self.phase = TaskPhase::Terminated { outcome: TaskOutcome::WriteFailed };
                TaskAction::Stop
            },
            (TaskPhase::WritingFrame { frame, .. }, TaskEvent::ShutdownSignal) => {
                self.phase = TaskPhase::WritingFrame { frame, draining: true };
                TaskAction::AttemptWrite
            },
            (TaskPhase::WritingFrame { frame, draining }, _) => {
                self.phase = TaskPhase::WritingFrame { frame, draining };
                TaskAction::Wait
            },
            (TaskPhase::Draining, _) => {
                self.phase = TaskPhase::Draining;
                TaskAction::Wait
            },
        }
    }
}

/// Perform a step's delivery action against the inbound sink: a
/// delivery is offered to the queue without ever blocking, and is
/// dropped when the sink is saturated — one warning is the only side
/// effect the caller should add.  Any other action leaves the sink
/// untouched.  Returns whether an event entered the queue.
pub fn deliver_inbound(
    sink: &mut BoundedQueue<NetworkEvent>,
    act: TaskAction,
) -> (delivered: bool)
    ensures
        final(sink).cap() == old(sink).cap(),
        match act {
            TaskAction::DeliverInbound(ev) => {
                &&& old(sink).contents().len() < old(sink).cap() ==> delivered
                    && final(sink).contents() == old(sink).contents().push(ev)
                &&& old(sink).contents().len() >= old(sink).cap() ==> !delivered
                    && final(sink).contents() == old(sink).contents()
            },
            _ => !delivered && final(sink).contents() == old(sink).contents(),
        },
{
    match act {
        TaskAction::DeliverInbound(ev) => sink.try_send(ev),
        _ => false,
    }
}

/// The configuration and factory for this packet source.  The parts of
/// building that touch the operating system — creating the rendezvous
/// objects, opening the pipes, launching the helper — live with the
/// surrounding process; what is computed on the way there is here.
pub struct MacosConf;

impl MacosConf {
    /// Stable identifier for logs and diagnostics.
    pub fn name(&self) -> (r: &'static str)
        ensures
            r@ == "Macos proxy"@,
    {
        "Macos proxy"
    }
}

/// The decimal digit character for a value below ten.
pub open spec fn dec_digit(d: nat) -> char {
    if d == 0 {
        '0'
    } else if d == 1 {
        '1'
    } else if d == 2 {
        '2'
    } else if d == 3 {
        '3'
    } else if d == 4 {
        '4'
    } else if d == 5 {
        '5'
    } else if d == 6 {
        '6'
    } else if d == 7 {
        '7'
    } else if d == 8 {
        '8'
    } else {
        '9'
    }
}

/// The decimal rendering of `n`, most significant digit first, with no
/// leading zeros (zero itself rendered as one digit).
pub open spec fn dec_rep(n: nat) -> Seq<char>
    decreases n,
{
    if n < 10 {
        seq![dec_digit(n)]
    } else {
        dec_rep(n / 10) + seq![dec_digit(n % 10)]
    }
}

/// One decimal digit as a string slice.
fn digit_str(d: u32) -> (r: &'static str)
    requires
        d < 10,
    ensures
        r@ == seq![dec_digit(d as nat)],
{
    let r = if d == 0 {
        "0"
    } else if d == 1 {
        "1"
    } else if d == 2 {
        "2"
    } else if d == 3 {
        "3"
    } else if d == 4 {
        "4"
    } else if d == 5 {
        "5"
    } else if d == 6 {
        "6"
    } else if d == 7 {
        "7"
    } else if d == 8 {
        "8"
    } else {
        "9"
    };
    proof {
        reveal_strlit("0");
        reveal_strlit("1");
        reveal_strlit("2");
        reveal_strlit("3");
        reveal_strlit("4");
        reveal_strlit("5");
        reveal_strlit("6");
        reveal_strlit("7");
        reveal_strlit("8");
        reveal_strlit("9");
        assert(r@ =~= seq![dec_digit(d as nat)]);
    }
    r
}

/// Renders a number in decimal, as handed to the helper process on its
/// command line.
pub fn u32_to_string(n: u32) -> (r: String)
    ensures
        r@ == dec_rep(n as nat),
    decreases n,
{
    if n < 10 {
        String::from_str(digit_str(n))
    } else {
        let mut s = u32_to_string(n / 10);
        s.append(digit_str(n % 10));
        proof {
            assert(s@ =~= dec_rep(n as nat));
        }
        s
    }
}

/// The filesystem path of one named rendezvous object: a `.pipe` entry
/// named after its role, inside the configured rendezvous directory.
pub fn pipe_path(dir: &str, name: &str) -> (r: String)
    ensures
        r@ == dir@ + "/"@ + name@ + ".pipe"@,
{
    let mut s = String::from_str(dir);
    s.append("/");
    s.append(name);
    s.append(".pipe");
    proof {
        assert(s@ =~= dir@ + "/"@ + name@ + ".pipe"@);
    }
    s
}

/// The argument list for launching the helper application: the two
/// rendezvous paths and the identity of the calling process, behind
/// the launcher's own flags.
pub fn helper_args(app_path: &str, ip_path: &str, net_path: &str, parent_pid: u32) -> (args: Vec<
    String,
>)
    ensures
        args@.len() == 6,
        args@[0]@ == "-a"@,
        args@[1]@ == app_path@,
        args@[2]@ == "--args"@,
        args@[3]@ == ip_path@,
        args@[4]@ == net_path@,
        args@[5]@ == dec_rep(parent_pid as nat),
{
    let mut args: Vec<String> = Vec::new();
    args.push(String::from_str("-a"));
    args.push(String::from_str(app_path));
    args.push(String::from_str("--args"));
    args.push(String::from_str(ip_path));
    args.push(String::from_str(net_path));
    args.push(u32_to_string(parent_pid));
    args
}

} // verus!

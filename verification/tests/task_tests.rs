use packet_source::framing::{encode_control, encode_data};
use packet_source::intercept_conf::InterceptConf;
use packet_source::messages::{NetworkCommand, NetworkEvent, Packet, TunnelInfo};
use packet_source::packet_sources::macos::{
    deliver_inbound, MacosConf, MacosIpcSend, MacosTask, OpenOutcome, ReadOutcome, TaskAction,
    TaskEvent, TaskOutcome, TaskPhase, WriteOutcome,
};
use packet_source::queue::BoundedQueue;

fn running_task() -> MacosTask {
    let mut t = MacosTask::new();
    t.start();
    t
}

fn minimal_ipv4() -> Vec<u8> {
    let mut bytes = vec![0u8; 20];
    bytes[0] = 0x45;
    bytes[3] = 0x14;
    bytes
}

#[test]
fn zero_length_read_is_fatal() {
    let mut t = running_task();
    let act = t.step(TaskEvent::TransportReadable(ReadOutcome::Closed));
    assert!(matches!(act, TaskAction::Stop));
    assert_eq!(t.outcome(), Some(TaskOutcome::PeerDisconnected));
    assert!(!matches!(t.phase, TaskPhase::Running));
}

#[test]
fn read_error_is_fatal_with_its_own_cause() {
    let mut t = running_task();
    let act = t.step(TaskEvent::TransportReadable(ReadOutcome::Failed));
    assert!(matches!(act, TaskAction::Stop));
    assert_eq!(t.outcome(), Some(TaskOutcome::ReadFailed));
    // Distinguishable from a disconnect and from a graceful shutdown.
    assert_ne!(t.outcome(), Some(TaskOutcome::PeerDisconnected));
    assert_ne!(t.outcome(), Some(TaskOutcome::GracefulShutdown));
}

#[test]
fn would_block_read_is_retried() {
    let mut t = running_task();
    let act = t.step(TaskEvent::TransportReadable(ReadOutcome::WouldBlock));
    assert!(matches!(act, TaskAction::Wait));
    assert!(matches!(t.phase, TaskPhase::Running));
}

#[test]
fn malformed_frame_is_dropped_not_fatal() {
    let mut t = running_task();
    let act = t.step(TaskEvent::TransportReadable(ReadOutcome::Data(vec![0x45, 0x00, 0x00])));
    assert!(matches!(act, TaskAction::Wait));
    assert!(matches!(t.phase, TaskPhase::Running));
}

#[test]
fn invalid_packet_is_skipped() {
    let mut t = running_task();
    let frame = encode_data(&vec![0xFFu8, 0xEE], "x").unwrap();
    let act = t.step(TaskEvent::TransportReadable(ReadOutcome::Data(frame)));
    assert!(matches!(act, TaskAction::Wait));
    assert!(matches!(t.phase, TaskPhase::Running));
}

#[test]
fn inbound_frame_is_repaired_and_attributed() {
    let mut t = running_task();
    let frame = encode_data(&minimal_ipv4(), "curl").unwrap();
    let act = t.step(TaskEvent::TransportReadable(ReadOutcome::Data(frame)));
    match act {
        TaskAction::DeliverInbound(NetworkEvent::ReceivePacket { packet, tunnel_info }) => {
            assert_eq!(&packet.as_bytes()[10..12], &[0xBA, 0xEB]);
            let TunnelInfo::Macos { process_name } = tunnel_info;
            assert_eq!(process_name.as_deref(), Some("curl"));
        },
        _ => panic!("expected an inbound delivery"),
    }
    assert!(matches!(t.phase, TaskPhase::Running));
}

#[test]
fn injected_packet_becomes_synthetic_inbound() {
    let mut t = running_task();
    let act = t.step(TaskEvent::Control(MacosIpcSend::Packet(minimal_ipv4())));
    match act {
        TaskAction::DeliverInbound(NetworkEvent::ReceivePacket { packet, tunnel_info }) => {
            assert_eq!(&packet.as_bytes()[10..12], &[0xBA, 0xEB]);
            let TunnelInfo::Macos { process_name } = tunnel_info;
            assert!(process_name.is_none());
        },
        _ => panic!("expected an inbound delivery"),
    }
}

#[test]
fn two_intercept_configs_forwarded_in_order() {
    let mut t = running_task();
    let c1 = InterceptConf::new(vec![1u8, 1, 1]);
    let c2 = InterceptConf::new(vec![2u8, 2]);
    let a1 = t.step(TaskEvent::Control(MacosIpcSend::SetIntercept(c1.clone())));
    let a2 = t.step(TaskEvent::Control(MacosIpcSend::SetIntercept(c2.clone())));
    match (a1, a2) {
        (TaskAction::ForwardFrame(f1), TaskAction::ForwardFrame(f2)) => {
            assert_eq!(f1, encode_control(&c1).unwrap());
            assert_eq!(f2, encode_control(&c2).unwrap());
            assert_ne!(f1, f2);
        },
        _ => panic!("expected two forwarded frames"),
    }
    assert!(matches!(t.phase, TaskPhase::Running));
}

#[test]
fn reconnect_on_write_retries_then_succeeds() {
    let mut t = running_task();
    let packet = Packet::parse(minimal_ipv4()).unwrap();
    let act = t.step(TaskEvent::Outbound(NetworkCommand::SendPacket(packet)));
    assert!(matches!(act, TaskAction::OpenWriteEndpoint));
    let frame = t.pending_frame().unwrap().clone();
    assert_eq!(frame, encode_data(&minimal_ipv4(), "").unwrap());

    // The peer is not listening yet: retried after the delay, never fatal.
    for _ in 0..3 {
        let act = t.step(TaskEvent::WriteEndpoint(OpenOutcome::NotListening));
        assert!(matches!(act, TaskAction::RetryOpenAfterDelay));
        assert!(t.outcome().is_none());
        assert_eq!(t.pending_frame().unwrap(), &frame);
    }

    // A peer appears: the same frame is written and the task runs on.
    let act = t.step(TaskEvent::WriteEndpoint(OpenOutcome::Opened));
    assert!(matches!(act, TaskAction::AttemptWrite));
    assert_eq!(t.pending_frame().unwrap(), &frame);
    let act = t.step(TaskEvent::TransportWrite(WriteOutcome::WouldBlock));
    assert!(matches!(act, TaskAction::AttemptWrite));
    let act = t.step(TaskEvent::TransportWrite(WriteOutcome::Written));
    assert!(matches!(act, TaskAction::Wait));
    assert!(matches!(t.phase, TaskPhase::Running));
    assert!(t.outcome().is_none());
}

#[test]
fn open_failure_is_fatal() {
    let mut t = running_task();
    let packet = Packet::parse(minimal_ipv4()).unwrap();
    t.step(TaskEvent::Outbound(NetworkCommand::SendPacket(packet)));
    let act = t.step(TaskEvent::WriteEndpoint(OpenOutcome::Failed));
    assert!(matches!(act, TaskAction::Stop));
    assert_eq!(t.outcome(), Some(TaskOutcome::WriteFailed));
}

#[test]
fn write_failure_is_fatal() {
    let mut t = running_task();
    let packet = Packet::parse(minimal_ipv4()).unwrap();
    t.step(TaskEvent::Outbound(NetworkCommand::SendPacket(packet)));
    t.step(TaskEvent::WriteEndpoint(OpenOutcome::Opened));
    let act = t.step(TaskEvent::TransportWrite(WriteOutcome::Failed));
    assert!(matches!(act, TaskAction::Stop));
    assert_eq!(t.outcome(), Some(TaskOutcome::WriteFailed));
}

#[test]
fn shutdown_then_no_more_inbound() {
    let mut t = running_task();
    let act = t.step(TaskEvent::ShutdownSignal);
    assert!(matches!(act, TaskAction::Wait));
    assert!(matches!(t.phase, TaskPhase::Draining));
    // A frame arriving while draining is not delivered.
    let frame = encode_data(&minimal_ipv4(), "curl").unwrap();
    let act = t.step(TaskEvent::TransportReadable(ReadOutcome::Data(frame)));
    assert!(matches!(act, TaskAction::Wait));
    t.finish();
    assert_eq!(t.outcome(), Some(TaskOutcome::GracefulShutdown));
    // Nothing more is serviced after termination.
    let act = t.step(TaskEvent::Control(MacosIpcSend::Packet(minimal_ipv4())));
    assert!(matches!(act, TaskAction::Stop));
    assert_eq!(t.outcome(), Some(TaskOutcome::GracefulShutdown));
}

#[test]
fn accepted_write_still_attempted_after_shutdown() {
    let mut t = running_task();
    let packet = Packet::parse(minimal_ipv4()).unwrap();
    t.step(TaskEvent::Outbound(NetworkCommand::SendPacket(packet)));
    // Shutdown fires while the write endpoint is still being opened.
    let act = t.step(TaskEvent::ShutdownSignal);
    assert!(matches!(act, TaskAction::Wait));
    assert!(t.pending_frame().is_some());
    // The accepted command is still written, then the task stops
    // gracefully.
    let act = t.step(TaskEvent::WriteEndpoint(OpenOutcome::Opened));
    assert!(matches!(act, TaskAction::AttemptWrite));
    let act = t.step(TaskEvent::TransportWrite(WriteOutcome::Written));
    assert!(matches!(act, TaskAction::Stop));
    assert_eq!(t.outcome(), Some(TaskOutcome::GracefulShutdown));
}

#[test]
fn drop_not_block_on_saturated_sink() {
    let mut q: BoundedQueue<u32> = BoundedQueue::new(2);
    assert!(q.try_send(1));
    assert!(q.try_send(2));
    assert_eq!(q.len(), 2);
    // One more: completes at once, event not delivered, length unchanged.
    assert!(!q.try_send(3));
    assert_eq!(q.len(), 2);
    assert_eq!(q.recv(), Some(1));
    assert_eq!(q.recv(), Some(2));
    assert_eq!(q.recv(), None);
}

#[test]
fn saturated_sink_drops_delivery_from_step() {
    let mut t = running_task();
    let mut sink: BoundedQueue<NetworkEvent> = BoundedQueue::new(1);
    for expect_delivered in [true, false] {
        let frame = encode_data(&minimal_ipv4(), "curl").unwrap();
        let act = t.step(TaskEvent::TransportReadable(ReadOutcome::Data(frame)));
        assert!(matches!(act, TaskAction::DeliverInbound(_)));
        // The first event fills the sink; the second is dropped
        // without blocking and the queue length is unchanged.
        assert_eq!(deliver_inbound(&mut sink, act), expect_delivered);
        assert_eq!(sink.len(), 1);
    }
    assert!(matches!(t.phase, TaskPhase::Running));
}

#[test]
fn zero_capacity_sink_drops_everything() {
    let mut q: BoundedQueue<u8> = BoundedQueue::new(0);
    assert!(!q.try_send(9));
    assert_eq!(q.len(), 0);
}

#[test]
fn source_name_is_stable() {
    assert_eq!(MacosConf.name(), "Macos proxy");
}

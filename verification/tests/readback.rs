use wgpu_backend::device::{BufferDescriptor, BufferUsages};
use wgpu_backend::error::WgpuError;
use wgpu_backend::memory::CopyRegion;
use wgpu_backend::readback::{Action, Phase, Readback, Signal};

#[test]
fn begin_stages_the_whole_buffer() {
    let (readback, action) = Readback::begin(24);
    assert_eq!(readback.phase(), Phase::AwaitingQueue);
    assert_eq!(
        action,
        Action::Stage {
            staging: BufferDescriptor {
                size: 24,
                usage: BufferUsages::staging(),
                mapped_at_creation: false
            },
            copy: CopyRegion { src_offset: 0, dst_offset: 0, size: 24 },
        }
    );
}

#[test]
fn begin_on_an_empty_buffer_has_nothing_to_wait_for() {
    let (readback, action) = Readback::begin(0);
    assert_eq!(readback.phase(), Phase::Mapped);
    assert_eq!(action, Action::Read { len: 0 });
}

#[test]
fn both_waits_in_turn_make_the_bytes_readable() {
    let (mut readback, _) = Readback::begin(8);
    assert_eq!(readback.signal(Signal::QueueIdle), Action::RequestMap { len: 8 });
    assert_eq!(readback.phase(), Phase::AwaitingMap);
    assert_eq!(readback.signal(Signal::MapGranted), Action::Read { len: 8 });
    assert_eq!(readback.phase(), Phase::Mapped);
    assert_eq!(readback.signal(Signal::QueueIdle), Action::Read { len: 8 });
    assert_eq!(readback.signal(Signal::TimedOut), Action::Read { len: 8 });
    assert_eq!(readback.phase(), Phase::Mapped);
}

#[test]
fn an_idle_queue_is_not_a_granted_mapping() {
    let (mut readback, _) = Readback::begin(8);
    readback.signal(Signal::QueueIdle);
    for _ in 0..5 {
        assert_eq!(readback.signal(Signal::QueueIdle), Action::Wait);
        assert_eq!(readback.phase(), Phase::AwaitingMap);
    }
}

#[test]
fn a_grant_before_the_queue_is_idle_is_out_of_turn() {
    let (mut readback, _) = Readback::begin(8);
    assert_eq!(
        readback.signal(Signal::MapGranted),
        Action::Fail { error: WgpuError::MapFailed }
    );
    assert_eq!(readback.phase(), Phase::Rejected);
    let (mut readback, _) = Readback::begin(8);
    assert_eq!(
        readback.signal(Signal::MapRejected),
        Action::Fail { error: WgpuError::MapFailed }
    );
    assert_eq!(readback.phase(), Phase::Rejected);
}

#[test]
fn either_wait_can_time_out() {
    let (mut readback, _) = Readback::begin(8);
    assert_eq!(
        readback.signal(Signal::TimedOut),
        Action::Fail { error: WgpuError::ReadbackTimeout }
    );
    assert_eq!(readback.phase(), Phase::TimedOut);
    let (mut readback, _) = Readback::begin(8);
    readback.signal(Signal::QueueIdle);
    assert_eq!(
        readback.signal(Signal::TimedOut),
        Action::Fail { error: WgpuError::ReadbackTimeout }
    );
    assert_eq!(readback.phase(), Phase::TimedOut);
}

#[test]
fn a_refused_mapping_fails_the_read_back() {
    let (mut readback, _) = Readback::begin(8);
    readback.signal(Signal::QueueIdle);
    assert_eq!(
        readback.signal(Signal::MapRejected),
        Action::Fail { error: WgpuError::MapFailed }
    );
    assert_eq!(readback.phase(), Phase::Rejected);
}

#[test]
fn a_failed_read_back_stays_failed() {
    for first in [Signal::TimedOut, Signal::MapGranted] {
        let (mut readback, _) = Readback::begin(8);
        let failed = readback.signal(first);
        let phase = readback.phase();
        for later in [Signal::QueueIdle, Signal::MapGranted, Signal::MapRejected, Signal::TimedOut]
        {
            assert_eq!(readback.signal(later), failed);
            assert_eq!(readback.phase(), phase);
        }
    }
}

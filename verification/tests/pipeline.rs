use rusty_bench::fault::Fault;
use rusty_bench::pipeline::classify_packet_fault;
use rusty_bench::pipeline::start_build;
use rusty_bench::pipeline::FaultAction;
use rusty_bench::pipeline::PacketAction;
use rusty_bench::pipeline::PacketEvent;
use rusty_bench::pipeline::PacketFault;
use rusty_bench::pipeline::TrackProgress;

#[test]
fn fault_categories_do_not_overlap() {
    assert_eq!(
        classify_packet_fault(PacketFault::Io),
        FaultAction::SkipPacket
    );
    assert_eq!(
        classify_packet_fault(PacketFault::Data),
        FaultAction::SkipPacket
    );
    assert_eq!(
        classify_packet_fault(PacketFault::Fatal),
        FaultAction::AbortBuild
    );
}

#[test]
fn progress_reports_only_integer_changes() {
    let mut t = TrackProgress::new(1000);
    // 0% stays silent: nothing changed.
    assert_eq!(t.on_event(PacketEvent::Decoded { ts: 1 }), PacketAction::Consume);
    assert_eq!(
        t.on_event(PacketEvent::Decoded { ts: 10 }),
        PacketAction::ConsumeAndReport { percent: 1 }
    );
    // Within the same percent: no report.
    assert_eq!(t.on_event(PacketEvent::Decoded { ts: 11 }), PacketAction::Consume);
    assert_eq!(
        t.on_event(PacketEvent::Decoded { ts: 500 }),
        PacketAction::ConsumeAndReport { percent: 50 }
    );
    assert_eq!(
        t.on_event(PacketEvent::Decoded { ts: 1000 }),
        PacketAction::ConsumeAndReport { percent: 100 }
    );
}

#[test]
fn progress_tolerates_an_unknown_track_length() {
    let mut t = TrackProgress::new(0);
    assert_eq!(t.on_event(PacketEvent::Decoded { ts: 123 }), PacketAction::Consume);
    assert_eq!(t.percent, 0);
}

#[test]
fn foreign_packets_and_recoverable_faults_are_skipped() {
    let mut t = TrackProgress::new(100);
    assert_eq!(t.on_event(PacketEvent::OtherTrack), PacketAction::Skip);
    assert_eq!(
        t.on_event(PacketEvent::Failed { fault: PacketFault::Io }),
        PacketAction::Skip
    );
    assert_eq!(
        t.on_event(PacketEvent::Failed { fault: PacketFault::Data }),
        PacketAction::Skip
    );
    assert_eq!(
        t.on_event(PacketEvent::Failed { fault: PacketFault::Fatal }),
        PacketAction::Abort
    );
}

#[test]
fn build_validates_the_tag_first() {
    assert_eq!(
        start_build("not a tag!", 2).err(),
        Some(Fault::Validation)
    );
    assert_eq!(
        start_build("E0040350129C3DA2", 0).err(),
        Some(Fault::UnsupportedMedia)
    );
    assert!(start_build("E0040350129C3DA2", 2).is_ok());
}

#[test]
fn three_tracks_give_three_increasing_chapter_pages() {
    let mut b = start_build("E0040350129C3DA2", 3).unwrap();
    assert!(!b.begin_track(0)); // first track: no boundary marked
    assert!(b.begin_track(17)); // second track begins on page 17
    assert!(b.begin_track(35)); // third track begins on page 35
    let pages = b.chapters.pages();
    assert_eq!(pages, vec![0, 17, 35]);
    assert!(pages.windows(2).all(|w| w[0] < w[1]));
    assert_eq!(pages[0], 0);
    assert!(b.finish_build().is_ok());
    assert!(b.finalized);
}

#[test]
fn fatal_fault_on_track_two_of_three_reports_an_error() {
    let mut b = start_build("E0040350129C3DA2", 3).unwrap();
    assert!(!b.begin_track(0));
    assert!(b.begin_track(17));
    // Mid-stream fatal decode fault on track 2.
    let fault = b.record_fatal_fault();
    assert_eq!(fault, Fault::Decode);
    // The build must report the error and never success.
    let finished = b.finish_build();
    assert_eq!(finished, Err(Fault::Decode));
    assert!(!b.finalized);
}

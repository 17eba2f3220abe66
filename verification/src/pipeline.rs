//! Transcode pipeline decisions.
//!
//! A build turns one or more input tracks into a single chaptered
//! container file.  The outside work — probing an input, decoding its
//! packets, encoding pages, filesystem I/O — runs in the unverified
//! shell; every decision the build makes stands here: validating the
//! tag first, which packets to skip, which decode faults are
//! recoverable and which abort the build, when the integer progress
//! percentage is emitted, where the chapter boundaries lie, and when a
//! build may finalize.  The shell performs each action and hands the
//! next event back.

use vstd::prelude::*;

use crate::fault::Fault;
use crate::tagcodec::check_tag_id_validity;
use crate::tagcodec::valid_tag_id;

verus! {

// ---------------------------------------------------------------
// Per-packet decode faults
// ---------------------------------------------------------------

/// Why one packet failed to decode.
#[derive(Clone, Copy, Debug, PartialEq, Eq, Structural)]
pub enum PacketFault {
    /// An I/O fault inside the decoder.
    Io,
    /// Invalid packet data.
    Data,
    /// Any other decoder fault.
    Fatal,
}

/// What a per-packet fault leads to.
#[derive(Clone, Copy, Debug, PartialEq, Eq, Structural)]
pub enum FaultAction {
    /// Skip the packet; the stream continues.
    SkipPacket,
    /// Abort the entire build.
    AbortBuild,
}

/// Sorts a per-packet decode fault into exactly one of two
/// non-overlapping outcome categories: an I/O or data fault on a
/// single packet is recoverable and the packet is skipped; any other
/// fault aborts the build.
pub fn classify_packet_fault(f: PacketFault) -> (r: FaultAction)
    ensures
        r == FaultAction::SkipPacket <==> (f == PacketFault::Io || f == PacketFault::Data),
        r == FaultAction::AbortBuild <==> f == PacketFault::Fatal,
{
    match f {
        PacketFault::Io => FaultAction::SkipPacket,
        PacketFault::Data => FaultAction::SkipPacket,
        PacketFault::Fatal => FaultAction::AbortBuild,
    }
}

// ---------------------------------------------------------------
// Per-track progress
// ---------------------------------------------------------------

/// The integer percentage a timestamp stands for within a track of
/// `tracklen` frames: clamped to 100, and 0 where the length is
/// unknown.
pub open spec fn spec_percent(ts: u64, tracklen: u64) -> int {
    if tracklen == 0 {
        0
    } else if ts > tracklen {
        100
    } else {
        (ts * 100) as int / tracklen as int
    }
}

/// Law: a track's percentage never leaves 0 to 100 and never moves
/// backwards as the timestamps advance.
pub proof fn lemma_percent_monotonic(ts1: u64, ts2: u64, tracklen: u64)
    requires
        ts1 <= ts2,
    ensures
        0 <= spec_percent(ts1, tracklen) <= spec_percent(ts2, tracklen) <= 100,
{
    if tracklen > 0 {
        let d = tracklen as int;
        vstd::arithmetic::div_mod::lemma_div_is_ordered(0, ts1 * 100, d);
        if ts1 <= tracklen {
            vstd::arithmetic::mul::lemma_mul_inequality(ts1 as int, tracklen as int, 100);
            vstd::arithmetic::div_mod::lemma_div_is_ordered(ts1 * 100, tracklen * 100, d);
            vstd::arithmetic::div_mod::lemma_div_by_multiple(100, d);
        }
        if ts2 <= tracklen {
            vstd::arithmetic::mul::lemma_mul_inequality(ts2 as int, tracklen as int, 100);
            vstd::arithmetic::div_mod::lemma_div_is_ordered(ts2 * 100, tracklen * 100, d);
            vstd::arithmetic::div_mod::lemma_div_by_multiple(100, d);
            vstd::arithmetic::mul::lemma_mul_inequality(ts1 as int, ts2 as int, 100);
            vstd::arithmetic::div_mod::lemma_div_is_ordered(ts1 * 100, ts2 * 100, d);
        }
    }
}

fn percent_of(ts: u64, tracklen: u64) -> (p: u64)
    ensures
        p == spec_percent(ts, tracklen),
{
    if tracklen == 0 {
        return 0;
    }
    if ts > tracklen {
        return 100;
    }
    proof {
        lemma_percent_monotonic(ts, ts, tracklen);
    }
    ((ts as u128) * 100 / (tracklen as u128)) as u64
}

/// One event of the decode loop, as the shell saw it.
#[derive(Clone, Copy, Debug, PartialEq, Eq, Structural)]
pub enum PacketEvent {
    /// The demuxer handed a packet of a track other than the selected
    /// one.
    OtherTrack,
    /// The packet decoded; `ts` is its timestamp in frames.
    Decoded { ts: u64 },
    /// The packet failed to decode.
    Failed { fault: PacketFault },
}

/// What the shell is to do with the packet.
#[derive(Clone, Copy, Debug, PartialEq, Eq, Structural)]
pub enum PacketAction {
    /// Ignore the packet; the stream continues.
    Skip,
    /// Feed the decoded samples on; the percentage did not change.
    Consume,
    /// Feed the decoded samples on and emit the changed percentage.
    ConsumeAndReport { percent: u64 },
    /// Abort the entire build.
    Abort,
}

/// The progress bookkeeping of one track.
pub struct TrackProgress {
    /// The track's length in frames, as declared by its container;
    /// 0 where unknown.
    pub tracklen: u64,
    /// The integer percentage last computed.
    pub percent: u64,
}

impl TrackProgress {
    /// Fresh bookkeeping for one track.
    pub fn new(tracklen: u64) -> (r: Self)
        ensures
            r.tracklen == tracklen,
            r.percent == 0,
    {
        TrackProgress { tracklen, percent: 0 }
    }

    /// Decides one step of the decode loop: packets of other tracks
    /// are skipped, recoverable faults skip the packet, any other
    /// fault aborts, and a decoded packet is consumed, with the new
    /// percentage emitted exactly when the integer percentage moved —
    /// never on every packet.
    pub fn on_event(&mut self, e: PacketEvent) -> (a: PacketAction)
        ensures
            final(self).tracklen == old(self).tracklen,
            match e {
                PacketEvent::OtherTrack => a == PacketAction::Skip && *final(self) == *old(self),
                PacketEvent::Failed { fault } => *final(self) == *old(self) && a == (
                if fault == PacketFault::Fatal {
                    PacketAction::Abort
                } else {
                    PacketAction::Skip
                }),
                PacketEvent::Decoded { ts } => {
                    let p = spec_percent(ts, old(self).tracklen);
                    &&& final(self).percent == p
                    &&& a == if p == old(self).percent {
                        PacketAction::Consume
                    } else {
                        PacketAction::ConsumeAndReport { percent: p as u64 }
                    }
                },
            },
    {
        match e {
            PacketEvent::OtherTrack => PacketAction::Skip,
            PacketEvent::Failed { fault } => match classify_packet_fault(fault) {
                FaultAction::SkipPacket => PacketAction::Skip,
                FaultAction::AbortBuild => PacketAction::Abort,
            },
            PacketEvent::Decoded { ts } => {
                let p = percent_of(ts, self.tracklen);
                if p != self.percent {
                    self.percent = p;
                    PacketAction::ConsumeAndReport { percent: p }
                } else {
                    PacketAction::Consume
                }
            },
        }
    }
}

// ---------------------------------------------------------------
// Chapter bookkeeping
// ---------------------------------------------------------------

/// The chapter page indices of one build: conventionally starting at
/// page 0, strictly increasing, one entry per track.
pub struct ChapterLog {
    pages: Vec<u32>,
}

impl View for ChapterLog {
    type V = Seq<u32>;

    closed spec fn view(&self) -> Seq<u32> {
        self.pages@
    }
}

impl ChapterLog {
    /// The log's invariant: never empty, first entry 0, strictly
    /// increasing.
    pub open spec fn wf(&self) -> bool {
        &&& self@.len() >= 1
        &&& self@[0] == 0
        &&& forall|i: int, j: int|
            #![trigger self@[i], self@[j]]
            0 <= i < j < self@.len() ==> self@[i] < self@[j]
    }

    /// A fresh log: the first track starts at page 0.
    pub fn new() -> (r: Self)
        ensures
            r.wf(),
            r@ == seq![0u32],
    {
        let mut pages: Vec<u32> = Vec::new();
        pages.push(0);
        proof {
            assert(pages@ =~= seq![0u32]);
        }
        ChapterLog { pages }
    }

    /// The page the last chapter starts on.
    pub fn last_page(&self) -> (p: u32)
        requires
            self.wf(),
        ensures
            p == self@.last(),
    {
        self.pages[self.pages.len() - 1]
    }

    /// Records the next chapter boundary; pages only move forward.
    pub fn mark(&mut self, current_page: u32)
        requires
            old(self).wf(),
            current_page > old(self)@.last(),
        ensures
            final(self).wf(),
            final(self)@ == old(self)@.push(current_page),
    {
        self.pages.push(current_page);
    }

    /// The pages recorded so far, for the header rewrite.
    pub fn pages(&self) -> (r: Vec<u32>)
        ensures
            r@ == self@,
    {
        let mut out: Vec<u32> = Vec::new();
        let mut i: usize = 0;
        while i < self.pages.len()
            invariant
                i <= self.pages@.len(),
                out@ == self.pages@.take(i as int),
            decreases self.pages@.len() - i,
        {
            out.push(self.pages[i]);
            proof {
                assert(out@ =~= self.pages@.take(i + 1 as int));
            }
            i += 1;
        }
        proof {
            assert(self.pages@.take(self.pages@.len() as int) =~= self.pages@);
        }
        out
    }
}

// ---------------------------------------------------------------
// The build as a whole
// ---------------------------------------------------------------

/// The control state of one build.
pub struct BuildState {
    /// How many input tracks the build was started with.
    pub total_tracks: usize,
    /// The 1-based index of the next track to begin.
    pub next_track: usize,
    /// The chapter boundaries recorded so far.
    pub chapters: ChapterLog,
    /// A fatal fault was met; the build can only abort.
    pub failed: bool,
    /// The build finalized successfully.
    pub finalized: bool,
}

/// The build invariant: the chapter log is well-formed and holds one
/// entry per begun track (the first track's entry standing there from
/// the start).
pub open spec fn wf_build(s: BuildState) -> bool {
    &&& s.chapters.wf()
    &&& 1 <= s.total_tracks < usize::MAX
    &&& 1 <= s.next_track <= s.total_tracks + 1
    &&& s.chapters@.len() == if s.next_track <= 2 {
        1int
    } else {
        s.next_track - 1
    }
}

/// A build may report success exactly here: no fatal fault met, every
/// track begun and consumed.
pub open spec fn spec_finish_ok(s: BuildState) -> bool {
    !s.failed && s.next_track == s.total_tracks + 1
}

/// Starts a build: the tag identifier is validated first and a
/// malformed one fails fast; a build without input tracks has nothing
/// to decode and is refused.
pub fn start_build(tag_id: &str, total_tracks: usize) -> (r: Result<BuildState, Fault>)
    ensures
        r is Ok <==> valid_tag_id(tag_id@) && 1 <= total_tracks < usize::MAX,
        !valid_tag_id(tag_id@) ==> r == Result::<BuildState, Fault>::Err(Fault::Validation),
        valid_tag_id(tag_id@) && !(1 <= total_tracks < usize::MAX) ==> r == Result::<
            BuildState,
            Fault,
        >::Err(Fault::UnsupportedMedia),
        r matches Ok(s) ==> wf_build(s) && s.total_tracks == total_tracks && s.next_track == 1
            && !s.failed && !s.finalized && s.chapters@ == seq![0u32],
{
    check_tag_id_validity(tag_id)?;
    if total_tracks == 0 || total_tracks == usize::MAX {
        return Err(Fault::UnsupportedMedia);
    }
    Ok(
        BuildState {
            total_tracks,
            next_track: 1,
            chapters: ChapterLog::new(),
            failed: false,
            finalized: false,
        },
    )
}

impl BuildState {
    /// Begins the next track.  For every track but the first the
    /// result instructs the shell to mark a chapter boundary on the
    /// writer before decoding begins, and the boundary is recorded
    /// here; the writer's position only ever grows, so the page is
    /// past the last boundary.
    pub fn begin_track(&mut self, current_page: u32) -> (mark: bool)
        requires
            wf_build(*old(self)),
            !old(self).failed,
            !old(self).finalized,
            old(self).next_track <= old(self).total_tracks,
            old(self).next_track > 1 ==> current_page > old(self).chapters@.last(),
        ensures
            wf_build(*final(self)),
            final(self).total_tracks == old(self).total_tracks,
            final(self).next_track == old(self).next_track + 1,
            final(self).failed == old(self).failed,
            final(self).finalized == old(self).finalized,
            mark <==> old(self).next_track > 1,
            mark ==> final(self).chapters@ == old(self).chapters@.push(current_page),
            !mark ==> final(self).chapters@ == old(self).chapters@,
    {
        let mark = self.next_track > 1;
        if mark {
            self.chapters.mark(current_page);
        }
        self.next_track = self.next_track + 1;
        mark
    }

    /// Records a fatal fault: from here the build can only abort, and
    /// the single error surfaced to the caller is the fatal decode
    /// fault.
    pub fn record_fatal_fault(&mut self) -> (r: Fault)
        ensures
            final(self).failed,
            final(self).total_tracks == old(self).total_tracks,
            final(self).next_track == old(self).next_track,
            final(self).chapters@ == old(self).chapters@,
            final(self).finalized == old(self).finalized,
            r == Fault::Decode,
    {
        self.failed = true;
        Fault::Decode
    }

    /// Finalizes the build: allowed exactly when no fatal fault was
    /// met and every track was consumed.  A build that met a fatal
    /// fault reports the decode fault and is never marked finalized;
    /// its destination stays unfinalized and a later scan will treat
    /// it as invalid.
    pub fn finish_build(&mut self) -> (r: Result<(), Fault>)
        requires
            wf_build(*old(self)),
            !old(self).finalized,
            old(self).failed || old(self).next_track == old(self).total_tracks + 1,
        ensures
            r is Ok <==> spec_finish_ok(*old(self)),
            final(self).total_tracks == old(self).total_tracks,
            final(self).next_track == old(self).next_track,
            final(self).chapters@ == old(self).chapters@,
            final(self).failed == old(self).failed,
            final(self).finalized == (r is Ok),
            r matches Err(e) ==> e == Fault::Decode,
    {
        if self.failed {
            return Err(Fault::Decode);
        }
        self.finalized = true;
        Ok(())
    }
}

/// Law: a build over `n` tracks that has begun them all carries
/// exactly `n` chapter pages, strictly increasing, the first one 0.
pub proof fn lemma_chapter_pages_complete(s: BuildState)
    requires
        wf_build(s),
        s.next_track == s.total_tracks + 1,
    ensures
        s.chapters@.len() == s.total_tracks,
        s.chapters@[0] == 0,
        forall|i: int, j: int|
            #![trigger s.chapters@[i], s.chapters@[j]]
            0 <= i < j < s.chapters@.len() ==> s.chapters@[i] < s.chapters@[j],
{
}

/// Law: a build that met a fatal decode fault can never report
/// success, whatever else happens to it.
pub proof fn lemma_fatal_fault_blocks_finalize(s: BuildState)
    requires
        s.failed,
    ensures
        !spec_finish_ok(s),
{
}

} // verus!

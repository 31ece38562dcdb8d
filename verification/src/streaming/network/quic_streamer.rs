//! QUIC streaming configuration, RTP headers and stream multiplexing.

use vstd::prelude::*;
use std::time::Duration;
use crate::clock::{duration_from_secs, duration_of_secs};
use crate::security::peer_map::TextMap;

verus! {

/// Configuration for QUIC video streaming.
#[derive(Clone, Copy, Debug)]
pub struct QuicStreamerConfig {
    /// Maximum concurrent video streams per connection.
    pub max_concurrent_streams: u32,
    /// Stream priority for video data.
    pub video_stream_priority: u8,
    /// Enable stream multiplexing for multiple quality levels.
    pub enable_multiplexing: bool,
    /// Buffer size for video frames.
    pub frame_buffer_size: usize,
    /// Connection idle timeout.
    pub idle_timeout: Duration,
    /// Enable 0-RTT for faster connection establishment.
    pub enable_0rtt: bool,
}

impl Default for QuicStreamerConfig {
    /// Ten streams at priority 200, multiplexing on, a 1 MiB frame buffer,
    /// a thirty-second idle timeout, 0-RTT on.
    fn default() -> (r: Self)
        ensures
            r.max_concurrent_streams == 10,
            r.video_stream_priority == 200,
            r.enable_multiplexing,
            r.frame_buffer_size == 1024 * 1024,
            r.idle_timeout == duration_of_secs(30),
            r.enable_0rtt,
    {
        Self {
            max_concurrent_streams: 10,
            video_stream_priority: 200,
            enable_multiplexing: true,
            frame_buffer_size: 1024 * 1024,
            idle_timeout: duration_from_secs(30),
            enable_0rtt: true,
        }
    }
}

/// Quality level for multiplexed streams.
#[derive(Clone, Copy, Debug, PartialEq, Eq, Hash, Structural)]
pub enum QualityLevel {
    Low,
    Medium,
    High,
    Ultra,
}

/// RTP packet header for video streaming.
#[derive(Clone, Copy, Debug)]
pub struct RtpHeader {
    pub version: u8,
    pub padding: bool,
    pub extension: bool,
    pub csrc_count: u8,
    pub marker: bool,
    pub payload_type: u8,
    pub sequence_number: u16,
    pub timestamp: u32,
    pub ssrc: u32,
}

impl RtpHeader {
    /// A version-2 header for H.264 video (payload type 96), without padding,
    /// extension or contributing sources, with the fixed source 0x12345678.
    pub fn new(sequence_number: u16, timestamp: u32, marker: bool) -> (r: Self)
        ensures
            r == (RtpHeader {
                version: 2,
                padding: false,
                extension: false,
                csrc_count: 0,
                marker,
                payload_type: 96,
                sequence_number,
                timestamp,
                ssrc: 0x12345678,
            }),
    {
        Self {
            version: 2,
            padding: false,
            extension: false,
            csrc_count: 0,
            marker,
            payload_type: 96,
            sequence_number,
            timestamp,
            ssrc: 0x12345678,
        }
    }
}

/// Stream multiplexer: hands out stream identifiers in order and remembers
/// which peer each belongs to.
pub struct StreamMultiplexer {
    next_stream_id: u64,
    stream_assignments: TextMap<Vec<u64>>,
}

impl StreamMultiplexer {
    /// The next identifier to hand out.
    pub closed spec fn next_view(&self) -> u64 {
        self.next_stream_id
    }

    /// The streams of each peer, in the order they were registered.
    pub closed spec fn assignments_view(&self) -> Map<Seq<char>, Seq<u64>> {
        Map::new(|k: Seq<char>| self.stream_assignments@.dom().contains(k), |k: Seq<char>| self.stream_assignments@[k]@)
    }

    /// A multiplexer with no streams, starting at identifier 0.
    pub fn new() -> (r: Self)
        ensures
            r.next_view() == 0,
            r.assignments_view() == Map::<Seq<char>, Seq<u64>>::empty(),
    {
        let r = Self { next_stream_id: 0, stream_assignments: TextMap::new() };
        assert(r.assignments_view() =~= Map::<Seq<char>, Seq<u64>>::empty());
        r
    }

    /// Give the peer the next stream identifier.
    pub fn register_stream(&mut self, peer_id: &String)
        requires
            old(self).next_view() < u64::MAX,
        ensures
            final(self).next_view() == old(self).next_view() + 1,
            final(self).assignments_view() == old(self).assignments_view().insert(
                peer_id@,
                if old(self).assignments_view().dom().contains(peer_id@) {
                    old(self).assignments_view()[peer_id@]
                } else {
                    Seq::<u64>::empty()
                }.push(old(self).next_view()),
            ),
    {
        let stream_id = self.next_stream_id;
        self.next_stream_id = self.next_stream_id + 1;
        let mut ids = match self.stream_assignments.get(peer_id) {
            Some(v) => v.clone(),
            None => Vec::new(),
        };
        ids.push(stream_id);
        let ghost ids_view = ids@;
        self.stream_assignments.insert(peer_id.clone(), ids);
        proof {
            assert(self.assignments_view() =~= old(self).assignments_view().insert(peer_id@, ids_view));
        }
    }

    /// Forget the peer's streams.
    pub fn unregister_stream(&mut self, peer_id: &String)
        ensures
            final(self).next_view() == old(self).next_view(),
            final(self).assignments_view() == old(self).assignments_view().remove(peer_id@),
    {
        self.stream_assignments.remove(peer_id);
        proof {
            assert(self.assignments_view() =~= old(self).assignments_view().remove(peer_id@));
        }
    }

    /// The peer's streams, if it has any registered.
    pub fn get_stream_ids(&self, peer_id: &String) -> (r: Option<&Vec<u64>>)
        ensures
            match r {
                Some(v) => self.assignments_view().dom().contains(peer_id@) && v@ == self.assignments_view()[peer_id@],
                None => !self.assignments_view().dom().contains(peer_id@),
            },
    {
        self.stream_assignments.get(peer_id)
    }
}

} // verus!

//! Core of a network intrusion detection service: flow tracking, rule-based
//! threat detection, shared statistics, frame decoding, simulated traffic
//! generation, and the lifecycle state machine that ties them together.

pub mod capture;
pub mod detection;
pub mod features;
pub mod flow;
pub mod rng;
pub mod stats;
pub mod text;
pub mod types;
pub mod utils;

use vstd::prelude::*;

use crate::capture::{enqueue_packet, PacketQueue};
use crate::detection::{DetectionEngine, FlowSummary};
use crate::stats::{sat_add, SystemStats};
use crate::types::{IdsError, PacketData, SystemConfig, ThreatAlert};

verus! {

/// The system facade: configuration, shared statistics, the bounded
/// ingest queue, and the detection engine once started. The surrounding
/// runtime drives the long-running tasks; every decision they take is
/// made here.
pub struct NetworkIDS {
    pub config: SystemConfig,
    pub stats: SystemStats,
    pub queue: PacketQueue,
    pub detection_engine: Option<DetectionEngine>,
    pub running: bool,
}

impl NetworkIDS {
    /// Statistics, queue and engine are well formed, the queue has the
    /// standard capacity of ten thousand and holds only well-formed
    /// packets, and a running system has its engine.
    pub open spec fn well_formed(self) -> bool {
        &&& self.stats.well_formed()
        &&& self.queue.well_formed()
        &&& self.queue.capacity == 10000
        &&& forall|i: int|
            0 <= i < self.queue.buf@.len() ==> (#[trigger] self.queue.buf@[i]).well_formed()
        &&& match self.detection_engine {
            Some(e) => e.well_formed(),
            None => true,
        }
        &&& self.running ==> self.detection_engine is Some
    }

    /// Construct but do not start.
    pub fn new(config: SystemConfig, now_ms: u64) -> (r: Result<NetworkIDS, IdsError>)
        ensures
            r is Ok,
            r matches Ok(ids) ==> {
                &&& ids.well_formed()
                &&& !ids.running
                &&& ids.detection_engine is None
                &&& ids.stats.start_time_ms == now_ms
                &&& ids.stats.packets_processed == 0
                &&& ids.stats.bytes_processed == 0
                &&& ids.stats.threats_detected == 0
                &&& ids.stats.processing_rate_pps == 0
                &&& ids.stats.active_flows == 0
                &&& ids.stats.memory_usage == 0
                &&& ids.stats.cpu_usage_centi == 0
                &&& ids.queue.buf@.len() == 0
            },
    {
        Ok(
            NetworkIDS {
                config,
                stats: SystemStats::new(now_ms),
                queue: PacketQueue::new(10000),
                detection_engine: None,
                running: false,
            },
        )
    }

    /// Start the system: succeeds exactly once; a second call fails with
    /// `AlreadyRunning` and changes nothing.
    pub fn start(&mut self) -> (r: Result<(), IdsError>)
        requires
            old(self).well_formed(),
        ensures
            final(self).well_formed(),
            r is Ok <==> !old(self).running,
            r matches Err(e) ==> e == IdsError::AlreadyRunning && *final(self) == *old(self),
            r is Ok ==> final(self).running && final(self).detection_engine is Some,
    {
        if self.running {
            return Err(IdsError::AlreadyRunning);
        }
        self.detection_engine = Some(DetectionEngine::new());
        self.running = true;
        Ok(())
    }

    /// Stop the system; idempotent. After it returns, no further packet
    /// is processed and no further alert is raised.
    pub fn shutdown(&mut self)
        requires
            old(self).well_formed(),
        ensures
            final(self).well_formed(),
            !final(self).running,
            final(self).stats == old(self).stats,
            final(self).detection_engine == old(self).detection_engine,
    {
        self.running = false;
    }

    /// The source side: account for a packet and enqueue it, dropping it
    /// when the queue is full. The ingest counters move even for a
    /// dropped packet.
    pub fn submit_packet(&mut self, packet: PacketData, now_ms: u64) -> (accepted: bool)
        requires
            old(self).well_formed(),
            packet.well_formed(),
        ensures
            final(self).well_formed(),
            final(self).stats.packets_processed == sat_add(old(self).stats.packets_processed, 1),
            final(self).stats.bytes_processed == sat_add(
                old(self).stats.bytes_processed,
                packet.parsed.size as u64,
            ),
            final(self).stats.threats_detected == old(self).stats.threats_detected,
            accepted <==> old(self).queue.buf@.len() < 10000,
            accepted ==> final(self).queue.buf@ == old(self).queue.buf@.push(packet),
            !accepted ==> final(self).queue.buf@ == old(self).queue.buf@,
            final(self).queue.buf@.len() <= 10000,
            final(self).running == old(self).running,
            final(self).detection_engine == old(self).detection_engine,
    {
        enqueue_packet(&mut self.stats, &mut self.queue, packet, now_ms)
    }

    /// The detector side: take the oldest queued packet and run detection
    /// on it. Returns the alerts it raised, `None` when the system is
    /// stopped or the queue is empty; a stopped system changes nothing.
    pub fn process_next(&mut self, now_ms: u64) -> (r: Option<Vec<ThreatAlert>>)
        requires
            old(self).well_formed(),
        ensures
            final(self).well_formed(),
            !old(self).running ==> r is None && *final(self) == *old(self),
            old(self).running && old(self).queue.buf@.len() == 0 ==> r is None && *final(self)
                == *old(self),
            old(self).running && old(self).queue.buf@.len() > 0 ==> {
                &&& r is Some
                &&& final(self).queue.buf@ == old(self).queue.buf@.drop_first()
                &&& (r matches Some(alerts) ==> {
                    &&& final(self).stats.threats_detected as int == vstd::math::min(
                        old(self).stats.threats_detected + alerts@.len(),
                        u64::MAX as int,
                    )
                    &&& forall|i: int|
                        0 <= i < alerts@.len() ==> (#[trigger] alerts@[i]).well_formed()
                })
            },
            final(self).stats.packets_processed == old(self).stats.packets_processed,
            final(self).stats.bytes_processed == old(self).stats.bytes_processed,
            final(self).running == old(self).running,
    {
        if !self.running {
            return None;
        }
        let packet = match self.queue.recv() {
            Some(p) => p,
            None => {
                return None;
            },
        };
        match &mut self.detection_engine {
            Some(engine) => {
                let alerts = engine.process_packet(&mut self.stats, packet, now_ms);
                Some(alerts)
            },
            None => {
                proof {
                    assert(false);
                }
                None
            },
        }
    }

    /// The reaper side: evict every flow idle past the engine's timeout.
    pub fn tick_reaper(&mut self, now_ms: u64)
        requires
            old(self).well_formed(),
        ensures
            final(self).well_formed(),
            old(self).detection_engine matches Some(e) ==> {
                &&& final(self).detection_engine matches Some(e2)
                &&& e2.flows.flows@ == e.flows.flows@.filter(
                    |f: crate::flow::NetworkFlow| !crate::flow::flow_expired(
                        f,
                        now_ms,
                        e.flow_timeout_ms,
                    ),
                )
            },
            old(self).detection_engine is None ==> *final(self) == *old(self),
            final(self).stats == old(self).stats,
            final(self).running == old(self).running,
    {
        match &mut self.detection_engine {
            Some(engine) => {
                engine.cleanup_expired_flows(now_ms);
            },
            None => {},
        }
    }

    /// A by-value snapshot of the statistics.
    pub fn get_stats(&self) -> (r: SystemStats)
        requires
            self.well_formed(),
        ensures
            r.well_formed(),
            r.start_time_ms == self.stats.start_time_ms,
            r.packets_processed == self.stats.packets_processed,
            r.bytes_processed == self.stats.bytes_processed,
            r.threats_detected == self.stats.threats_detected,
            r.processing_rate_pps == self.stats.processing_rate_pps,
            r.memory_usage == self.stats.memory_usage,
            r.cpu_usage_centi == self.stats.cpu_usage_centi,
            r.alert_counts == self.stats.alert_counts,
            r.active_flows == self.stats.active_flows,
            r.protocol_distribution@ == self.stats.protocol_distribution@,
            r.top_talkers@ == self.stats.top_talkers@,
            r.last_rate_calculation_ms == self.stats.last_rate_calculation_ms,
            r.last_packet_count == self.stats.last_packet_count,
    {
        self.stats.snapshot()
    }

    /// The most recent alerts, newest first; empty before the first start.
    pub fn get_recent_alerts(&self, limit: usize) -> (r: Vec<ThreatAlert>)
        requires
            self.well_formed(),
        ensures
            self.detection_engine matches Some(e) ==> {
                &&& r@.len() == vstd::math::min(limit as int, e.recent_alerts@.len() as int)
                &&& forall|i: int|
                    0 <= i < r@.len() ==> (#[trigger] r@[i])@ == e.recent_alerts@[
                        e.recent_alerts@.len() - 1 - i
                    ]@
            },
            self.detection_engine is None ==> r@.len() == 0,
    {
        match &self.detection_engine {
            Some(engine) => engine.get_recent_alerts(limit),
            None => Vec::new(),
        }
    }

    /// Summaries of up to fifty active flows; empty before the first
    /// start.
    pub fn get_active_flows(&self) -> (r: Vec<FlowSummary>)
        requires
            self.well_formed(),
        ensures
            self.detection_engine matches Some(e) ==> {
                &&& r@.len() == vstd::math::min(50int, e.flows.flows@.len() as int)
                &&& forall|i: int|
                    0 <= i < r@.len() ==> crate::detection::summary_matches(
                        e.flows.flows@[i],
                        #[trigger] r@[i],
                    )
            },
            self.detection_engine is None ==> r@.len() == 0,
    {
        match &self.detection_engine {
            Some(engine) => engine.get_active_flows(),
            None => Vec::new(),
        }
    }

    /// The detection engine, once the system has been started.
    pub fn get_detection_engine(&self) -> (r: Option<&DetectionEngine>)
        ensures
            match r {
                Some(e) => self.detection_engine matches Some(e2) && *e == e2,
                None => self.detection_engine is None,
            },
    {
        self.detection_engine.as_ref()
    }
}

} // verus!

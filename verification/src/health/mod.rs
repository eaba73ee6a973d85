//! The health of the teams: how messages are delivered, which bridges run, and the traffic.

pub mod bridges;
pub mod delivery;
pub mod pidfiles;
pub mod registrations;
pub mod snapshot;

use crate::clock::Span;
use crate::db::{AgentTraffic, DailyTraffic};
use vstd::prelude::*;

verus! {

/// How messages reach the agents of a team.
#[derive(Clone, Copy, Debug, PartialEq, Eq, Structural)]
pub enum DeliveryMode {
    Monitor,
    Both,
    Turn,
    Off,
    Mixed,
    Unknown,
}

impl DeliveryMode {
    /// The label of the mode.
    pub fn label(self) -> (label: &'static str)
        ensures
            label@ == match self {
                DeliveryMode::Monitor => "monitor"@,
                DeliveryMode::Both => "both"@,
                DeliveryMode::Turn => "turn"@,
                DeliveryMode::Off => "off"@,
                DeliveryMode::Mixed => "mixed"@,
                DeliveryMode::Unknown => "unknown"@,
            },
    {
        match self {
            DeliveryMode::Monitor => "monitor",
            DeliveryMode::Both => "both",
            DeliveryMode::Turn => "turn",
            DeliveryMode::Off => "off",
            DeliveryMode::Mixed => "mixed",
            DeliveryMode::Unknown => "unknown",
        }
    }
}

/// A process that brings messages to an agent.
#[derive(Debug, PartialEq, Eq)]
pub struct BridgeStatus {
    pub label: String,
    pub pid: u32,
    pub alive: bool,
}

/// An identity whose bridge runs although it has been silent.
#[derive(Debug, PartialEq, Eq)]
pub struct SilentIdentity {
    pub team: String,
    pub agent: String,
}

/// The health of one team.
#[derive(Debug, PartialEq, Eq)]
pub struct TeamHealth {
    pub name: String,
    pub orphan: bool,
    pub delivery: DeliveryMode,
    pub bridges: Vec<BridgeStatus>,
    pub last_msg_age: Option<Span>,
    pub unread: usize,
    pub stale_unread: bool,
    pub traffic_7d: Vec<DailyTraffic>,
    pub traffic_30d: Vec<DailyTraffic>,
    pub agents_7d: Vec<AgentTraffic>,
    pub agents_30d: Vec<AgentTraffic>,
    pub silent_identities: Vec<SilentIdentity>,
}

impl TeamHealth {
    /// The daily traffic over thirty days, or over seven.
    pub fn traffic(&self, days: u32) -> (traffic: &Vec<DailyTraffic>)
        ensures
            *traffic == if days == 30 {
                self.traffic_30d
            } else {
                self.traffic_7d
            },
    {
        if days == 30 {
            &self.traffic_30d
        } else {
            &self.traffic_7d
        }
    }

    /// The traffic of each agent over thirty days, or over seven.
    pub fn agent_traffic(&self, days: u32) -> (traffic: &Vec<AgentTraffic>)
        ensures
            *traffic == if days == 30 {
                self.agents_30d
            } else {
                self.agents_7d
            },
    {
        if days == 30 {
            &self.agents_30d
        } else {
            &self.agents_7d
        }
    }
}

/// The health of all teams at one time.
#[derive(Debug, PartialEq, Eq)]
pub struct HealthSnapshot {
    pub teams: Vec<TeamHealth>,
    pub daily_total_7d: Vec<DailyTraffic>,
    pub daily_total_30d: Vec<DailyTraffic>,
    pub refreshed_at: String,
    pub burst_threshold: usize,
    pub silent_days: u32,
}

impl HealthSnapshot {
    /// The daily traffic of all teams over thirty days, or over seven.
    pub fn daily_total(&self, days: u32) -> (traffic: &Vec<DailyTraffic>)
        ensures
            *traffic == if days == 30 {
                self.daily_total_30d
            } else {
                self.daily_total_7d
            },
    {
        if days == 30 {
            &self.daily_total_30d
        } else {
            &self.daily_total_7d
        }
    }
}

} // verus!

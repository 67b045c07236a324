//! Relay server settings.

use vstd::prelude::*;

use crate::protocol::packet::DEFAULT_DATAGRAM_PAYLOAD_TARGET;
use crate::relay::control::ControlLimits;

verus! {

#[derive(Debug, Clone, PartialEq, Eq)]
pub struct ServerConfig {
    pub listen_addr: String,
    pub max_datagram_payload: usize,
    pub viewer_queue_budget_ms: u16,
    pub access_token: Option<String>,
    pub limits: ControlLimits,
}

impl ServerConfig {
    /// Defaults: the protocol datagram target, a 100 ms viewer queue budget,
    /// no access token and the default room limits.
    pub fn new(listen_addr: String) -> (config: ServerConfig)
        ensures
            config.listen_addr@ == listen_addr@,
            config.max_datagram_payload == DEFAULT_DATAGRAM_PAYLOAD_TARGET,
            config.viewer_queue_budget_ms == 100,
            config.access_token is None,
            config.limits == ControlLimits::spec_default(),
    {
        ServerConfig {
            listen_addr,
            max_datagram_payload: DEFAULT_DATAGRAM_PAYLOAD_TARGET,
            viewer_queue_budget_ms: 100,
            access_token: None,
            limits: ControlLimits::default(),
        }
    }

    /// Sets how many rooms the relay holds and how many participants and
    /// streams each room takes.
    pub fn with_limits(self, limits: ControlLimits) -> (config: ServerConfig)
        ensures
            config.listen_addr == self.listen_addr,
            config.max_datagram_payload == self.max_datagram_payload,
            config.viewer_queue_budget_ms == self.viewer_queue_budget_ms,
            config.access_token == self.access_token,
            config.limits == limits,
    {
        let mut config = self;
        config.limits = limits;
        config
    }

    pub fn with_access_token(self, access_token: Option<String>) -> (config: ServerConfig)
        ensures
            config.listen_addr == self.listen_addr,
            config.max_datagram_payload == self.max_datagram_payload,
            config.viewer_queue_budget_ms == self.viewer_queue_budget_ms,
            config.access_token == access_token,
            config.limits == self.limits,
    {
        let mut config = self;
        config.access_token = access_token;
        config
    }

    /// Sets the ingress datagram limit; zero is raised to one.
    pub fn with_max_datagram_payload(self, max_datagram_payload: usize) -> (config: ServerConfig)
        ensures
            config.listen_addr == self.listen_addr,
            config.max_datagram_payload == if max_datagram_payload == 0 {
                1
            } else {
                max_datagram_payload
            },
            config.viewer_queue_budget_ms == self.viewer_queue_budget_ms,
            config.access_token == self.access_token,
            config.limits == self.limits,
    {
        let mut config = self;
        config.max_datagram_payload = if max_datagram_payload == 0 {
            1
        } else {
            max_datagram_payload
        };
        config
    }
}

} // verus!

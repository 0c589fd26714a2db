//! Settings for ingesting entropy from an MQTT broker (e.g. Eclipse Mosquitto).
//!
//! The hardware board publishes raw entropy bytes to a topic; each non-empty
//! publish is pushed into an `EntropyService` through `ingest`. The broker
//! connection itself belongs to the application.
use vstd::prelude::*;

use crate::text::string_of;

verus! {

/// Connection settings for the entropy topic.
#[derive(Debug, Clone)]
pub struct MqttConfig {
    /// Broker hostname or IP address.
    pub broker_host: String,
    /// Broker port (1883 for unencrypted MQTT).
    pub broker_port: u16,
    /// Topic on which entropy bytes are published.
    pub topic: String,
    /// Source identifier used for entropy tracking.
    pub source_id: u8,
    /// Client identifier of this connection.
    pub client_id: String,
    /// Optional user name for broker authentication.
    pub username: Option<String>,
    /// Optional password for broker authentication.
    pub password: Option<String>,
}

impl Default for MqttConfig {
    fn default() -> (c: Self)
        ensures
            c.broker_host@ == "localhost"@,
            c.broker_port == 1883,
            c.topic@ == "entropy-vault/raw"@,
            c.source_id == 1,
            c.client_id@ == "entropy-vault-engine"@,
            c.username is None,
            c.password is None,
    {
        MqttConfig {
            broker_host: string_of("localhost"),
            broker_port: 1883,
            topic: string_of("entropy-vault/raw"),
            source_id: 0x01,
            client_id: string_of("entropy-vault-engine"),
            username: None,
            password: None,
        }
    }
}

/// Broker credentials are used only when both a user name and a password are given.
pub open spec fn credentials_of(username: Option<Seq<char>>, password: Option<Seq<char>>) -> Option<(Seq<char>, Seq<char>)> {
    match (username, password) {
        (Some(u), Some(p)) => Some((u, p)),
        _ => None,
    }
}

/// The view of an optional string.
pub open spec fn opt_view(s: Option<String>) -> Option<Seq<char>> {
    match s {
        Some(t) => Some(t@),
        None => None,
    }
}

/// The credentials to log in with: the user name and password when both are given.
pub fn login_credentials(username: &Option<String>, password: &Option<String>) -> (r: Option<(String, String)>)
    ensures
        match credentials_of(opt_view(*username), opt_view(*password)) {
            Some((u, p)) => r is Some && r->Some_0.0@ == u && r->Some_0.1@ == p,
            None => r is None,
        },
{
    match (username, password) {
        (Some(u), Some(p)) => Some((u.clone(), p.clone())),
        _ => None,
    }
}

impl MqttConfig {
    /// The credentials to log in with, if both a user name and a password are set.
    pub fn credentials(&self) -> (r: Option<(String, String)>)
        ensures
            match credentials_of(opt_view(self.username), opt_view(self.password)) {
                Some((u, p)) => r is Some && r->Some_0.0@ == u && r->Some_0.1@ == p,
                None => r is None,
            },
    {
        login_credentials(&self.username, &self.password)
    }
}

} // verus!

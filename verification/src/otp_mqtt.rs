//! Settings and message handling for the OTP topics of an MQTT broker.
//!
//! Three topics are read: random numbers as CSV, sensor parameters, and the
//! device MAC as JSON (`{"mac":"4C:C3:82:36:81:04"}`). The first MAC seen is
//! validated once against the blockchain; until then numbers are stored, and an
//! invalid MAC discards them. The broker connection, the JSON decoding and the
//! blockchain request belong to the application.
use vstd::prelude::*;

use serde_json::Value;

use crate::mqtt::{credentials_of, login_credentials, opt_view};
use crate::otp::{csv_numbers, keep_last, strings_view, OtpService, MAX_NUMBERS, MAX_PARAMS};
use crate::text::string_of;

verus! {

/// Connection settings for the OTP topics.
#[derive(Debug, Clone)]
pub struct OtpMqttConfig {
    pub broker_host: String,
    pub broker_port: u16,
    pub numbers_topic: String,
    pub params_topic: String,
    pub mac_topic: String,
    pub client_id: String,
    pub username: Option<String>,
    pub password: Option<String>,
}

impl Default for OtpMqttConfig {
    fn default() -> (c: Self)
        ensures
            c.broker_host@ == "localhost"@,
            c.broker_port == 1883,
            c.numbers_topic@ == "random/numbers"@,
            c.params_topic@ == "random/params"@,
            c.mac_topic@ == "random/MAC"@,
            c.client_id@ == "entropy-vault-otp"@,
            c.username is None,
            c.password is None,
    {
        OtpMqttConfig {
            broker_host: string_of("localhost"),
            broker_port: 1883,
            numbers_topic: string_of("random/numbers"),
            params_topic: string_of("random/params"),
            mac_topic: string_of("random/MAC"),
            client_id: string_of("entropy-vault-otp"),
            username: None,
            password: None,
        }
    }
}

/// Which of the OTP topics a publish arrived on.
#[derive(Debug, Clone, Copy, PartialEq, Eq, Structural)]
pub enum OtpTopic {
    Numbers,
    Params,
    Mac,
    Other,
}

/// The topic kind of `topic`, tested against the numbers, params and MAC topics in that order.
pub open spec fn topic_kind(numbers: Seq<char>, params: Seq<char>, mac: Seq<char>, topic: Seq<char>) -> OtpTopic {
    if topic == numbers {
        OtpTopic::Numbers
    } else if topic == params {
        OtpTopic::Params
    } else if topic == mac {
        OtpTopic::Mac
    } else {
        OtpTopic::Other
    }
}

impl OtpMqttConfig {
    /// The kind of topic a publish arrived on.
    pub fn classify(&self, topic: &String) -> (k: OtpTopic)
        ensures
            k == topic_kind(self.numbers_topic@, self.params_topic@, self.mac_topic@, topic@),
    {
        if *topic == self.numbers_topic {
            OtpTopic::Numbers
        } else if *topic == self.params_topic {
            OtpTopic::Params
        } else if *topic == self.mac_topic {
            OtpTopic::Mac
        } else {
            OtpTopic::Other
        }
    }

    /// The credentials to log in with, if both a user name and a password are set.
    pub fn credentials(&self) -> (r: Option<(String, String)>)
        ensures
            match credentials_of(opt_view(self.username), opt_view(self.password)) {
                Some((u, p)) => r is Some && r->Some_0.0@ == u && r->Some_0.1@ == p,
                None => r is None,
            },
    {
        login_credentials(&self.username, &self.password)
    }
}

/// The string member `key` of the JSON object in `text`, as `serde_json` reads
/// it; `None` when the text is not JSON, or the member is missing or not a string.
pub uninterp spec fn json_str_field(text: Seq<char>, key: Seq<char>) -> Option<Seq<char>>;

/// `serde_json::from_str::<Value>` on `text`, then the string member `key`:
/// claimed to be `json_str_field` of the text and key, a function of them alone.
#[verifier::external_body]
pub(crate) fn json_str_field_of(text: &str, key: &str) -> (r: Option<String>)
    ensures
        opt_view(r) == json_str_field(text@, key@),
{
    match serde_json::from_str::<Value>(text) {
        Ok(v) => match v.get(key) {
            Some(Value::String(s)) => Some(s.clone()),
            _ => None,
        },
        Err(_) => None,
    }
}

/// How the validation of a new MAC went: skipped by configuration, or the
/// blockchain's answer (whether the MAC is registered, or why it could not be asked).
pub enum MacCheck {
    Skipped,
    Checked(Result<bool, String>),
}

/// Whether a MAC check accepts the device: a skipped check does, a failed one does not.
pub open spec fn mac_check_accepts(check: MacCheck) -> bool {
    match check {
        MacCheck::Skipped => true,
        MacCheck::Checked(Ok(valid)) => valid,
        MacCheck::Checked(Err(_)) => false,
    }
}

/// Whether a MAC check accepts the device.
pub fn mac_accepted(check: &MacCheck) -> (b: bool)
    ensures
        b == mac_check_accepts(*check),
{
    match check {
        MacCheck::Skipped => true,
        MacCheck::Checked(Ok(valid)) => *valid,
        MacCheck::Checked(Err(_)) => false,
    }
}

impl OtpService {
    /// Handle one publish: numbers and parameters are stored; on the MAC topic
    /// the `mac` string of the JSON payload (such as `{"mac":"4C:C3:82:36:81:04"}`),
    /// when it has one, is recorded, and the MAC to validate is returned when it
    /// is the first one seen. The flag tells whether the publish counts as an
    /// ingested message (any of the three topics).
    pub fn handle_publish(&mut self, kind: OtpTopic, payload: &str) -> (r: (
        bool,
        Option<String>,
    ))
        ensures
            r.0 == (kind != OtpTopic::Other),
            kind == OtpTopic::Numbers ==> {
                &&& final(self).random_numbers@ == if old(self).mac_validated == Some(false)
                    || csv_numbers(payload@).len() == 0 {
                    old(self).random_numbers@
                } else {
                    keep_last(old(self).random_numbers@ + csv_numbers(payload@), MAX_NUMBERS as nat)
                }
                &&& final(self).sensor_params == old(self).sensor_params
                &&& final(self).mac_address == old(self).mac_address
                &&& r.1 is None
            },
            kind == OtpTopic::Params ==> {
                &&& strings_view(final(self).sensor_params@) == if payload@.len() == 0 {
                    strings_view(old(self).sensor_params@)
                } else {
                    keep_last(strings_view(old(self).sensor_params@).push(payload@), MAX_PARAMS as nat)
                }
                &&& final(self).random_numbers == old(self).random_numbers
                &&& final(self).mac_address == old(self).mac_address
                &&& r.1 is None
            },
            kind == OtpTopic::Mac ==> {
                &&& final(self).random_numbers == old(self).random_numbers
                &&& final(self).sensor_params == old(self).sensor_params
                &&& match json_str_field(payload@, "mac"@) {
                    Some(m) => if old(self).mac_address is None {
                        &&& final(self).mac_address is Some
                        &&& final(self).mac_address->Some_0@ == m
                        &&& r.1 is Some
                        &&& r.1->Some_0@ == m
                    } else {
                        final(self).mac_address == old(self).mac_address && r.1 is None
                    },
                    None => final(self).mac_address == old(self).mac_address && r.1 is None,
                }
            },
            kind == OtpTopic::Other ==> {
                &&& final(self).random_numbers == old(self).random_numbers
                &&& final(self).sensor_params == old(self).sensor_params
                &&& final(self).mac_address == old(self).mac_address
                &&& r.1 is None
            },
            final(self).otp_history == old(self).otp_history,
            final(self).mac_validated == old(self).mac_validated,
    {
        match kind {
            OtpTopic::Numbers => {
                self.ingest_numbers(payload);
                (true, None)
            },
            OtpTopic::Params => {
                self.ingest_params(payload);
                (true, None)
            },
            OtpTopic::Mac => {
                match json_str_field_of(payload, "mac") {
                    Some(mac) => {
                        let is_new = self.ingest_mac(mac.as_str());
                        if is_new {
                            (true, Some(mac))
                        } else {
                            (true, None)
                        }
                    },
                    None => (true, None),
                }
            },
            OtpTopic::Other => (false, None),
        }
    }

    /// Record the outcome of validating the MAC: an accepted device keeps its
    /// numbers, a rejected one (or a failed check) has them discarded.
    pub fn record_mac_check(&mut self, check: &MacCheck)
        ensures
            final(self).mac_validated == Some(mac_check_accepts(*check)),
            final(self).random_numbers@ == if mac_check_accepts(*check) {
                old(self).random_numbers@
            } else {
                Seq::<u16>::empty()
            },
            final(self).sensor_params == old(self).sensor_params,
            final(self).otp_history == old(self).otp_history,
            final(self).mac_address == old(self).mac_address,
    {
        let accepted = mac_accepted(check);
        self.set_mac_validated(accepted);
    }
}

} // verus!

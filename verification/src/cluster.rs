//! Broker-wide limits that every connection and every dispatch obeys.

use crate::json::{json_fields, json_text, named_numbers, read_json, write_json};
use crate::qos::QoS;
use vstd::prelude::*;
use vstd::string::StringExecFns;

verus! {

/// Whether an optional MQTT 5 feature is offered. CONNACK carries the flag
/// as one byte, so the numbering of the two values is part of the protocol.
#[derive(Clone, Copy, Debug, PartialEq, Eq, Structural)]
pub enum AvailableFlag {
    Disable,
    Enable,
}

impl AvailableFlag {
    /// The byte that stands for the flag on the wire.
    pub open spec fn ordinal(self) -> int {
        match self {
            AvailableFlag::Disable => 0,
            AvailableFlag::Enable => 1,
        }
    }

    /// Returns the byte that stands for the flag on the wire.
    pub fn code(self) -> (n: u8)
        ensures
            n == self.ordinal(),
            self == AvailableFlag::Disable ==> n == 0,
            self == AvailableFlag::Enable ==> n == 1,
    {
        match self {
            AvailableFlag::Disable => 0,
            AvailableFlag::Enable => 1,
        }
    }

    /// The flag that a wire byte stands for, if it stands for one.
    pub fn from_code(n: u8) -> (flag: Option<AvailableFlag>)
        ensures
            n <= 1 ==> flag is Some && flag->0.ordinal() == n,
            n > 1 ==> flag is None,
    {
        if n == 0 {
            Some(AvailableFlag::Disable)
        } else if n == 1 {
            Some(AvailableFlag::Enable)
        } else {
            None
        }
    }
}

impl Default for AvailableFlag {
    fn default() -> (flag: Self)
        ensures
            flag == AvailableFlag::Disable,
    {
        AvailableFlag::Disable
    }
}

/// A snapshot of the cluster policy. A snapshot is a plain value: a
/// dispatch reads one copy from start to end.
#[derive(Clone, Copy, Debug, PartialEq, Eq, Structural)]
pub struct MQTTCluster {
    pub session_expiry_interval: u32,
    pub topic_alias_max: u16,
    pub max_qos: QoS,
    pub retain_available: AvailableFlag,
    pub wildcard_subscription_available: AvailableFlag,
    pub max_packet_size: u32,
    pub subscription_identifiers_available: AvailableFlag,
    pub shared_subscription_available: AvailableFlag,
    pub max_server_keep_alive: u16,
    pub default_server_keep_alive: u16,
    pub receive_max: u16,
    pub secret_free_login: bool,
    pub max_message_expiry_interval: u64,
    pub client_pkid_persistent: bool,
    pub is_self_protection_status: bool,
    pub tcp_max_connection_num: u64,
    pub tcps_max_connection_num: u64,
    pub websocket_max_connection_num: u64,
    pub websockets_max_connection_num: u64,
    pub send_max_try_mut_times: u64,
    pub send_try_mut_sleep_time_ms: u64,
}

impl MQTTCluster {
    /// The policy of a cluster that nobody has configured.
    pub open spec fn initial() -> MQTTCluster {
        MQTTCluster {
            session_expiry_interval: 1800,
            topic_alias_max: 65535,
            max_qos: QoS::ExactlyOnce,
            retain_available: AvailableFlag::Enable,
            wildcard_subscription_available: AvailableFlag::Enable,
            max_packet_size: 10485760,
            subscription_identifiers_available: AvailableFlag::Enable,
            shared_subscription_available: AvailableFlag::Enable,
            max_server_keep_alive: 3600,
            default_server_keep_alive: 60,
            receive_max: 65535,
            secret_free_login: false,
            max_message_expiry_interval: 315360000,
            client_pkid_persistent: false,
            is_self_protection_status: false,
            tcp_max_connection_num: 1000,
            tcps_max_connection_num: 1000,
            websocket_max_connection_num: 1000,
            websockets_max_connection_num: 1000,
            send_max_try_mut_times: 128,
            send_try_mut_sleep_time_ms: 100,
        }
    }

    /// Returns the policy of a cluster that nobody has configured.
    pub fn new() -> (policy: Self)
        ensures
            policy == MQTTCluster::initial(),
    {
        MQTTCluster {
            session_expiry_interval: 1800,
            topic_alias_max: 65535,
            max_qos: QoS::ExactlyOnce,
            retain_available: AvailableFlag::Enable,
            max_packet_size: 1024 * 1024 * 10,
            wildcard_subscription_available: AvailableFlag::Enable,
            subscription_identifiers_available: AvailableFlag::Enable,
            shared_subscription_available: AvailableFlag::Enable,
            max_server_keep_alive: 3600,
            default_server_keep_alive: 60,
            receive_max: 65535,
            secret_free_login: false,
            max_message_expiry_interval: 315360000,
            client_pkid_persistent: false,
            is_self_protection_status: false,
            tcp_max_connection_num: 1000,
            tcps_max_connection_num: 1000,
            websocket_max_connection_num: 1000,
            websockets_max_connection_num: 1000,
            send_max_try_mut_times: 128,
            send_try_mut_sleep_time_ms: 100,
        }
    }
}


/// The level that a number stands for; the highest for every number
/// above 1.
pub open spec fn qos_of_level(level: u64) -> QoS {
    if level == 0 {
        QoS::AtMostOnce
    } else if level == 1 {
        QoS::AtLeastOnce
    } else {
        QoS::ExactlyOnce
    }
}

/// The flag that a number stands for: `Disable` for 0, `Enable` otherwise.
pub open spec fn flag_of_code(code: u64) -> AvailableFlag {
    if code == 0 {
        AvailableFlag::Disable
    } else {
        AvailableFlag::Enable
    }
}

/// The number that stands for a switch: 1 for on, 0 for off.
pub open spec fn switch_number(on: bool) -> u64 {
    if on {
        1
    } else {
        0
    }
}

/// The number that stands under a name: that of the first field with the
/// name, if there is one.
pub open spec fn number_of(fields: Seq<(Seq<char>, u64)>, name: Seq<char>) -> Option<u64>
    decreases fields.len(),
{
    if fields.len() == 0 {
        None
    } else if fields[0].0 == name {
        Some(fields[0].1)
    } else {
        number_of(fields.drop_first(), name)
    }
}

/// The number that stands under a name, where there is one and it is at
/// most `limit`.
pub open spec fn bounded_number(
    fields: Seq<(Seq<char>, u64)>,
    name: Seq<char>,
    limit: u64,
) -> Option<u64> {
    match number_of(fields, name) {
        Some(number) => if number <= limit {
            Some(number)
        } else {
            None
        },
        None => None,
    }
}

/// The number that stands under a name. Meaningful when there is one.
pub open spec fn at(fields: Seq<(Seq<char>, u64)>, name: Seq<char>) -> u64 {
    number_of(fields, name)->0
}

/// The first field with a name gives the number under it.
pub proof fn lemma_number_at(fields: Seq<(Seq<char>, u64)>, name: Seq<char>, place: int)
    requires
        0 <= place < fields.len(),
        fields[place].0 == name,
        forall|j: int| 0 <= j < place ==> (#[trigger] fields[j]).0 != name,
    ensures
        number_of(fields, name) == Some(fields[place].1),
    decreases place,
{
    if place > 0 {
        assert(fields[0].0 != name);
        let rest = fields.drop_first();
        assert forall|j: int| 0 <= j < place - 1 implies (#[trigger] rest[j]).0 != name by {
            assert(rest[j] == fields[j + 1]);
        }
        lemma_number_at(rest, name, place - 1);
    }
}

/// Where no field has a name, no number stands under it.
pub proof fn lemma_number_absent(fields: Seq<(Seq<char>, u64)>, name: Seq<char>)
    requires
        forall|j: int| 0 <= j < fields.len() ==> (#[trigger] fields[j]).0 != name,
    ensures
        number_of(fields, name) is None,
    decreases fields.len(),
{
    if fields.len() > 0 {
        assert(fields[0].0 != name);
        let rest = fields.drop_first();
        assert forall|j: int| 0 <= j < rest.len() implies (#[trigger] rest[j]).0 != name by {
            assert(rest[j] == fields[j + 1]);
        }
        lemma_number_absent(rest, name);
    }
}

/// Returns the number that stands under a name.
pub fn find_number(fields: &Vec<(String, u64)>, name: &str) -> (found: Option<u64>)
    ensures
        found == number_of(named_numbers(fields@), name@),
{
    let wanted = String::from_str(name);
    let mut i: usize = 0;
    while i < fields.len()
        invariant
            i <= fields.len(),
            wanted@ == name@,
            forall|j: int| 0 <= j < i ==> (#[trigger] named_numbers(fields@)[j]).0 != name@,
        decreases fields.len() - i,
    {
        assert(named_numbers(fields@)[i as int] == (fields[i as int].0@, fields[i as int].1));
        if fields[i].0 == wanted {
            proof {
                lemma_number_at(named_numbers(fields@), name@, i as int);
            }
            return Some(fields[i].1);
        }
        i = i + 1;
    }
    proof {
        lemma_number_absent(named_numbers(fields@), name@);
    }
    None
}

/// Returns the number that stands under a name, `None` where there is
/// none or it is above `limit`.
pub fn find_bounded(fields: &Vec<(String, u64)>, name: &str, limit: u64) -> (found: Option<u64>)
    ensures
        found == bounded_number(named_numbers(fields@), name@, limit),
{
    match find_number(fields, name) {
        Some(number) => if number <= limit {
            Some(number)
        } else {
            None
        },
        None => None,
    }
}

fn named(name: &str, number: u64) -> (field: (String, u64))
    ensures
        field.0@ == name@,
        field.1 == number,
{
    (String::from_str(name), number)
}

fn number_of_switch(on: bool) -> (number: u64)
    ensures
        number == switch_number(on),
{
    if on {
        1
    } else {
        0
    }
}

fn level_of_number(number: u64) -> (level: QoS)
    ensures
        level == qos_of_level(number),
{
    if number == 0 {
        QoS::AtMostOnce
    } else if number == 1 {
        QoS::AtLeastOnce
    } else {
        QoS::ExactlyOnce
    }
}

fn flag_of_number(number: u64) -> (flag: AvailableFlag)
    ensures
        flag == flag_of_code(number),
{
    if number == 0 {
        AvailableFlag::Disable
    } else {
        AvailableFlag::Enable
    }
}

impl MQTTCluster {
    /// The policy as named numbers: a flag by its ordinal, a level by its
    /// number, a switch as 1 or 0.
    pub open spec fn wire_fields(self) -> Seq<(Seq<char>, u64)> {
        seq![
            ("session_expiry_interval"@, self.session_expiry_interval as u64),
            ("topic_alias_max"@, self.topic_alias_max as u64),
            ("max_qos"@, self.max_qos.rank() as u64),
            ("retain_available"@, self.retain_available.ordinal() as u64),
            (
                "wildcard_subscription_available"@,
                self.wildcard_subscription_available.ordinal() as u64,
            ),
            ("max_packet_size"@, self.max_packet_size as u64),
            (
                "subscription_identifiers_available"@,
                self.subscription_identifiers_available.ordinal() as u64,
            ),
            ("shared_subscription_available"@, self.shared_subscription_available.ordinal() as u64),
            ("max_server_keep_alive"@, self.max_server_keep_alive as u64),
            ("default_server_keep_alive"@, self.default_server_keep_alive as u64),
            ("receive_max"@, self.receive_max as u64),
            ("secret_free_login"@, switch_number(self.secret_free_login)),
            ("max_message_expiry_interval"@, self.max_message_expiry_interval),
            ("client_pkid_persistent"@, switch_number(self.client_pkid_persistent)),
            ("is_self_protection_status"@, switch_number(self.is_self_protection_status)),
            ("tcp_max_connection_num"@, self.tcp_max_connection_num),
            ("tcps_max_connection_num"@, self.tcps_max_connection_num),
            ("websocket_max_connection_num"@, self.websocket_max_connection_num),
            ("websockets_max_connection_num"@, self.websockets_max_connection_num),
            ("send_max_try_mut_times"@, self.send_max_try_mut_times),
            ("send_try_mut_sleep_time_ms"@, self.send_try_mut_sleep_time_ms),
        ]
    }

    /// Whether named numbers describe a policy: every field is there and
    /// fits its type.
    pub open spec fn fields_describe_policy(f: Seq<(Seq<char>, u64)>) -> bool {
        &&& bounded_number(f, "session_expiry_interval"@, 0xffff_ffff) is Some
        &&& bounded_number(f, "topic_alias_max"@, 0xffff) is Some
        &&& bounded_number(f, "max_qos"@, 2) is Some
        &&& bounded_number(f, "retain_available"@, 1) is Some
        &&& bounded_number(f, "wildcard_subscription_available"@, 1) is Some
        &&& bounded_number(f, "max_packet_size"@, 0xffff_ffff) is Some
        &&& bounded_number(f, "subscription_identifiers_available"@, 1) is Some
        &&& bounded_number(f, "shared_subscription_available"@, 1) is Some
        &&& bounded_number(f, "max_server_keep_alive"@, 0xffff) is Some
        &&& bounded_number(f, "default_server_keep_alive"@, 0xffff) is Some
        &&& bounded_number(f, "receive_max"@, 0xffff) is Some
        &&& bounded_number(f, "secret_free_login"@, 1) is Some
        &&& bounded_number(f, "max_message_expiry_interval"@, u64::MAX) is Some
        &&& bounded_number(f, "client_pkid_persistent"@, 1) is Some
        &&& bounded_number(f, "is_self_protection_status"@, 1) is Some
        &&& bounded_number(f, "tcp_max_connection_num"@, u64::MAX) is Some
        &&& bounded_number(f, "tcps_max_connection_num"@, u64::MAX) is Some
        &&& bounded_number(f, "websocket_max_connection_num"@, u64::MAX) is Some
        &&& bounded_number(f, "websockets_max_connection_num"@, u64::MAX) is Some
        &&& bounded_number(f, "send_max_try_mut_times"@, u64::MAX) is Some
        &&& bounded_number(f, "send_try_mut_sleep_time_ms"@, u64::MAX) is Some
    }

    /// The policy that named numbers describe.
    pub open spec fn policy_of_fields(f: Seq<(Seq<char>, u64)>) -> Option<MQTTCluster> {
        if MQTTCluster::fields_describe_policy(f) {
            Some(
                MQTTCluster {
                    session_expiry_interval: at(f, "session_expiry_interval"@) as u32,
                    topic_alias_max: at(f, "topic_alias_max"@) as u16,
                    max_qos: qos_of_level(at(f, "max_qos"@)),
                    retain_available: flag_of_code(at(f, "retain_available"@)),
                    wildcard_subscription_available: flag_of_code(
                        at(f, "wildcard_subscription_available"@),
                    ),
                    max_packet_size: at(f, "max_packet_size"@) as u32,
                    subscription_identifiers_available: flag_of_code(
                        at(f, "subscription_identifiers_available"@),
                    ),
                    shared_subscription_available: flag_of_code(
                        at(f, "shared_subscription_available"@),
                    ),
                    max_server_keep_alive: at(f, "max_server_keep_alive"@) as u16,
                    default_server_keep_alive: at(f, "default_server_keep_alive"@) as u16,
                    receive_max: at(f, "receive_max"@) as u16,
                    secret_free_login: at(f, "secret_free_login"@) == 1,
                    max_message_expiry_interval: at(f, "max_message_expiry_interval"@),
                    client_pkid_persistent: at(f, "client_pkid_persistent"@) == 1,
                    is_self_protection_status: at(f, "is_self_protection_status"@) == 1,
                    tcp_max_connection_num: at(f, "tcp_max_connection_num"@),
                    tcps_max_connection_num: at(f, "tcps_max_connection_num"@),
                    websocket_max_connection_num: at(f, "websocket_max_connection_num"@),
                    websockets_max_connection_num: at(f, "websockets_max_connection_num"@),
                    send_max_try_mut_times: at(f, "send_max_try_mut_times"@),
                    send_try_mut_sleep_time_ms: at(f, "send_try_mut_sleep_time_ms"@),
                },
            )
        } else {
            None
        }
    }

    /// Returns the policy as named numbers.
    pub fn to_fields(&self) -> (fields: Vec<(String, u64)>)
        ensures
            named_numbers(fields@) == self.wire_fields(),
    {
        let mut fields: Vec<(String, u64)> = Vec::new();
        fields.push(named("session_expiry_interval", self.session_expiry_interval as u64));
        fields.push(named("topic_alias_max", self.topic_alias_max as u64));
        fields.push(named("max_qos", self.max_qos.level() as u64));
        fields.push(named("retain_available", self.retain_available.code() as u64));
        fields.push(
            named(
                "wildcard_subscription_available",
                self.wildcard_subscription_available.code() as u64,
            ),
        );
        fields.push(named("max_packet_size", self.max_packet_size as u64));
        fields.push(
            named(
                "subscription_identifiers_available",
                self.subscription_identifiers_available.code() as u64,
            ),
        );
        fields.push(
            named(
                "shared_subscription_available",
                self.shared_subscription_available.code() as u64,
            ),
        );
        fields.push(named("max_server_keep_alive", self.max_server_keep_alive as u64));
        fields.push(named("default_server_keep_alive", self.default_server_keep_alive as u64));
        fields.push(named("receive_max", self.receive_max as u64));
        fields.push(named("secret_free_login", number_of_switch(self.secret_free_login)));
        fields.push(named("max_message_expiry_interval", self.max_message_expiry_interval));
        fields.push(named("client_pkid_persistent", number_of_switch(self.client_pkid_persistent)));
        fields.push(
            named("is_self_protection_status", number_of_switch(self.is_self_protection_status)),
        );
        fields.push(named("tcp_max_connection_num", self.tcp_max_connection_num));
        fields.push(named("tcps_max_connection_num", self.tcps_max_connection_num));
        fields.push(named("websocket_max_connection_num", self.websocket_max_connection_num));
        fields.push(named("websockets_max_connection_num", self.websockets_max_connection_num));
        fields.push(named("send_max_try_mut_times", self.send_max_try_mut_times));
        fields.push(named("send_try_mut_sleep_time_ms", self.send_try_mut_sleep_time_ms));
        assert(named_numbers(fields@) =~= self.wire_fields());
        fields
    }

    /// Returns the policy that named numbers describe, `None` where a field
    /// is missing or does not fit its type.
    pub fn from_fields(fields: &Vec<(String, u64)>) -> (policy: Option<MQTTCluster>)
        ensures
            policy == MQTTCluster::policy_of_fields(named_numbers(fields@)),
    {
        let session_expiry_interval = find_bounded(fields, "session_expiry_interval", 0xffff_ffff)?;
        let topic_alias_max = find_bounded(fields, "topic_alias_max", 0xffff)?;
        let max_qos = find_bounded(fields, "max_qos", 2)?;
        let retain_available = find_bounded(fields, "retain_available", 1)?;
        let wildcard_subscription_available = find_bounded(
            fields,
            "wildcard_subscription_available",
            1,
        )?;
        let max_packet_size = find_bounded(fields, "max_packet_size", 0xffff_ffff)?;
        let subscription_identifiers_available = find_bounded(
            fields,
            "subscription_identifiers_available",
            1,
        )?;
        let shared_subscription_available = find_bounded(
            fields,
            "shared_subscription_available",
            1,
        )?;
        let max_server_keep_alive = find_bounded(fields, "max_server_keep_alive", 0xffff)?;
        let default_server_keep_alive = find_bounded(fields, "default_server_keep_alive", 0xffff)?;
        let receive_max = find_bounded(fields, "receive_max", 0xffff)?;
        let secret_free_login = find_bounded(fields, "secret_free_login", 1)?;
        let max_message_expiry_interval = find_bounded(
            fields,
            "max_message_expiry_interval",
            u64::MAX,
        )?;
        let client_pkid_persistent = find_bounded(fields, "client_pkid_persistent", 1)?;
        let is_self_protection_status = find_bounded(fields, "is_self_protection_status", 1)?;
        let tcp_max_connection_num = find_bounded(fields, "tcp_max_connection_num", u64::MAX)?;
        let tcps_max_connection_num = find_bounded(fields, "tcps_max_connection_num", u64::MAX)?;
        let websocket_max_connection_num = find_bounded(
            fields,
            "websocket_max_connection_num",
            u64::MAX,
        )?;
        let websockets_max_connection_num = find_bounded(
            fields,
            "websockets_max_connection_num",
            u64::MAX,
        )?;
        let send_max_try_mut_times = find_bounded(fields, "send_max_try_mut_times", u64::MAX)?;
        let send_try_mut_sleep_time_ms = find_bounded(
            fields,
            "send_try_mut_sleep_time_ms",
            u64::MAX,
        )?;
        Some(
            MQTTCluster {
                session_expiry_interval: session_expiry_interval as u32,
                topic_alias_max: topic_alias_max as u16,
                max_qos: level_of_number(max_qos),
                retain_available: flag_of_number(retain_available),
                wildcard_subscription_available: flag_of_number(wildcard_subscription_available),
                max_packet_size: max_packet_size as u32,
                subscription_identifiers_available: flag_of_number(
                    subscription_identifiers_available,
                ),
                shared_subscription_available: flag_of_number(shared_subscription_available),
                max_server_keep_alive: max_server_keep_alive as u16,
                default_server_keep_alive: default_server_keep_alive as u16,
                receive_max: receive_max as u16,
                secret_free_login: secret_free_login == 1,
                max_message_expiry_interval,
                client_pkid_persistent: client_pkid_persistent == 1,
                is_self_protection_status: is_self_protection_status == 1,
                tcp_max_connection_num,
                tcps_max_connection_num,
                websocket_max_connection_num,
                websockets_max_connection_num,
                send_max_try_mut_times,
                send_try_mut_sleep_time_ms,
            },
        )
    }

    /// Returns the policy as JSON text: the list of its fields, each as
    /// the pair of its name and its number.
    pub fn encode(&self) -> (text: Vec<u8>)
        ensures
            text@ == json_text(self.wire_fields()),
    {
        write_json(&self.to_fields())
    }

    /// Returns the policy that a JSON text describes, `None` where the
    /// text is no list of named numbers, a field is missing or a number
    /// does not fit its field.
    pub fn decode(text: &[u8]) -> (policy: Option<MQTTCluster>)
        ensures
            policy == match json_fields(text@) {
                Some(fields) => MQTTCluster::policy_of_fields(fields),
                None => None,
            },
    {
        match read_json(text) {
            Some(fields) => MQTTCluster::from_fields(&fields),
            None => None,
        }
    }

    /// Returns how many QoS 1 and QoS 2 packets a client may have in flight.
    pub fn receive_max(&self) -> (value: u16)
        ensures
            value == self.receive_max,
    {
        self.receive_max
    }

    /// Returns the highest level at which the cluster delivers.
    pub fn max_qos(&self) -> (value: QoS)
        ensures
            value == self.max_qos,
    {
        self.max_qos
    }

    /// Returns whether retained messages are offered, as CONNACK carries it:
    /// 0 for `Disable`, 1 for `Enable`.
    pub fn retain_available(&self) -> (value: u8)
        ensures
            value == self.retain_available.ordinal(),
    {
        self.retain_available.code()
    }

    /// Returns the largest packet that the cluster takes, in bytes.
    pub fn max_packet_size(&self) -> (value: u32)
        ensures
            value == self.max_packet_size,
    {
        self.max_packet_size
    }

    /// Returns the highest topic alias that a client may use.
    pub fn topic_alias_max(&self) -> (value: u16)
        ensures
            value == self.topic_alias_max,
    {
        self.topic_alias_max
    }

    /// Returns whether wildcard subscriptions are offered, as CONNACK carries
    /// it: 0 for `Disable`, 1 for `Enable`.
    pub fn wildcard_subscription_available(&self) -> (value: u8)
        ensures
            value == self.wildcard_subscription_available.ordinal(),
    {
        self.wildcard_subscription_available.code()
    }

    /// Returns whether subscription identifiers are offered, as CONNACK
    /// carries it: 0 for `Disable`, 1 for `Enable`.
    pub fn subscription_identifiers_available(&self) -> (value: u8)
        ensures
            value == self.subscription_identifiers_available.ordinal(),
    {
        self.subscription_identifiers_available.code()
    }

    /// Returns whether shared subscriptions are offered, as CONNACK carries
    /// it: 0 for `Disable`, 1 for `Enable`.
    pub fn shared_subscription_available(&self) -> (value: u8)
        ensures
            value == self.shared_subscription_available.ordinal(),
    {
        self.shared_subscription_available.code()
    }

    /// Returns whether clients may connect without credentials.
    pub fn is_secret_free_login(&self) -> (value: bool)
        ensures
            value == self.secret_free_login,
    {
        self.secret_free_login
    }
}

impl Default for MQTTCluster {
    /// The policy in which every number is 0, every switch is off and
    /// every feature is disabled.
    fn default() -> (policy: Self)
        ensures
            policy == (MQTTCluster {
                session_expiry_interval: 0,
                topic_alias_max: 0,
                max_qos: QoS::AtMostOnce,
                retain_available: AvailableFlag::Disable,
                wildcard_subscription_available: AvailableFlag::Disable,
                max_packet_size: 0,
                subscription_identifiers_available: AvailableFlag::Disable,
                shared_subscription_available: AvailableFlag::Disable,
                max_server_keep_alive: 0,
                default_server_keep_alive: 0,
                receive_max: 0,
                secret_free_login: false,
                max_message_expiry_interval: 0,
                client_pkid_persistent: false,
                is_self_protection_status: false,
                tcp_max_connection_num: 0,
                tcps_max_connection_num: 0,
                websocket_max_connection_num: 0,
                websockets_max_connection_num: 0,
                send_max_try_mut_times: 0,
                send_try_mut_sleep_time_ms: 0,
            }),
    {
        MQTTCluster {
            session_expiry_interval: 0,
            topic_alias_max: 0,
            max_qos: QoS::AtMostOnce,
            retain_available: AvailableFlag::Disable,
            wildcard_subscription_available: AvailableFlag::Disable,
            max_packet_size: 0,
            subscription_identifiers_available: AvailableFlag::Disable,
            shared_subscription_available: AvailableFlag::Disable,
            max_server_keep_alive: 0,
            default_server_keep_alive: 0,
            receive_max: 0,
            secret_free_login: false,
            max_message_expiry_interval: 0,
            client_pkid_persistent: false,
            is_self_protection_status: false,
            tcp_max_connection_num: 0,
            tcps_max_connection_num: 0,
            websocket_max_connection_num: 0,
            websockets_max_connection_num: 0,
            send_max_try_mut_times: 0,
            send_try_mut_sleep_time_ms: 0,
        }
    }
}

/// The names of the fields, in the order in which they are written.
pub open spec fn field_names() -> Seq<Seq<char>> {
    seq![
        "session_expiry_interval"@,
        "topic_alias_max"@,
        "max_qos"@,
        "retain_available"@,
        "wildcard_subscription_available"@,
        "max_packet_size"@,
        "subscription_identifiers_available"@,
        "shared_subscription_available"@,
        "max_server_keep_alive"@,
        "default_server_keep_alive"@,
        "receive_max"@,
        "secret_free_login"@,
        "max_message_expiry_interval"@,
        "client_pkid_persistent"@,
        "is_self_protection_status"@,
        "tcp_max_connection_num"@,
        "tcps_max_connection_num"@,
        "websocket_max_connection_num"@,
        "websockets_max_connection_num"@,
        "send_max_try_mut_times"@,
        "send_try_mut_sleep_time_ms"@,
    ]
}

/// No two fields share a name.
pub proof fn lemma_field_names_differ()
    ensures
        field_names().no_duplicates(),
{
    reveal_strlit("session_expiry_interval");
    assert("session_expiry_interval"@.len() == 23 && "session_expiry_interval"@[0] == 's');
    reveal_strlit("topic_alias_max");
    assert("topic_alias_max"@.len() == 15 && "topic_alias_max"@[0] == 't');
    reveal_strlit("max_qos");
    assert("max_qos"@.len() == 7);
    reveal_strlit("retain_available");
    assert("retain_available"@.len() == 16);
    reveal_strlit("wildcard_subscription_available");
    assert("wildcard_subscription_available"@.len() == 31);
    reveal_strlit("max_packet_size");
    assert("max_packet_size"@.len() == 15 && "max_packet_size"@[0] == 'm');
    reveal_strlit("subscription_identifiers_available");
    assert("subscription_identifiers_available"@.len() == 34);
    reveal_strlit("shared_subscription_available");
    assert("shared_subscription_available"@.len() == 29);
    assert("shared_subscription_available"@[0] == 's');
    reveal_strlit("max_server_keep_alive");
    assert("max_server_keep_alive"@.len() == 21);
    reveal_strlit("default_server_keep_alive");
    assert("default_server_keep_alive"@.len() == 25 && "default_server_keep_alive"@[0] == 'd');
    reveal_strlit("receive_max");
    assert("receive_max"@.len() == 11);
    reveal_strlit("secret_free_login");
    assert("secret_free_login"@.len() == 17);
    reveal_strlit("max_message_expiry_interval");
    assert("max_message_expiry_interval"@.len() == 27);
    reveal_strlit("client_pkid_persistent");
    assert("client_pkid_persistent"@.len() == 22 && "client_pkid_persistent"@[0] == 'c');
    reveal_strlit("is_self_protection_status");
    assert("is_self_protection_status"@.len() == 25 && "is_self_protection_status"@[0] == 'i');
    reveal_strlit("tcp_max_connection_num");
    assert("tcp_max_connection_num"@.len() == 22 && "tcp_max_connection_num"@[0] == 't');
    reveal_strlit("tcps_max_connection_num");
    assert("tcps_max_connection_num"@.len() == 23 && "tcps_max_connection_num"@[0] == 't');
    reveal_strlit("websocket_max_connection_num");
    assert("websocket_max_connection_num"@.len() == 28);
    reveal_strlit("websockets_max_connection_num");
    assert("websockets_max_connection_num"@.len() == 29);
    assert("websockets_max_connection_num"@[0] == 'w');
    reveal_strlit("send_max_try_mut_times");
    assert("send_max_try_mut_times"@.len() == 22 && "send_max_try_mut_times"@[0] == 's');
    reveal_strlit("send_try_mut_sleep_time_ms");
    assert("send_try_mut_sleep_time_ms"@.len() == 26);
}

/// What a policy is written as describes the policy again: reading the
/// named numbers of a policy gives that policy back, whatever its fields
/// hold.
pub proof fn lemma_fields_round_trip(policy: MQTTCluster)
    ensures
        MQTTCluster::policy_of_fields(policy.wire_fields()) == Some(policy),
{
    let fields = policy.wire_fields();
    let names = field_names();
    lemma_field_names_differ();
    assert(fields.len() == 21 && names.len() == 21);
    assert forall|k: int| 0 <= k < 21 implies fields[k].0 == names[k] && number_of(
        fields,
        #[trigger] names[k],
    ) == Some(fields[k].1) by {
        assert forall|j: int| 0 <= j < 21 implies (#[trigger] fields[j]).0 == names[j] by {}
        lemma_number_at(fields, names[k], k);
    }
    assert(forall|k: int| 0 <= k < 21 ==> at(fields, #[trigger] names[k]) == fields[k].1);
    assert(MQTTCluster::fields_describe_policy(fields));
}

} // verus!

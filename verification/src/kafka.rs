//! Kafka client settings, held in `rdkafka`'s own `ClientConfig`.
use vstd::prelude::*;
use rdkafka::config::ClientConfig;
use crate::text::{decimal, owned, push_decimal};

verus! {

#[verifier::external_type_specification]
#[verifier::external_body]
pub struct ExClientConfig(ClientConfig);

/// The settings that a `ClientConfig` holds, key to value.
pub uninterp spec fn config_entries(c: ClientConfig) -> Map<Seq<char>, Seq<char>>;

/// An empty configuration: `ClientConfig::new`. Claimed: it holds no setting.
#[verifier::external_body]
pub fn config_new() -> (c: ClientConfig)
    ensures
        config_entries(c).dom().is_empty(),
{
    ClientConfig::new()
}

/// Sets `key` to `value`: `ClientConfig::set`, which inserts into the
/// configuration's map and so replaces an earlier value of `key`.
#[verifier::external_body]
pub fn config_set(c: &mut ClientConfig, key: &str, value: &str)
    ensures
        config_entries(*final(c)) == config_entries(*old(c)).insert(key@, value@),
{
    c.set(key, value);
}

/// The address `host:port` of a broker, from text parts.
pub open spec fn address(host: Seq<char>, port: Seq<char>) -> Seq<char> {
    host + ":"@ + port
}

/// The settings of a stock consumer in group `group_id` reading from `brokers`,
/// starting from the earliest offset when the group has none.
pub open spec fn consumer_settings(group_id: Seq<char>, brokers: Seq<char>) -> Map<Seq<char>, Seq<char>> {
    Map::empty().insert("group.id"@, group_id).insert("bootstrap.servers"@, brokers).insert(
        "auto.offset.reset"@,
        "earliest"@,
    )
}

/// The settings of a producer sending to the broker at `host:port`, giving up
/// on a message after five seconds.
pub open spec fn producer_settings(host: Seq<char>, port: Seq<char>) -> Map<Seq<char>, Seq<char>> {
    Map::empty().insert("bootstrap.servers"@, address(host, port)).insert(
        "message.timeout.ms"@,
        "5000"@,
    )
}

/// The address `host:port` of a broker.
pub fn broker_address(host: &str, port: &str) -> (r: String)
    ensures
        r@ == address(host@, port@),
{
    let mut r = owned(host);
    r.append(":");
    r.append(port);
    r
}

/// The address `host:port` of a broker, the port given as a number.
pub fn broker_address_for_port(host: &str, port: u16) -> (r: String)
    ensures
        r@ == address(host@, decimal(port as nat)),
{
    let mut r = owned(host);
    r.append(":");
    push_decimal(&mut r, port);
    r
}

/// The configuration of a consumer in group `group_id` reading from `brokers`.
pub fn consumer_config(group_id: &str, brokers: &str) -> (c: ClientConfig)
    ensures
        config_entries(c) == consumer_settings(group_id@, brokers@),
{
    let mut c = config_new();
    config_set(&mut c, "group.id", group_id);
    config_set(&mut c, "bootstrap.servers", brokers);
    config_set(&mut c, "auto.offset.reset", "earliest");
    assert(config_entries(c) =~= consumer_settings(group_id@, brokers@));
    c
}

/// The configuration of a producer sending to the broker at `host:port`.
pub fn producer_config(host: &str, port: &str) -> (c: ClientConfig)
    ensures
        config_entries(c) == producer_settings(host@, port@),
{
    let mut c = config_new();
    let servers = broker_address(host, port);
    config_set(&mut c, "bootstrap.servers", servers.as_str());
    config_set(&mut c, "message.timeout.ms", "5000");
    assert(config_entries(c) =~= producer_settings(host@, port@));
    c
}

/// A consumer's settings are exactly: the group it is given, the brokers it
/// is given, and reading from the earliest offset.
pub proof fn law_consumer_settings_use_their_arguments(group_id: Seq<char>, brokers: Seq<char>)
    ensures
        consumer_settings(group_id, brokers).dom() =~= set!["group.id"@, "bootstrap.servers"@, "auto.offset.reset"@],
        consumer_settings(group_id, brokers)["group.id"@] == group_id,
        consumer_settings(group_id, brokers)["bootstrap.servers"@] == brokers,
        consumer_settings(group_id, brokers)["auto.offset.reset"@] == "earliest"@,
{
    reveal_strlit("group.id");
    reveal_strlit("bootstrap.servers");
    reveal_strlit("auto.offset.reset");
    assert("group.id"@ != "bootstrap.servers"@) by {
        assert("group.id"@.len() != "bootstrap.servers"@.len());
    }
    assert("group.id"@ != "auto.offset.reset"@) by {
        assert("group.id"@.len() != "auto.offset.reset"@.len());
    }
    assert("bootstrap.servers"@ != "auto.offset.reset"@) by {
        assert("bootstrap.servers"@[0] != "auto.offset.reset"@[0]);
    }
}

/// A producer's settings are exactly: the broker `host:port` and a five
/// second delivery timeout.
pub proof fn law_producer_settings_use_their_arguments(host: Seq<char>, port: Seq<char>)
    ensures
        producer_settings(host, port).dom() =~= set!["bootstrap.servers"@, "message.timeout.ms"@],
        producer_settings(host, port)["bootstrap.servers"@] == host + seq![':'] + port,
        producer_settings(host, port)["message.timeout.ms"@] == "5000"@,
{
    reveal_strlit("bootstrap.servers");
    reveal_strlit("message.timeout.ms");
    reveal_strlit(":");
    assert(":"@ =~= seq![':']);
    assert("bootstrap.servers"@ != "message.timeout.ms"@) by {
        assert("bootstrap.servers"@.len() != "message.timeout.ms"@.len());
    }
}

} // verus!

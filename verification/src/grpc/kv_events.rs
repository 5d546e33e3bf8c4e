//! Where the ranks of the engine publish their KV cache events.

use super::pb;
use crate::engine::EngineCoreReadyResponse;
use crate::text::{
    brackets_are_taken_off, chars_of, decimal, decimal_text, find_last, last_position,
    last_positions_are_last, lemma_decimal_is_injective, no_text, numbers_are_read_back, occurs,
    occurs_at, or_empty, parse_u32, parsed_u32, parts_are_found, same_text, strip_prefix,
    text_contains, text_or_empty, text_view, trim_brackets, unbracketed, without_prefix,
};
use vstd::prelude::*;

verus! {

/// A text split at its last colon.
pub open spec fn split_at_colon(text: Seq<char>) -> Option<(Seq<char>, Seq<char>)> {
    match last_position(text, ':') {
        Some(i) => Some((text.take(i), text.skip(i + 1))),
        None => None,
    }
}

pub open spec fn split_views(split: Option<(&str, &str)>) -> Option<(Seq<char>, Seq<char>)> {
    match split {
        Some(parts) => Some((parts.0@, parts.1@)),
        None => None,
    }
}

fn rsplit_at_colon<'a>(text: &'a str) -> (split: Option<(&'a str, &'a str)>)
    ensures
        split_views(split) == split_at_colon(text@),
{
    let chars = chars_of(text);
    let total: usize = chars.len();
    match find_last(&chars, ':') {
        Some(i) => {
            let base = text.substring_char(0, i);
            let rest = text.substring_char(i + 1, total);
            assert(base@ =~= text@.take(i as int));
            assert(rest@ =~= text@.skip(i + 1));
            Some((base, rest))
        },
        None => None,
    }
}

/// The base and the port of a TCP endpoint that gives its port as a number.
pub open spec fn tcp_port(endpoint: Seq<char>) -> Option<(Seq<char>, u32)> {
    if occurs(endpoint, "tcp"@) {
        match split_at_colon(endpoint) {
            Some(parts) => match parsed_u32(parts.1) {
                Some(port) => Some((parts.0, port)),
                None => None,
            },
            None => None,
        }
    } else {
        None
    }
}

/// Whether the endpoint of a rank is that of another one at a different port.
pub open spec fn moves_port(endpoint: Seq<char>, data_parallel_rank: u32) -> bool {
    data_parallel_rank != 0 && endpoint.len() > 0 && !occurs(endpoint, "inproc"@) && tcp_port(
        endpoint,
    ) is Some
}

/// Whether the port of a rank can be written in 32 bits.
pub open spec fn port_fits(endpoint: Seq<char>, data_parallel_rank: u32) -> bool {
    moves_port(endpoint, data_parallel_rank) ==> tcp_port(endpoint)->Some_0.1 + data_parallel_rank
        <= u32::MAX
}

/// The endpoint of a rank, given that of the first one: a name with a suffix within a process,
/// and another port over TCP.
pub open spec fn offset_endpoint(endpoint: Seq<char>, data_parallel_rank: u32) -> Seq<char> {
    if data_parallel_rank == 0 || endpoint.len() == 0 {
        endpoint
    } else if occurs(endpoint, "inproc"@) {
        endpoint + "_dp"@ + decimal(data_parallel_rank as nat)
    } else {
        match tcp_port(endpoint) {
            Some(parts) => parts.0 + ":"@ + decimal((parts.1 + data_parallel_rank) as nat),
            None => endpoint,
        }
    }
}

fn split_tcp_port<'a>(endpoint: &'a str) -> (parts: Option<(&'a str, u32)>)
    ensures
        match parts {
            Some(parts) => tcp_port(endpoint@) == Some((parts.0@, parts.1)),
            None => tcp_port(endpoint@) is None,
        },
{
    if !text_contains(endpoint, "tcp") {
        return None;
    }
    match rsplit_at_colon(endpoint) {
        Some((base, port)) => match parse_u32(port) {
            Some(port) => Some((base, port)),
            None => None,
        },
        None => None,
    }
}

/// Whether the port of a rank can be written in 32 bits.
pub fn endpoint_port_fits(endpoint: &str, data_parallel_rank: u32) -> (fits: bool)
    ensures
        fits == port_fits(endpoint@, data_parallel_rank),
{
    if data_parallel_rank == 0 || endpoint.is_empty() || text_contains(endpoint, "inproc") {
        return true;
    }
    match split_tcp_port(endpoint) {
        Some((_, port)) => port <= 0xffff_ffff - data_parallel_rank,
        None => true,
    }
}

pub fn offset_endpoint_port(endpoint: &str, data_parallel_rank: u32) -> (offset: String)
    requires
        port_fits(endpoint@, data_parallel_rank),
    ensures
        offset@ == offset_endpoint(endpoint@, data_parallel_rank),
{
    if data_parallel_rank == 0 || endpoint.is_empty() {
        return endpoint.to_string();
    }
    if text_contains(endpoint, "inproc") {
        return endpoint.to_string().concat("_dp").concat(
            decimal_text(data_parallel_rank as u64).as_str(),
        );
    }
    match split_tcp_port(endpoint) {
        Some((base, port)) => base.to_string().concat(":").concat(
            decimal_text((port + data_parallel_rank) as u64).as_str(),
        ),
        None => endpoint.to_string(),
    }
}

/// Whether a host stands for every address of the machine.
pub open spec fn any_host(host: Seq<char>) -> bool {
    host == "*"@ || host == "0.0.0.0"@ || host == "::"@ || host.len() == 0
}

/// The host and the port that a ZMQ endpoint is reached at. A host that stands for every address
/// is replaced by the one that the machine is known by.
pub open spec fn zmq_address(endpoint: Seq<char>, advertised: Seq<char>) -> Option<(
    Seq<char>,
    u32,
)> {
    match split_at_colon(without_prefix(endpoint, "tcp://"@)) {
        Some(parts) => match parsed_u32(parts.1) {
            Some(port) => Some(
                (
                    if any_host(unbracketed(parts.0)) {
                        advertised
                    } else {
                        unbracketed(parts.0)
                    },
                    port,
                ),
            ),
            None => None,
        },
        None => None,
    }
}

pub open spec fn endpoint_set(
    endpoint: Option<pb::KvEventEndpoint>,
    address: Option<(Seq<char>, u32)>,
) -> bool {
    match address {
        Some(address) => endpoint matches Some(endpoint) && endpoint.host@ == address.0
            && endpoint.port == address.1 && endpoint.protocol@ == "tcp"@,
        None => endpoint is None,
    }
}

pub fn kv_endpoint_from_zmq(endpoint: &str, advertised: &str) -> (found: Option<
    pb::KvEventEndpoint,
>)
    ensures
        endpoint_set(found, zmq_address(endpoint@, advertised@)),
{
    let rest = strip_prefix(endpoint, "tcp://");
    let (host, port) = match rsplit_at_colon(rest) {
        Some(parts) => parts,
        None => {
            return None;
        },
    };
    let port: u32 = match parse_u32(port) {
        Some(port) => port,
        None => {
            return None;
        },
    };
    let concrete = trim_brackets(host);
    let host = if same_text(concrete, "*") || same_text(concrete, "0.0.0.0") || same_text(
        concrete,
        "::",
    ) || concrete.is_empty() {
        advertised.to_string()
    } else {
        concrete.to_string()
    };
    Some(pb::KvEventEndpoint { host, port, protocol: "tcp".to_string() })
}

/// Whether a rank publishes its events over ZMQ.
pub open spec fn over_zmq(response: EngineCoreReadyResponse) -> bool {
    response.kv_events_publisher matches Some(publisher) && publisher@ == "zmq"@
}

/// Whether the endpoint that a rank publishes its events at, if it does, has a port that can be
/// written.
pub open spec fn events_fit(response: EngineCoreReadyResponse) -> bool {
    over_zmq(response) && response.kv_events_endpoint is Some ==> port_fits(
        response.kv_events_endpoint->Some_0@,
        response.data_parallel_rank,
    )
}

/// Where a rank publishes its events, if it does so over ZMQ.
pub open spec fn events_address(response: EngineCoreReadyResponse, advertised: Seq<char>) -> Option<
    (Seq<char>, u32),
> {
    if over_zmq(response) {
        match response.kv_events_endpoint {
            Some(endpoint) => zmq_address(
                offset_endpoint(endpoint@, response.data_parallel_rank),
                advertised,
            ),
            None => None,
        }
    } else {
        None
    }
}

/// Whether `source` tells where and how a rank publishes its events.
pub open spec fn source_set(
    source: pb::KvEventSource,
    response: EngineCoreReadyResponse,
    address: (Seq<char>, u32),
) -> bool {
    &&& source.transport@ == "zmq"@
    &&& endpoint_set(source.endpoint_addr, Some(address))
    &&& source.topic@ == or_empty(text_view(response.kv_events_topic))
    &&& source.replay_endpoint@ == Seq::<char>::empty()
    &&& source.data_parallel_rank == Some(response.data_parallel_rank)
    &&& source.encoding@ == "msgpack"@
    &&& source.schema_version == 1
    &&& source.buffer_steps == 0
    &&& source.hwm == 0
    &&& source.max_queue_size == 0
}

pub fn kv_event_source(response: &EngineCoreReadyResponse, advertised: &str) -> (source: Option<
    pb::KvEventSource,
>)
    requires
        events_fit(*response),
    ensures
        match events_address(*response, advertised@) {
            Some(address) => source matches Some(source) && source_set(
                source,
                *response,
                address,
            ),
            None => source is None,
        },
{
    let over_zmq = match &response.kv_events_publisher {
        Some(publisher) => same_text(publisher.as_str(), "zmq"),
        None => false,
    };
    if !over_zmq {
        return None;
    }
    let endpoint = match &response.kv_events_endpoint {
        Some(endpoint) => offset_endpoint_port(endpoint.as_str(), response.data_parallel_rank),
        None => {
            return None;
        },
    };
    let endpoint_addr = match kv_endpoint_from_zmq(endpoint.as_str(), advertised) {
        Some(endpoint) => endpoint,
        None => {
            return None;
        },
    };
    Some(
        pb::KvEventSource {
            transport: "zmq".to_string(),
            endpoint_addr: Some(endpoint_addr),
            topic: text_or_empty(&response.kv_events_topic),
            replay_endpoint: no_text(),
            data_parallel_rank: Some(response.data_parallel_rank),
            encoding: "msgpack".to_string(),
            schema_version: 1,
            buffer_steps: 0,
            hwm: 0,
            max_queue_size: 0,
        },
    )
}

/// The ranks that publish their events over ZMQ, in order.
pub open spec fn publishing(responses: Seq<EngineCoreReadyResponse>, advertised: Seq<char>) -> Seq<
    EngineCoreReadyResponse,
>
    decreases responses.len(),
{
    if responses.len() == 0 {
        Seq::empty()
    } else {
        let before = publishing(responses.drop_last(), advertised);
        if events_address(responses.last(), advertised) is Some {
            before.push(responses.last())
        } else {
            before
        }
    }
}

/// Whether there is one source for each of some ranks.
pub open spec fn sources_set(
    sources: Seq<pb::KvEventSource>,
    ranks: Seq<EngineCoreReadyResponse>,
    advertised: Seq<char>,
) -> bool {
    &&& sources.len() == ranks.len()
    &&& forall|i: int|
        0 <= i < sources.len() ==> source_set(
            #[trigger] sources[i],
            ranks[i],
            events_address(ranks[i], advertised)->Some_0,
        )
}

/// Where the ranks of the engine publish their events. `advertised` is the address that the
/// machine is known by.
pub fn kv_event_sources(responses: &Vec<EngineCoreReadyResponse>, advertised: &str) -> (sources:
    Vec<pb::KvEventSource>)
    requires
        forall|i: int| 0 <= i < responses@.len() ==> events_fit(#[trigger] responses@[i]),
    ensures
        sources_set(sources@, publishing(responses@, advertised@), advertised@),
{
    let mut sources: Vec<pb::KvEventSource> = Vec::new();
    for i in 0..responses.len()
        invariant
            forall|i: int| 0 <= i < responses@.len() ==> events_fit(#[trigger] responses@[i]),
            sources_set(
                sources@,
                publishing(responses@.take(i as int), advertised@),
                advertised@,
            ),
    {
        assert(responses@.take(i + 1).drop_last() =~= responses@.take(i as int));
        assert(responses@.take(i + 1).last() == responses@[i as int]);
        if let Some(source) = kv_event_source(&responses[i], advertised) {
            sources.push(source);
        }
    }
    assert(responses@.take(responses@.len() as int) =~= responses@);
    sources
}

/// Different ranks of one engine are given different TCP ports.
pub proof fn ranks_have_their_own_ports(endpoint: Seq<char>, rank: u32, other: u32)
    requires
        moves_port(endpoint, rank),
        moves_port(endpoint, other),
        rank != other,
    ensures
        offset_endpoint(endpoint, rank) != offset_endpoint(endpoint, other),
{
    let parts = tcp_port(endpoint)->Some_0;
    let a = decimal((parts.1 + rank) as nat);
    let b = decimal((parts.1 + other) as nat);
    if offset_endpoint(endpoint, rank) == offset_endpoint(endpoint, other) {
        let front = parts.0 + ":"@;
        assert((front + a).skip(front.len() as int) =~= a);
        assert((front + b).skip(front.len() as int) =~= b);
        lemma_decimal_is_injective((parts.1 + rank) as nat, (parts.1 + other) as nat);
    }
}

proof fn lemma_split_at_last_colon(front: Seq<char>, port: nat)
    ensures
        split_at_colon(front + ":"@ + decimal(port)) == Some((front, decimal(port))),
{
    reveal_strlit(":");
    let text = front + ":"@ + decimal(port);
    numbers_are_read_back(port);
    last_positions_are_last(text, ':');
    assert(text[front.len() as int] == ':');
    assert forall|j: int| front.len() < j < text.len() implies #[trigger] text[j] != ':' by {
        assert(text[j] == decimal(port)[j - front.len() - 1]);
    }
    assert(last_position(text, ':') == Some(front.len() as int));
    assert(text.take(front.len() as int) =~= front);
    assert(text.skip(front.len() as int + 1) =~= decimal(port));
}

/// Over TCP, a rank publishes at the port that comes as many places behind that of the first one
/// as its rank says, on the same host. The first one publishes where it was told to.
pub proof fn ranks_publish_behind_the_first(host: Seq<char>, port: u32, rank: u32)
    requires
        port + rank <= 4294967295,
        !occurs("tcp://"@ + host + ":"@ + decimal(port as nat), "inproc"@),
    ensures
        offset_endpoint("tcp://"@ + host + ":"@ + decimal(port as nat), rank) == "tcp://"@ + host
            + ":"@ + decimal((port + rank) as nat),
{
    reveal_strlit("tcp://");
    reveal_strlit("tcp");
    let front = "tcp://"@ + host;
    let endpoint = front + ":"@ + decimal(port as nat);
    assert(endpoint.subrange(0, 3) =~= "tcp"@);
    assert(occurs_at(endpoint, "tcp"@, 0));
    lemma_split_at_last_colon(front, port as nat);
    numbers_are_read_back(port as nat);
}

/// Within a process, a rank publishes under the name of the first one and its rank. The first
/// one, and what is no endpoint of either kind, keeps its name.
pub proof fn names_within_a_process_tell_the_rank(endpoint: Seq<char>, rank: u32)
    ensures
        offset_endpoint(endpoint, 0) == endpoint,
        rank > 0 && endpoint.len() > 0 && occurs(endpoint, "inproc"@) ==> offset_endpoint(
            endpoint,
            rank,
        ) == endpoint + "_dp"@ + decimal(rank as nat),
        !occurs(endpoint, "inproc"@) && !occurs(endpoint, "tcp"@) ==> offset_endpoint(
            endpoint,
            rank,
        ) == endpoint,
{
}

/// An endpoint is reached at its host and its port, whether it names its protocol or not. A host
/// that stands for all addresses is replaced by the one that the machine is known by.
pub proof fn endpoints_are_reached_at_their_host(
    host: Seq<char>,
    port: u32,
    advertised: Seq<char>,
    found: pb::KvEventEndpoint,
)
    requires
        endpoint_set(
            Some(found),
            zmq_address("tcp://"@ + host + ":"@ + decimal(port as nat), advertised),
        ),
    ensures
        found.port == port,
        found.protocol@ == "tcp"@,
        host == "*"@ || host == "0.0.0.0"@ || host == "::"@ || host == "[::]"@ || host.len() == 0
            ==> found.host@ == advertised,
        host.len() > 0 && host[0] != '[' && host[0] != ']' && host[host.len() - 1] != '['
            && host[host.len() - 1] != ']' && host != "*"@ && host != "0.0.0.0"@ && host != "::"@
            ==> found.host@ == host,
{
    reveal_strlit("*");
    reveal_strlit("0.0.0.0");
    reveal_strlit("::");
    reveal_strlit("[::]");
    let rest = host + ":"@ + decimal(port as nat);
    assert("tcp://"@ + host + ":"@ + decimal(port as nat) =~= "tcp://"@ + rest);
    parts_are_found(Seq::empty(), "tcp://"@, rest);
    lemma_split_at_last_colon(host, port as nat);
    numbers_are_read_back(port as nat);
    assert("[::]"@ =~= seq!['['] + "::"@ + seq![']']);
    brackets_are_taken_off("::"@);
    brackets_are_taken_off("*"@);
    brackets_are_taken_off("0.0.0.0"@);
    if host.len() > 0 && host[0] != '[' && host[0] != ']' && host[host.len() - 1] != '['
        && host[host.len() - 1] != ']' {
        brackets_are_taken_off(host);
    }
}

/// What has no port behind a colon is not reached at all.
pub proof fn endpoints_need_a_port(endpoint: Seq<char>, advertised: Seq<char>)
    requires
        forall|i: int| 0 <= i < endpoint.len() ==> #[trigger] endpoint[i] != ':',
    ensures
        zmq_address(endpoint, advertised) is None,
{
    reveal_strlit("tcp://");
    assert(!occurs_at(endpoint, "tcp://"@, 0)) by {
        if occurs_at(endpoint, "tcp://"@, 0) {
            assert("tcp://"@[3] == ':');
            assert(endpoint.subrange(0, 6)[3] == endpoint[3]);
        }
    }
    last_positions_are_last(endpoint, ':');
}

proof fn lemma_publishing_filter(
    responses: Seq<EngineCoreReadyResponse>,
    advertised: Seq<char>,
    publishes: spec_fn(EngineCoreReadyResponse) -> bool,
)
    requires
        forall|response: EngineCoreReadyResponse| #[trigger] publishes(response)
            == (events_address(response, advertised) is Some),
    ensures
        publishing(responses, advertised) == responses.filter(publishes),
    decreases responses.len(),
{
    reveal(Seq::filter);
    if responses.len() > 0 {
        lemma_publishing_filter(responses.drop_last(), advertised, publishes);
        assert(publishes(responses.last()) == (events_address(responses.last(), advertised)
            is Some));
    }
}

/// There is a source for every rank that publishes over ZMQ at an endpoint that can be reached,
/// in the order of the ranks, and for no other: over ZMQ, in MessagePack, under the topic and the
/// rank that the engine gave.
pub proof fn sources_are_those_of_the_publishers(
    sources: Seq<pb::KvEventSource>,
    responses: Seq<EngineCoreReadyResponse>,
    advertised: Seq<char>,
    publishes: spec_fn(EngineCoreReadyResponse) -> bool,
    i: int,
)
    requires
        sources_set(sources, publishing(responses, advertised), advertised),
        forall|response: EngineCoreReadyResponse| #[trigger] publishes(response) == {
            &&& response.kv_events_publisher matches Some(publisher)
            &&& publisher@ == "zmq"@
            &&& response.kv_events_endpoint matches Some(endpoint)
            &&& zmq_address(
                offset_endpoint(endpoint@, response.data_parallel_rank),
                advertised,
            ) is Some
        },
    ensures
        sources.len() == responses.filter(publishes).len(),
        0 <= i < sources.len() ==> {
            let rank = responses.filter(publishes)[i];
            let address = zmq_address(
                offset_endpoint(rank.kv_events_endpoint->Some_0@, rank.data_parallel_rank),
                advertised,
            );
            &&& sources[i].transport@ == "zmq"@
            &&& sources[i].encoding@ == "msgpack"@
            &&& sources[i].schema_version == 1
            &&& sources[i].data_parallel_rank == Some(rank.data_parallel_rank)
            &&& sources[i].replay_endpoint@.len() == 0
            &&& sources[i].buffer_steps == 0 && sources[i].hwm == 0 && sources[i].max_queue_size
                == 0
            &&& rank.kv_events_topic is None ==> sources[i].topic@.len() == 0
            &&& rank.kv_events_topic matches Some(topic) ==> sources[i].topic@ == topic@
            &&& sources[i].endpoint_addr matches Some(endpoint) && address == Some(
                (endpoint.host@, endpoint.port),
            ) && endpoint.protocol@ == "tcp"@
        },
{
    lemma_publishing_filter(responses, advertised, publishes);
    let ranks = publishing(responses, advertised);
    if 0 <= i < sources.len() {
        assert(source_set(
            sources[i],
            ranks[i],
            events_address(ranks[i], advertised)->Some_0,
        ));
        assert(publishes(ranks[i])) by {
            responses.lemma_filter_pred(publishes, i);
        }
    }
}

/// An endpoint whose last part is no port keeps its name for every rank, and is reached nowhere.
pub proof fn endpoints_without_a_port_are_kept(
    front: Seq<char>,
    back: Seq<char>,
    rank: u32,
    advertised: Seq<char>,
)
    requires
        !back.contains(':'),
        parsed_u32(back) is None,
        !occurs(front + ":"@ + back, "inproc"@),
    ensures
        offset_endpoint(front + ":"@ + back, rank) == front + ":"@ + back,
        tcp_port(front + ":"@ + back) is None,
        zmq_address("tcp://"@ + (front + ":"@ + back), advertised) is None,
{
    reveal_strlit(":");
    let text = front + ":"@ + back;
    last_positions_are_last(text, ':');
    assert(text[front.len() as int] == ':');
    assert forall|j: int| front.len() < j < text.len() implies #[trigger] text[j] != ':' by {
        assert(text[j] == back[j - front.len() - 1]);
    }
    assert(last_position(text, ':') == Some(front.len() as int));
    assert(text.skip(front.len() as int + 1) =~= back);
    parts_are_found(Seq::empty(), "tcp://"@, text);
}

/// An endpoint is told exactly where it is reached somewhere.
pub proof fn endpoints_are_told_where_they_are_reached(
    found: Option<pb::KvEventEndpoint>,
    endpoint: Seq<char>,
    advertised: Seq<char>,
)
    requires
        endpoint_set(found, zmq_address(endpoint, advertised)),
    ensures
        found is Some <==> zmq_address(endpoint, advertised) is Some,
{
}

} // verus!

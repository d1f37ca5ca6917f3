//! Port arithmetic and the byte-level encodings used by the discovery
//! layer: hex renderings of GUIDs, endpoint addresses, and the DDS-to-ROS
//! topic name convention.

use vstd::prelude::*;
use vstd::string::*;
use crate::entities::Host;
use crate::outside::{hex_encode, hex_lower_spec, hex_pair};
use crate::strutil::{
    dec_spec, hex_digit_char, starts_with_spec, str_starts_with, str_views, u64_to_dec,
};

verus! {

/// Ports derived from a domain id, following the standard DDS port mapping
/// formulas.
pub struct Port {
    pub discovery_mcast_port: u32,
    pub user_mcast_port: u32,
    pub discovery_unicast_port: u32,
    pub user_unicast_port: u32,
}

/// Computes the four well-known ports of a DDS domain.  Only one participant
/// per host is assumed, so the participant id is fixed at zero.
pub fn domain_ports(domain_id: u32) -> (p: Port)
    requires
        7400 + 250 * (domain_id as int) + 11 <= u32::MAX as int,
    ensures
        p.discovery_mcast_port == 7400 + 250 * (domain_id as int),
        p.user_mcast_port == 7400 + 250 * (domain_id as int) + 1,
        p.discovery_unicast_port == 7400 + 250 * (domain_id as int) + 10,
        p.user_unicast_port == 7400 + 250 * (domain_id as int) + 11,
{
    let d0: u32 = 0;
    let d2: u32 = 1;
    let d1: u32 = 10;
    let d3: u32 = 11;
    let pb: u32 = 7400;
    let dg: u32 = 250;
    let pg: u32 = 2;

    // A single participant is assumed for now.
    let participant_id: u32 = 0;

    Port {
        discovery_mcast_port: pb + (dg * domain_id) + d0,
        user_mcast_port: pb + (dg * domain_id) + d2,
        discovery_unicast_port: pb + (dg * domain_id) + d1 + (pg * participant_id),
        user_unicast_port: pb + (dg * domain_id) + d3 + (pg * participant_id),
    }
}

/// Host discovery over the wire is not implemented; every node is assumed
/// local.
pub fn find_node_host(_node_name: String, _domain_id: u32) -> (r: Host)
    ensures
        r@.ip == "127.0.0.1"@,
        r@.name == "localhost"@,
{
    Host { name: String::from_str("localhost"), ip: String::from_str("127.0.0.1") }
}

// ---------------------------------------------------------------------------
// Hex decoding and encoding
// ---------------------------------------------------------------------------

/// The value of a hex digit, or -1.
pub open spec fn hex_val(c: char) -> int {
    if c == '0' {
        0
    } else if c == '1' {
        1
    } else if c == '2' {
        2
    } else if c == '3' {
        3
    } else if c == '4' {
        4
    } else if c == '5' {
        5
    } else if c == '6' {
        6
    } else if c == '7' {
        7
    } else if c == '8' {
        8
    } else if c == '9' {
        9
    } else if c == 'a' || c == 'A' {
        10
    } else if c == 'b' || c == 'B' {
        11
    } else if c == 'c' || c == 'C' {
        12
    } else if c == 'd' || c == 'D' {
        13
    } else if c == 'e' || c == 'E' {
        14
    } else if c == 'f' || c == 'F' {
        15
    } else {
        -1
    }
}

/// Decoding of a hex string of even length: defined exactly when every
/// character is a hex digit.
pub open spec fn decode_hex_spec(s: Seq<char>) -> Option<Seq<u8>>
    recommends
        s.len() % 2 == 0,
    decreases s.len(),
{
    if s.len() == 0 {
        Some(Seq::<u8>::empty())
    } else if s.len() == 1 {
        None
    } else if hex_val(s[0]) >= 0 && hex_val(s[1]) >= 0 {
        match decode_hex_spec(s.skip(2)) {
            Some(t) => Some(seq![(hex_val(s[0]) * 16 + hex_val(s[1])) as u8] + t),
            None => None,
        }
    } else {
        None
    }
}

/// Decoding failed: some character was not a hex digit.
#[derive(Clone, Copy, PartialEq, Eq, Structural, Debug)]
pub struct HexError {}

fn hex_val_char(c: char) -> (r: Option<u8>)
    ensures
        match r {
            Some(v) => v as int == hex_val(c),
            None => hex_val(c) == -1,
        },
{
    if c == '0' {
        Some(0)
    } else if c == '1' {
        Some(1)
    } else if c == '2' {
        Some(2)
    } else if c == '3' {
        Some(3)
    } else if c == '4' {
        Some(4)
    } else if c == '5' {
        Some(5)
    } else if c == '6' {
        Some(6)
    } else if c == '7' {
        Some(7)
    } else if c == '8' {
        Some(8)
    } else if c == '9' {
        Some(9)
    } else if c == 'a' || c == 'A' {
        Some(10)
    } else if c == 'b' || c == 'B' {
        Some(11)
    } else if c == 'c' || c == 'C' {
        Some(12)
    } else if c == 'd' || c == 'D' {
        Some(13)
    } else if c == 'e' || c == 'E' {
        Some(14)
    } else if c == 'f' || c == 'F' {
        Some(15)
    } else {
        None
    }
}

/// An `Option` sequence with a decoded prefix in front.
pub open spec fn opt_bytes_concat(v: Seq<u8>, o: Option<Seq<u8>>) -> Option<Seq<u8>> {
    match o {
        Some(t) => Some(v + t),
        None => None,
    }
}

/// Decodes a hex string of even length into its bytes; an error reports a
/// character that is not a hex digit.
pub fn decode_hex(s: &str) -> (r: Result<Vec<u8>, HexError>)
    requires
        s@.len() % 2 == 0,
    ensures
        match r {
            Ok(v) => decode_hex_spec(s@) == Some(v@),
            Err(e) => decode_hex_spec(s@) is None,
        },
{
    let n = s.unicode_len();
    let mut out: Vec<u8> = Vec::new();
    let mut i: usize = 0;
    proof {
        assert(s@.subrange(0, n as int) =~= s@);
    }
    while i < n
        invariant
            0 <= i <= n,
            i % 2 == 0,
            n == s@.len(),
            n % 2 == 0,
            decode_hex_spec(s@) == opt_bytes_concat(
                out@,
                decode_hex_spec(s@.subrange(i as int, n as int)),
            ),
        decreases n - i,
    {
        let ghost tail = s@.subrange(i as int, n as int);
        let hi = hex_val_char(s.get_char(i));
        let lo = hex_val_char(s.get_char(i + 1));
        proof {
            assert(tail.len() >= 2);
            assert(tail[0] == s@[i as int]);
            assert(tail[1] == s@[i + 1]);
        }
        match (hi, lo) {
            (Some(h), Some(l)) => {
                let b: u8 = h * 16 + l;
                let ghost out0 = out@;
                out.push(b);
                i = i + 2;
                proof {
                    let tail2 = s@.subrange(i as int, n as int);
                    assert(tail.skip(2) =~= tail2);
                    assert(decode_hex_spec(tail) == (match decode_hex_spec(tail2) {
                        Some(t) => Some(seq![b] + t),
                        None => None,
                    }));
                    match decode_hex_spec(tail2) {
                        Some(t) => {
                            assert(out0 + (seq![b] + t) =~= out@ + t);
                        },
                        None => {},
                    }
                }
            },
            _ => {
                proof {
                    assert(decode_hex_spec(tail) is None);
                }
                return Err(HexError {});
            },
        }
    }
    proof {
        assert(s@.subrange(n as int, n as int) =~= Seq::<char>::empty());
        assert(decode_hex_spec(s@) == Some(out@ + Seq::<u8>::empty()));
        assert(out@ + Seq::<u8>::empty() =~= out@);
    }
    Ok(out)
}

proof fn lemma_hex_lower_push(bs: Seq<u8>, x: u8)
    ensures
        hex_lower_spec(bs.push(x)) == hex_lower_spec(bs) + hex_pair(x),
    decreases bs.len(),
{
    if bs.len() == 0 {
        assert(bs.push(x)[0] == x);
        assert(bs.push(x).drop_first() =~= Seq::<u8>::empty());
        assert(hex_lower_spec(bs.push(x)) =~= hex_pair(x) + hex_lower_spec(Seq::<u8>::empty()));
        assert(hex_pair(x) + Seq::<char>::empty() =~= hex_pair(x));
        assert(hex_lower_spec(bs) + hex_pair(x) =~= hex_pair(x));
    } else {
        assert(bs.push(x)[0] == bs[0]);
        assert(bs.push(x).drop_first() =~= bs.drop_first().push(x));
        lemma_hex_lower_push(bs.drop_first(), x);
        assert(hex_pair(bs[0]) + (hex_lower_spec(bs.drop_first()) + hex_pair(x)) =~= (hex_pair(
            bs[0],
        ) + hex_lower_spec(bs.drop_first())) + hex_pair(x));
    }
}

/// Writes the bytes as lowercase hex, two digits per byte.
pub fn encode_hex(bytes: &[u8]) -> (r: String)
    ensures
        r@ == hex_lower_spec(bytes@),
{
    let mut out = String::new();
    let n = bytes.len();
    let mut i: usize = 0;
    while i < n
        invariant
            0 <= i <= n,
            n == bytes@.len(),
            out@ == hex_lower_spec(bytes@.subrange(0, i as int)),
        decreases n - i,
    {
        let b = bytes[i];
        out.push(hex_digit_char(b / 16));
        out.push(hex_digit_char(b % 16));
        proof {
            assert(bytes@.subrange(0, i + 1) =~= bytes@.subrange(0, i as int).push(b));
            lemma_hex_lower_push(bytes@.subrange(0, i as int), b);
            assert(out@ =~= hex_lower_spec(bytes@.subrange(0, i + 1)));
        }
        i = i + 1;
    }
    proof {
        assert(bytes@.subrange(0, n as int) =~= bytes@);
    }
    out
}

// ---------------------------------------------------------------------------
// Topic names
// ---------------------------------------------------------------------------

/// The DDS prefix convention: "rt/" and "rr/" prefixes are discarded,
/// anything else stays as it is.
pub open spec fn fastdds_to_ros2_spec(s: Seq<char>) -> Seq<char> {
    if starts_with_spec(s, "rr/"@) || starts_with_spec(s, "rt/"@) {
        s.skip(3)
    } else {
        s
    }
}

/// Discards a "rt/" or "rr/" DDS prefix from a topic name.
pub fn fastdds_to_ros2(topic_name: String) -> (r: String)
    ensures
        r@ == fastdds_to_ros2_spec(topic_name@),
{
    let n = topic_name.as_str().unicode_len();
    if str_starts_with(topic_name.as_str(), "rr/") || str_starts_with(topic_name.as_str(), "rt/") {
        proof {
            reveal_strlit("rr/");
            reveal_strlit("rt/");
        }
        let r = String::from_str(topic_name.as_str().substring_char(3, n));
        proof {
            assert(r@ =~= fastdds_to_ros2_spec(topic_name@));
        }
        r
    } else {
        topic_name
    }
}

// ---------------------------------------------------------------------------
// GUID rendering
// ---------------------------------------------------------------------------

/// Splitting into groups of `k` characters.
pub open spec fn chunks_spec(s: Seq<char>, k: nat) -> Seq<Seq<char>>
    recommends
        k > 0,
    decreases s.len(),
{
    if s.len() == 0 {
        Seq::<Seq<char>>::empty()
    } else if k == 0 || s.len() <= k {
        seq![s]
    } else {
        seq![s.subrange(0, k as int)] + chunks_spec(s.skip(k as int), k)
    }
}

/// Splits a string into groups of `sub_len` characters; the last group may
/// be shorter.
pub fn sub_strings(string: &str, sub_len: usize) -> (r: Vec<String>)
    requires
        sub_len > 0,
    ensures
        str_views(r@) == chunks_spec(string@, sub_len as nat),
{
    let n = string.unicode_len();
    let mut out: Vec<String> = Vec::new();
    let mut pos: usize = 0;
    proof {
        assert(string@.subrange(0, n as int) =~= string@);
        assert(str_views(out@) + chunks_spec(string@, sub_len as nat) =~= chunks_spec(
            string@,
            sub_len as nat,
        ));
    }
    while pos < n
        invariant
            0 <= pos <= n,
            n == string@.len(),
            sub_len > 0,
            chunks_spec(string@, sub_len as nat) == str_views(out@) + chunks_spec(
                string@.subrange(pos as int, n as int),
                sub_len as nat,
            ),
        decreases n - pos,
    {
        let ghost tail = string@.subrange(pos as int, n as int);
        let end = if n - pos <= sub_len {
            n
        } else {
            pos + sub_len
        };
        out.push(String::from_str(string.substring_char(pos, end)));
        proof {
            let tail2 = string@.subrange(end as int, n as int);
            if n - pos <= sub_len {
                assert(chunks_spec(tail, sub_len as nat) =~= seq![tail]);
                assert(out@.last()@ == tail);
                assert(tail2 =~= Seq::<char>::empty());
                assert(chunks_spec(tail2, sub_len as nat) =~= Seq::<Seq<char>>::empty());
            } else {
                assert(tail.subrange(0, sub_len as int) =~= string@.subrange(
                    pos as int,
                    end as int,
                ));
                assert(tail.skip(sub_len as int) =~= tail2);
                assert(chunks_spec(tail, sub_len as nat) == seq![
                    string@.subrange(pos as int, end as int),
                ] + chunks_spec(tail2, sub_len as nat));
            }
            assert(str_views(out@) =~= str_views(out@.drop_last()).push(out@.last()@));
            assert(chunks_spec(string@, sub_len as nat) =~= str_views(out@) + chunks_spec(
                tail2,
                sub_len as nat,
            ));
        }
        pos = end;
    }
    proof {
        assert(string@.subrange(n as int, n as int) =~= Seq::<char>::empty());
        assert(chunks_spec(string@.subrange(n as int, n as int), sub_len as nat)
            =~= Seq::<Seq<char>>::empty());
        assert(str_views(out@) =~= chunks_spec(string@, sub_len as nat));
    }
    out
}

/// Groups joined with dots.
pub open spec fn dotted(xs: Seq<Seq<char>>) -> Seq<char>
    decreases xs.len(),
{
    if xs.len() == 0 {
        Seq::<char>::empty()
    } else if xs.len() == 1 {
        xs[0]
    } else {
        xs[0] + "."@ + dotted(xs.drop_first())
    }
}

proof fn lemma_dotted_push(xs: Seq<Seq<char>>, e: Seq<char>)
    ensures
        dotted(xs.push(e)) == if xs.len() == 0 {
            e
        } else {
            dotted(xs) + "."@ + e
        },
    decreases xs.len(),
{
    if xs.len() == 0 {
        assert(xs.push(e).len() == 1);
        assert(xs.push(e)[0] == e);
    } else if xs.len() == 1 {
        assert(xs.push(e)[0] == xs[0]);
        assert(xs.push(e).drop_first() =~= seq![e]);
        assert(dotted(seq![e]) == e);
    } else {
        assert(xs.push(e)[0] == xs[0]);
        assert(xs.push(e).drop_first() =~= xs.drop_first().push(e));
        lemma_dotted_push(xs.drop_first(), e);
        assert(xs[0] + "."@ + (dotted(xs.drop_first()) + "."@ + e) =~= (xs[0] + "."@ + dotted(
            xs.drop_first(),
        )) + "."@ + e);
    }
}

/// Joins strings with dots.
fn join_dot(v: &Vec<String>) -> (r: String)
    ensures
        r@ == dotted(str_views(v@)),
{
    let mut out = String::new();
    let n = v.len();
    let mut i: usize = 0;
    while i < n
        invariant
            0 <= i <= n,
            n == v@.len(),
            out@ == dotted(str_views(v@.subrange(0, i as int))),
        decreases n - i,
    {
        if i > 0 {
            out.append(".");
        }
        out.append(v[i].as_str());
        proof {
            assert(str_views(v@.subrange(0, i + 1)) =~= str_views(v@.subrange(0, i as int)).push(
                v@[i as int]@,
            ));
            lemma_dotted_push(str_views(v@.subrange(0, i as int)), v@[i as int]@);
            if i == 0 {
                assert(str_views(v@.subrange(0, 0)).len() == 0);
            }
            assert(out@ =~= dotted(str_views(v@.subrange(0, i + 1))));
        }
        i = i + 1;
    }
    proof {
        assert(v@.subrange(0, n as int) =~= v@);
    }
    out
}

/// A GUID rendered as lowercase hex octets, dot-separated.
pub open spec fn guid_spec(bs: Seq<u8>) -> Seq<char>
    decreases bs.len(),
{
    if bs.len() == 0 {
        Seq::<char>::empty()
    } else if bs.len() == 1 {
        hex_pair(bs[0])
    } else {
        hex_pair(bs[0]) + "."@ + guid_spec(bs.drop_first())
    }
}

proof fn lemma_guid_of_chunks(bs: Seq<u8>)
    ensures
        dotted(chunks_spec(hex_lower_spec(bs), 2)) == guid_spec(bs),
    decreases bs.len(),
{
    let hx = hex_lower_spec(bs);
    if bs.len() == 0 {
        assert(hx =~= Seq::<char>::empty());
    } else if bs.len() == 1 {
        assert(bs.drop_first() =~= Seq::<u8>::empty());
        assert(hex_lower_spec(Seq::<u8>::empty()) == Seq::<char>::empty());
        assert(hx == hex_pair(bs[0]) + Seq::<char>::empty());
        assert(hx =~= hex_pair(bs[0]));
        assert(hx.len() == 2);
        assert(chunks_spec(hx, 2) =~= seq![hx]);
    } else {
        let rest = hex_lower_spec(bs.drop_first());
        assert(hx == hex_pair(bs[0]) + rest);
        assert(hx.len() == 2 + rest.len());
        assert(rest.len() >= 2) by {
            assert(bs.drop_first().len() >= 1);
        }
        assert(hx.subrange(0, 2) =~= hex_pair(bs[0]));
        assert(hx.skip(2) =~= rest);
        lemma_guid_of_chunks(bs.drop_first());
        let cs = chunks_spec(rest, 2);
        assert(chunks_spec(hx, 2) == seq![hex_pair(bs[0])] + cs);
        assert(cs.len() >= 1) by {
            assert(rest.len() > 0);
        }
        assert((seq![hex_pair(bs[0])] + cs)[0] == hex_pair(bs[0]));
        assert((seq![hex_pair(bs[0])] + cs).drop_first() =~= cs);
        assert(dotted(seq![hex_pair(bs[0])] + cs) == hex_pair(bs[0]) + "."@ + dotted(cs));
    }
}

/// Renders GUID bytes as dot-separated lowercase hex octets, going through
/// the hex encoding of the whole buffer and regrouping it in pairs.
pub fn hex_str_from_uc(bytes: &[u8]) -> (r: String)
    ensures
        r@ == guid_spec(bytes@),
{
    let hex_array = hex_encode(bytes);
    let subs = sub_strings(hex_array.as_str(), 2);
    let r = join_dot(&subs);
    proof {
        lemma_guid_of_chunks(bytes@);
    }
    r
}

// ---------------------------------------------------------------------------
// Endpoint rendering
// ---------------------------------------------------------------------------

/// The transport kinds a discovery record can carry.
pub const SHM_TRANSPORT: u32 = 0;

pub const UDPV4_TRANSPORT: u32 = 1;

pub const UDPV6_TRANSPORT: u32 = 2;

pub const TCPV4_TRANSPORT: u32 = 3;

pub const TCPV6_TRANSPORT: u32 = 4;

/// A transport-encoded endpoint as a discovery record carries it: the
/// transport kind and the raw address bytes.
pub struct FastDDSEndpoint {
    pub transport: u32,
    pub addr: Vec<u8>,
}

/// ASCII uppercasing of one byte, as the address bytes go through before
/// rendering.
pub open spec fn upper_byte(b: u8) -> u8 {
    if 97 <= b <= 122 {
        (b - 32) as u8
    } else {
        b
    }
}

/// Address bytes rendered as dot-separated decimal numbers of their
/// uppercased values.
pub open spec fn dotted_dec_spec(bs: Seq<u8>) -> Seq<char>
    decreases bs.len(),
{
    if bs.len() == 0 {
        Seq::<char>::empty()
    } else if bs.len() == 1 {
        dec_spec(upper_byte(bs[0]) as nat)
    } else {
        dec_spec(upper_byte(bs[0]) as nat) + "."@ + dotted_dec_spec(bs.drop_first())
    }
}

proof fn lemma_dotted_dec_push(bs: Seq<u8>, x: u8)
    ensures
        dotted_dec_spec(bs.push(x)) == if bs.len() == 0 {
            dec_spec(upper_byte(x) as nat)
        } else {
            dotted_dec_spec(bs) + "."@ + dec_spec(upper_byte(x) as nat)
        },
    decreases bs.len(),
{
    if bs.len() == 0 {
        assert(bs.push(x).len() == 1);
        assert(bs.push(x)[0] == x);
    } else if bs.len() == 1 {
        assert(bs.push(x)[0] == bs[0]);
        assert(bs.push(x).drop_first() =~= seq![x]);
        assert(dotted_dec_spec(seq![x]) == dec_spec(upper_byte(x) as nat));
    } else {
        assert(bs.push(x)[0] == bs[0]);
        assert(bs.push(x).drop_first() =~= bs.drop_first().push(x));
        lemma_dotted_dec_push(bs.drop_first(), x);
        assert(dec_spec(upper_byte(bs[0]) as nat) + "."@ + (dotted_dec_spec(bs.drop_first())
            + "."@ + dec_spec(upper_byte(x) as nat)) =~= (dec_spec(upper_byte(bs[0]) as nat)
            + "."@ + dotted_dec_spec(bs.drop_first())) + "."@ + dec_spec(upper_byte(x) as nat));
    }
}

fn write_dotted_dec(out: &mut String, bytes: &Vec<u8>)
    ensures
        final(out)@ == old(out)@ + dotted_dec_spec(bytes@),
{
    let n = bytes.len();
    let mut i: usize = 0;
    while i < n
        invariant
            0 <= i <= n,
            n == bytes@.len(),
            out@ == old(out)@ + dotted_dec_spec(bytes@.subrange(0, i as int)),
        decreases n - i,
    {
        if i > 0 {
            out.append(".");
        }
        let b = bytes[i];
        let up: u8 = if 97 <= b && b <= 122 {
            b - 32
        } else {
            b
        };
        let num = u64_to_dec(up as u64);
        out.append(num.as_str());
        proof {
            assert(bytes@.subrange(0, i + 1) =~= bytes@.subrange(0, i as int).push(b));
            lemma_dotted_dec_push(bytes@.subrange(0, i as int), b);
            assert(out@ =~= old(out)@ + dotted_dec_spec(bytes@.subrange(0, i + 1)));
        }
        i = i + 1;
    }
    proof {
        assert(bytes@.subrange(0, n as int) =~= bytes@);
    }
}

/// The textual form of an endpoint: the literal "SHM" for shared memory, a
/// dotted numeric string for the UDP and TCP transports, and empty text for
/// anything else.
pub open spec fn parse_endpoint_spec(transport: u32, addr: Seq<u8>) -> Seq<char> {
    if transport == SHM_TRANSPORT {
        "SHM"@
    } else if transport == UDPV4_TRANSPORT || transport == UDPV6_TRANSPORT || transport
        == TCPV4_TRANSPORT || transport == TCPV6_TRANSPORT {
        dotted_dec_spec(addr)
    } else {
        Seq::<char>::empty()
    }
}

/// Renders a transport-encoded endpoint as text.
pub fn parse_endpoint(endpoint: FastDDSEndpoint) -> (r: String)
    ensures
        r@ == parse_endpoint_spec(endpoint.transport, endpoint.addr@),
{
    if endpoint.transport == SHM_TRANSPORT {
        String::from_str("SHM")
    } else if endpoint.transport == UDPV4_TRANSPORT || endpoint.transport == UDPV6_TRANSPORT
        || endpoint.transport == TCPV4_TRANSPORT || endpoint.transport == TCPV6_TRANSPORT {
        let mut out = String::new();
        write_dotted_dec(&mut out, &endpoint.addr);
        out
    } else {
        String::new()
    }
}

} // verus!

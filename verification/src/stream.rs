//! UDP sink for the muxed transport stream: where it goes, and how it is cut into datagrams.

use crate::mpegts::demux::{
    follows, law_receiver_gets_stream, muxed, pes_packets, receive_all, state_after, valid,
    AccessUnit, Receiver,
};
use crate::mpegts::{unit_packets, unit_state, MuxState, TsMuxer, TS_PACKET_LEN};
use crate::text::{chars_of, string_of};
use vstd::prelude::*;
use vstd::slice::slice_subrange;

verus! {

/// Transport packets per datagram: 7 x 188 = 1316 bytes, the usual payload that still fits in an
/// ethernet frame.
pub const PACKETS_PER_DATAGRAM: usize = 7;

pub const DATAGRAM_LEN: usize = PACKETS_PER_DATAGRAM * TS_PACKET_LEN;

/// An address that a name resolved to.
#[derive(Clone, Copy, Debug, PartialEq, Eq)]
pub enum SocketAddress {
    V4 { octets: [u8; 4], port: u16 },
    V6 { segments: [u16; 8], port: u16, flow_info: u32, scope_id: u32 },
}

/// Why a stream address was refused.
#[derive(Clone, Copy, Debug, PartialEq, Eq)]
pub enum StreamUrlError {
    /// The address does not look like `udp://host:port`.
    NotUdp,
    /// The host and port could not be resolved.
    Unresolved,
    /// The lookup went well and found no address.
    NoAddress,
    /// The address has no port to send to.
    NoPort,
}

/// How the socket has to be set up for its destination.
#[derive(Clone, Copy, Debug, PartialEq, Eq)]
pub enum SocketMode {
    /// Set the multicast time to live and loop the stream back to this machine.
    Multicast,
    /// Allow broadcasts; it does no harm where that fails.
    Broadcast,
    /// Nothing to set up.
    Plain,
}

impl SocketAddress {
    pub open spec fn spec_port(self) -> u16 {
        match self {
            SocketAddress::V4 { port, .. } => port,
            SocketAddress::V6 { port, .. } => port,
        }
    }

    /// Whether the address is a group: 224.0.0.0/4 or ff00::/8.
    pub open spec fn spec_is_multicast(self) -> bool {
        match self {
            SocketAddress::V4 { octets, .. } => 224 <= octets@[0] <= 239,
            SocketAddress::V6 { segments, .. } => segments@[0] >= 0xff00,
        }
    }

    /// How a socket that sends to this address is set up.
    pub open spec fn spec_socket_mode(self) -> SocketMode {
        if self.spec_is_multicast() {
            SocketMode::Multicast
        } else if self is V4 {
            SocketMode::Broadcast
        } else {
            SocketMode::Plain
        }
    }

    pub fn port(&self) -> (port: u16)
        ensures
            port == self.spec_port(),
    {
        match self {
            SocketAddress::V4 { port, .. } => *port,
            SocketAddress::V6 { port, .. } => *port,
        }
    }

    pub fn is_multicast(&self) -> (multicast: bool)
        ensures
            multicast == self.spec_is_multicast(),
    {
        match self {
            SocketAddress::V4 { octets, .. } => octets[0] >= 224 && octets[0] <= 239,
            SocketAddress::V6 { segments, .. } => segments[0] >= 0xff00,
        }
    }

    /// How to set up a socket that sends to this address.
    pub fn socket_mode(&self) -> (mode: SocketMode)
        ensures
            mode == (if self.spec_is_multicast() {
                SocketMode::Multicast
            } else if self is V4 {
                SocketMode::Broadcast
            } else {
                SocketMode::Plain
            }),
            mode == self.spec_socket_mode(),
    {
        if self.is_multicast() {
            return SocketMode::Multicast;
        }
        match self {
            SocketAddress::V4 { .. } => SocketMode::Broadcast,
            SocketAddress::V6 { .. } => SocketMode::Plain,
        }
    }
}

/// What a stream address starts with.
pub open spec fn scheme() -> Seq<char> {
    seq!['u', 'd', 'p', ':', '/', '/']
}

pub open spec fn has_scheme(url: Seq<char>) -> bool {
    url.len() >= 6 && url.take(6) == scheme()
}

/// Text without the slashes at its end.
pub open spec fn without_slashes(text: Seq<char>) -> Seq<char>
    decreases text.len(),
{
    if text.len() > 0 && text.last() == '/' {
        without_slashes(text.drop_last())
    } else {
        text
    }
}

/// Text without the at signs in it.
pub open spec fn without_ats(text: Seq<char>) -> Seq<char> {
    text.filter(|c: char| c != '@')
}

/// The `host:port` of a stream address.
pub open spec fn authority(url: Seq<char>) -> Seq<char> {
    without_ats(without_slashes(url.skip(6)))
}

/// The first IPv4 address of a lookup.
pub open spec fn first_v4(addresses: Seq<SocketAddress>) -> Option<SocketAddress>
    decreases addresses.len(),
{
    if addresses.len() == 0 {
        None
    } else if addresses[0] is V4 {
        Some(addresses[0])
    } else {
        first_v4(addresses.skip(1))
    }
}

/// The address that two lookups of the same name settle on: the first IPv4 address of the first
/// one, or else whatever the second one starts with.
pub open spec fn settled(
    first: Seq<SocketAddress>,
    again: Option<Seq<SocketAddress>>,
) -> Option<SocketAddress> {
    if first_v4(first) is Some {
        first_v4(first)
    } else if again is Some && again->0.len() > 0 {
        Some(again->0[0])
    } else {
        None
    }
}

/// What a stream address stands for, given what its lookups brought; `None` is a failed lookup.
pub open spec fn destination_of(
    url: Seq<char>,
    first: Option<Seq<SocketAddress>>,
    again: Option<Seq<SocketAddress>>,
) -> Result<SocketAddress, StreamUrlError> {
    if !has_scheme(url) {
        Err(StreamUrlError::NotUdp)
    } else if first is None {
        Err(StreamUrlError::Unresolved)
    } else {
        match settled(first->0, again) {
            None => Err(StreamUrlError::NoAddress),
            Some(address) => if address.spec_port() == 0 {
                Err(StreamUrlError::NoPort)
            } else {
                Ok(address)
            },
        }
    }
}

/// The addresses of a lookup.
pub open spec fn found(lookup: Option<Vec<SocketAddress>>) -> Option<Seq<SocketAddress>> {
    match lookup {
        None => None,
        Some(addresses) => Some(addresses@),
    }
}

/// The `host:port` to look up for a stream address. Both `udp://239.0.0.1:5004` and the ffmpeg
/// style `udp://@239.0.0.1:5004` are understood.
pub fn udp_authority(url: &str) -> (host_port: Result<String, StreamUrlError>)
    ensures
        host_port is Ok <==> has_scheme(url@),
        host_port is Ok <==> url@.len() >= 6 && url@[0] == 'u' && url@[1] == 'd' && url@[2] == 'p'
            && url@[3] == ':' && url@[4] == '/' && url@[5] == '/',
        host_port matches Ok(text) ==> text@ == authority(url@),
        host_port matches Err(error) ==> error == StreamUrlError::NotUdp,
{
    let chars: Vec<char> = chars_of(url);
    proof {
        law_scheme(url@);
    }
    if chars.len() < 6 {
        return Err(StreamUrlError::NotUdp);
    }
    if !(chars[0] == 'u' && chars[1] == 'd' && chars[2] == 'p' && chars[3] == ':' && chars[4] == '/'
        && chars[5] == '/') {
        assert(url@.take(6) != scheme()) by {
            let start = url@.take(6);
            assert(start[0] == url@[0] && start[1] == url@[1] && start[2] == url@[2] && start[3]
                == url@[3] && start[4] == url@[4] && start[5] == url@[5]);
        }
        return Err(StreamUrlError::NotUdp);
    }
    assert(url@.take(6) =~= scheme());
    let mut end: usize = chars.len();
    assert(url@.subrange(6, end as int) =~= url@.skip(6));
    while end > 6 && chars[end - 1] == '/'
        invariant
            chars@ == url@,
            6 <= end <= chars@.len(),
            without_slashes(url@.skip(6)) == without_slashes(url@.subrange(6, end as int)),
        decreases end,
    {
        assert(url@.subrange(6, end as int).drop_last() =~= url@.subrange(6, end - 1));
        end = end - 1;
    }
    let ghost trimmed: Seq<char> = url@.subrange(6, end as int);
    assert(trimmed == without_slashes(url@.skip(6)));

    let ghost keep = |c: char| c != '@';
    let mut kept: Vec<char> = Vec::new();
    let mut i: usize = 6;
    assert(trimmed.take(0) =~= Seq::empty());
    proof {
        reveal(Seq::filter);
    }
    while i < end
        invariant
            chars@ == url@,
            6 <= i <= end <= chars@.len(),
            trimmed == url@.subrange(6, end as int),
            keep == (|c: char| c != '@'),
            kept@ == trimmed.take(i - 6).filter(keep),
        decreases end - i,
    {
        proof {
            reveal(Seq::filter);
            assert(trimmed.take(i - 6 + 1).drop_last() =~= trimmed.take(i - 6));
            assert(trimmed.take(i - 6 + 1).last() == chars@[i as int]);
        }
        if chars[i] != '@' {
            kept.push(chars[i]);
        }
        i = i + 1;
    }
    assert(trimmed.take(end - 6) =~= trimmed);
    Ok(string_of(&kept))
}

/// Whether a lookup has to be tried again for want of an IPv4 address.
pub fn needs_second_lookup(addresses: &Vec<SocketAddress>) -> (needed: bool)
    ensures
        needed == (first_v4(addresses@) is None),
        needed == (forall|i: int| 0 <= i < addresses@.len() ==> #[trigger] addresses@[i] is V6),
{
    proof {
        law_first_v4(addresses@);
    }
    find_v4(addresses).is_none()
}

fn find_v4(addresses: &Vec<SocketAddress>) -> (address: Option<SocketAddress>)
    ensures
        address == first_v4(addresses@),
{
    let mut i: usize = 0;
    assert(addresses@.skip(0) =~= addresses@);
    while i < addresses.len()
        invariant
            i <= addresses@.len(),
            first_v4(addresses@) == first_v4(addresses@.skip(i as int)),
        decreases addresses@.len() - i,
    {
        assert(addresses@.skip(i as int).skip(1) =~= addresses@.skip(i + 1));
        match addresses[i] {
            SocketAddress::V4 { .. } => {
                return Some(addresses[i]);
            },
            SocketAddress::V6 { .. } => {},
        }
        i = i + 1;
    }
    None
}

/// `url` is `udp://host:port`, where the host may be a multicast group. `first` and `again` are
/// what lookups of its authority brought, `None` where the lookup failed; the second one only
/// matters where the first has no IPv4 address.
pub fn parse_udp_url(
    url: &str,
    first: &Option<Vec<SocketAddress>>,
    again: &Option<Vec<SocketAddress>>,
) -> (address: Result<SocketAddress, StreamUrlError>)
    ensures
        address == destination_of(url@, found(*first), found(*again)),
        address == Err::<SocketAddress, StreamUrlError>(StreamUrlError::NotUdp) <==> !(url@.len()
            >= 6 && url@[0] == 'u' && url@[1] == 'd' && url@[2] == 'p' && url@[3] == ':' && url@[4]
            == '/' && url@[5] == '/'),
{
    proof {
        law_scheme(url@);
    }
    match udp_authority(url) {
        Err(error) => {
            return Err(error);
        },
        Ok(_) => {},
    }
    let addresses: &Vec<SocketAddress> = match first {
        None => {
            return Err(StreamUrlError::Unresolved);
        },
        Some(addresses) => addresses,
    };
    let address: SocketAddress = match find_v4(addresses) {
        Some(address) => address,
        None => match again {
            Some(others) => if others.len() > 0 {
                others[0]
            } else {
                return Err(StreamUrlError::NoAddress);
            },
            None => {
                return Err(StreamUrlError::NoAddress);
            },
        },
    };
    if address.port() == 0 {
        return Err(StreamUrlError::NoPort);
    }
    Ok(address)
}

/// What a stream has yet to send, and the state of its muxer.
pub struct StreamState {
    pub destination: SocketAddress,
    pub mux: MuxState,
    pub pending: Seq<u8>,
}

/// The part of `pending` that fills whole datagrams, in bytes.
pub open spec fn full_len(pending: Seq<u8>) -> int {
    pending.len() as int / 1316 * 1316
}

/// The full datagrams in `pending`, in the order in which they go out.
pub open spec fn full_datagrams(pending: Seq<u8>) -> Seq<Seq<u8>> {
    Seq::new(
        (pending.len() / 1316) as nat,
        |i: int| pending.subrange(1316 * i, 1316 * i + 1316),
    )
}

/// What `pending` holds beyond its full datagrams.
pub open spec fn short_rest(pending: Seq<u8>) -> Seq<u8> {
    pending.skip(full_len(pending))
}

/// The next full datagram, when `sent` bytes of what is pending are on their way.
pub open spec fn next_full(pending: Seq<u8>, sent: int) -> Option<Seq<u8>> {
    if pending.len() - sent >= 1316 {
        Some(pending.subrange(sent, sent + 1316))
    } else {
        None
    }
}

/// What is left pending once `sent` bytes of it were sent.
pub open spec fn left_after(pending: Seq<u8>, sent: int) -> Seq<u8> {
    pending.skip(sent)
}

/// The full datagrams that go out from `sent` on, one after the other.
pub open spec fn walked(pending: Seq<u8>, sent: int) -> Seq<Seq<u8>>
    decreases pending.len() - sent,
{
    match next_full(pending, sent) {
        Some(datagram) => if 0 < datagram.len() <= pending.len() - sent {
            seq![datagram] + walked(pending, sent + datagram.len())
        } else {
            Seq::empty()
        },
        None => Seq::empty(),
    }
}

/// The bytes of the next datagram at the end of the stream.
pub open spec fn flush_len(pending: Seq<u8>) -> int {
    if pending.len() < 1316 {
        pending.len() as int
    } else {
        1316
    }
}

/// The datagrams that go out at the end of the stream, one after the other.
pub open spec fn flushed(pending: Seq<u8>) -> Seq<Seq<u8>>
    decreases pending.len(),
{
    if pending.len() == 0 {
        Seq::empty()
    } else {
        seq![pending.take(flush_len(pending))] + flushed(pending.skip(flush_len(pending)))
    }
}

/// Muxes encoded access units into MPEG-TS and cuts them into datagrams for a UDP address.
pub struct UdpStream {
    destination: SocketAddress,
    muxer: TsMuxer,
    pending: Vec<u8>,
}

impl View for UdpStream {
    type V = StreamState;

    closed spec fn view(&self) -> StreamState {
        StreamState {
            destination: self.destination,
            mux: self.muxer@,
            pending: self.pending@,
        }
    }
}

impl UdpStream {
    /// A stream to the address that `url` and its lookups settle on.
    pub fn open(
        url: &str,
        first: &Option<Vec<SocketAddress>>,
        again: &Option<Vec<SocketAddress>>,
    ) -> (stream: Result<Self, StreamUrlError>)
        ensures
            match stream {
                Ok(stream) => destination_of(url@, found(*first), found(*again)) == Ok::<
                    SocketAddress,
                    StreamUrlError,
                >(stream@.destination) && stream@.mux == crate::mpegts::initial_state()
                    && stream@.pending == Seq::<u8>::empty(),
                Err(error) => destination_of(url@, found(*first), found(*again)) == Err::<
                    SocketAddress,
                    StreamUrlError,
                >(error),
            },
    {
        match parse_udp_url(url, first, again) {
            Err(error) => Err(error),
            Ok(destination) => Ok(
                UdpStream { destination, muxer: TsMuxer::new(), pending: Vec::new() },
            ),
        }
    }

    pub fn destination(&self) -> (destination: SocketAddress)
        ensures
            destination == self@.destination,
    {
        self.destination
    }

    /// Muxes one coded frame behind what is still pending. The datagrams it completes are then
    /// to be sent, see [`UdpStream::next_datagram`].
    pub fn send_access_unit(&mut self, au: &[u8], pts_90khz: u64, keyframe: bool)
        requires
            au@.len() > 0 && crate::mpegts::tables_due(old(self)@.mux, pts_90khz, keyframe)
                ==> pts_90khz + crate::mpegts::PSI_INTERVAL_90KHZ <= u64::MAX,
        ensures
            final(self)@.pending == old(self)@.pending + unit_packets(
                old(self)@.mux,
                au@,
                pts_90khz,
                keyframe,
            ),
            final(self)@.mux == unit_state(old(self)@.mux, au@, pts_90khz, keyframe),
            final(self)@.destination == old(self)@.destination,
    {
        self.muxer.push_access_unit(au, pts_90khz, keyframe, &mut self.pending);
    }

    /// The next full datagram to send, when `sent` bytes of what is pending are on their way.
    /// Nothing leaves the pending bytes before all of it is sent, so a send that fails can be
    /// tried again from the start.
    pub fn next_datagram(&self, sent: usize) -> (datagram: Option<&[u8]>)
        requires
            sent <= self@.pending.len(),
        ensures
            datagram is Some <==> self@.pending.len() - sent >= 1316,
            datagram matches Some(bytes) ==> bytes@ == self@.pending.subrange(
                sent as int,
                sent + 1316,
            ),
            match datagram {
                Some(bytes) => next_full(self@.pending, sent as int) == Some(bytes@),
                None => next_full(self@.pending, sent as int) is None,
            },
    {
        if self.pending.len() - sent >= DATAGRAM_LEN {
            Some(slice_subrange(self.pending.as_slice(), sent, sent + DATAGRAM_LEN))
        } else {
            None
        }
    }

    /// Forgets the bytes that were sent.
    pub fn drain_sent(&mut self, sent: usize)
        requires
            sent <= old(self)@.pending.len(),
        ensures
            final(self)@.pending == old(self)@.pending.skip(sent as int),
            final(self)@.pending == left_after(old(self)@.pending, sent as int),
            final(self)@.mux == old(self)@.mux,
            final(self)@.destination == old(self)@.destination,
    {
        let rest: Vec<u8> = self.pending.split_off(sent);
        self.pending = rest;
        assert(self@.pending =~= old(self)@.pending.skip(sent as int));
    }

    /// The next datagram to send at the end of the stream, until there is nothing left: a full
    /// one as long as there is one, and then whatever is left, even if that is short.
    pub fn flush(&self) -> (datagram: Option<&[u8]>)
        ensures
            datagram is Some <==> self@.pending.len() > 0,
            datagram matches Some(bytes) ==> bytes@ == self@.pending.take(
                flush_len(self@.pending),
            ),
    {
        if self.pending.len() == 0 {
            None
        } else {
            let len: usize = if self.pending.len() < DATAGRAM_LEN {
                self.pending.len()
            } else {
                DATAGRAM_LEN
            };
            Some(slice_subrange(self.pending.as_slice(), 0, len))
        }
    }
}

/// Datagrams in a row, as the receiver puts them together.
pub open spec fn joined(datagrams: Seq<Seq<u8>>) -> Seq<u8>
    decreases datagrams.len(),
{
    if datagrams.len() == 0 {
        Seq::empty()
    } else {
        joined(datagrams.drop_last()) + datagrams.last()
    }
}

/// The datagrams that [`UdpStream::next_datagram`] hands out one after the other are the full
/// datagrams of what is pending: the one at `1316 * i` is the `i`th, and there are no more of
/// them after the last.
pub proof fn law_datagrams_in_order(pending: Seq<u8>, i: int)
    requires
        0 <= i <= pending.len() / 1316,
    ensures
        1316 * i <= pending.len(),
        pending.len() - 1316 * i >= 1316 <==> i < full_datagrams(pending).len(),
        i < full_datagrams(pending).len() ==> full_datagrams(pending)[i] == pending.subrange(
            1316 * i,
            1316 * i + 1316,
        ),
        i == full_datagrams(pending).len() ==> 1316 * i == full_len(pending),
{
}

/// Sending loses nothing and changes no order: the full datagrams and what is left over are
/// what was pending. Every full datagram has seven packets' worth of bytes, and less than one is
/// left over.
pub proof fn law_datagrams_lose_nothing(pending: Seq<u8>)
    ensures
        joined(full_datagrams(pending)) + short_rest(pending) == pending,
        short_rest(pending).len() < 1316,
        forall|i: int|
            0 <= i < full_datagrams(pending).len() ==> (#[trigger] full_datagrams(
                pending,
            )[i]).len() == PACKETS_PER_DATAGRAM * TS_PACKET_LEN,
{
    let all = full_datagrams(pending);
    lemma_joined(pending, all.len() as int);
    assert(all.take(all.len() as int) =~= all);
    assert(pending.take(full_len(pending)) + short_rest(pending) =~= pending);
}

proof fn lemma_joined(pending: Seq<u8>, n: int)
    requires
        0 <= n <= pending.len() / 1316,
    ensures
        joined(full_datagrams(pending).take(n)) == pending.take(1316 * n),
    decreases n,
{
    let all = full_datagrams(pending);
    if n == 0 {
        assert(pending.take(0) =~= Seq::empty());
    } else {
        lemma_joined(pending, n - 1);
        assert(all.take(n).drop_last() =~= all.take(n - 1));
        assert(pending.take(1316 * (n - 1)) + pending.subrange(1316 * (n - 1), 1316 * n)
            =~= pending.take(1316 * n));
        assert(all.take(n).last() =~= pending.subrange(1316 * (n - 1), 1316 * n));
    }
}

/// Sending what [`UdpStream::next_datagram`] hands out until there is no more, from `sent` bytes
/// on, and then draining what was sent, loses nothing and repeats nothing: the datagrams in a row
/// and what is left are what was pending behind the `sent` bytes, every datagram has 1316 bytes,
/// and fewer than that are left.
pub proof fn law_walk_sends_all(pending: Seq<u8>, sent: int)
    requires
        0 <= sent <= pending.len(),
    ensures
        joined(walked(pending, sent)) + left_after(
            pending,
            sent + joined(walked(pending, sent)).len(),
        ) == pending.skip(sent),
        joined(walked(pending, sent)).len() == 1316 * walked(pending, sent).len(),
        forall|i: int|
            0 <= i < walked(pending, sent).len() ==> (#[trigger] walked(pending, sent)[i]).len()
                == 1316,
        left_after(pending, sent + joined(walked(pending, sent)).len()).len() < 1316,
    decreases pending.len() - sent,
{
    if pending.len() - sent >= 1316 {
        let first = pending.subrange(sent, sent + 1316);
        let rest = walked(pending, sent + 1316);
        law_walk_sends_all(pending, sent + 1316);
        assert(walked(pending, sent) =~= seq![first] + rest);
        lemma_joined_front(first, rest);
        assert(joined(walked(pending, sent)).len() == 1316 + joined(rest).len());
        assert(first + pending.skip(sent + 1316) =~= pending.skip(sent));
        let left = left_after(pending, sent + 1316 + joined(rest).len());
        assert(first + joined(rest) + left =~= first + (joined(rest) + left));
        assert forall|i: int| 0 <= i < walked(pending, sent).len() implies (#[trigger] walked(
            pending,
            sent,
        )[i]).len() == 1316 by {
            if i > 0 {
                assert(walked(pending, sent)[i] == rest[i - 1]);
            }
        }
    } else {
        assert(walked(pending, sent) =~= Seq::empty());
        assert(joined(walked(pending, sent)) =~= Seq::empty());
        assert(Seq::<u8>::empty() + pending.skip(sent) =~= pending.skip(sent));
    }
}

/// A lookup counts with all the addresses it brought, in their order, and a failed one as failed.
pub proof fn law_lookups_are_taken_whole(addresses: Vec<SocketAddress>)
    ensures
        found(Some(addresses)) is Some,
        found(Some(addresses))->0.len() == addresses@.len(),
        forall|i: int|
            0 <= i < addresses@.len() ==> #[trigger] found(Some(addresses))->0[i] == addresses@[i],
        found(None) is None,
{
}

/// Sending and draining what [`UdpStream::flush`] hands out until there is nothing left sends all
/// that was pending, in order: every datagram but the last is full, and the last one is not empty
/// and no longer than a full one. With nothing pending, nothing is sent.
pub proof fn law_flush_sends_all(pending: Seq<u8>)
    ensures
        joined(flushed(pending)) == pending,
        flushed(pending).len() == 0 <==> pending.len() == 0,
        forall|i: int|
            0 <= i < flushed(pending).len() - 1 ==> (#[trigger] flushed(pending)[i]).len() == 1316,
        pending.len() > 0 ==> 0 < flushed(pending).last().len() <= 1316,
    decreases pending.len(),
{
    if pending.len() == 0 {
        assert(pending =~= Seq::empty());
    } else {
        let first = pending.take(flush_len(pending));
        let rest = pending.skip(flush_len(pending));
        law_flush_sends_all(rest);
        lemma_joined_front(first, flushed(rest));
        assert(first + rest =~= pending);
        if rest.len() > 0 {
            assert(flushed(pending).last() == flushed(rest).last());
        }
        assert forall|i: int| 0 <= i < flushed(pending).len() - 1 implies (#[trigger] flushed(
            pending,
        )[i]).len() == 1316 by {
            if i > 0 {
                assert(flushed(pending)[i] == flushed(rest)[i - 1]);
            }
        }
    }
}

proof fn lemma_joined_front(first: Seq<u8>, rest: Seq<Seq<u8>>)
    ensures
        joined(seq![first] + rest) == first + joined(rest),
    decreases rest.len(),
{
    let all = seq![first] + rest;
    if rest.len() == 0 {
        assert(all.drop_last() =~= Seq::empty());
        assert(joined(all.drop_last()) =~= Seq::empty());
        assert(joined(all) =~= first + joined(rest));
    } else {
        assert(all.drop_last() =~= seq![first] + rest.drop_last());
        lemma_joined_front(first, rest.drop_last());
        assert(joined(all) =~= first + joined(rest));
    }
}

/// What has gone out, and what is left pending, after each of `units` was muxed and its full
/// datagrams were sent, starting with nothing pending.
pub open spec fn delivered(mux: MuxState, units: Seq<AccessUnit>) -> (Seq<u8>, Seq<u8>)
    decreases units.len(),
{
    if units.len() == 0 {
        (Seq::empty(), Seq::empty())
    } else {
        let last = units.last();
        let (out, left) = delivered(mux, units.drop_last());
        let pending = left + unit_packets(
            state_after(mux, units.drop_last()),
            last.data,
            last.pts,
            last.keyframe,
        );
        (out + joined(full_datagrams(pending)), short_rest(pending))
    }
}

/// At any point of a stream, what has gone out followed by what is still pending is exactly what
/// the muxer made of the units so far, and less than a datagram is pending. So the last, short
/// datagram completes the stream.
pub proof fn law_stream_delivers(mux: MuxState, units: Seq<AccessUnit>)
    ensures
        delivered(mux, units).0 + delivered(mux, units).1 == muxed(mux, units),
        delivered(mux, units).1.len() < 1316,
    decreases units.len(),
{
    if units.len() == 0 {
        assert(Seq::<u8>::empty() + Seq::<u8>::empty() =~= Seq::empty());
    } else {
        let last = units.last();
        let before = units.drop_last();
        law_stream_delivers(mux, before);
        let (out, left) = delivered(mux, before);
        let packets = unit_packets(
            state_after(mux, before),
            last.data,
            last.pts,
            last.keyframe,
        );
        let pending = left + packets;
        law_datagrams_lose_nothing(pending);
        assert(out + joined(full_datagrams(pending)) + short_rest(pending) =~= out + (joined(
            full_datagrams(pending),
        ) + short_rest(pending)));
        assert(out + (left + packets) =~= (out + left) + packets);
    }
}

/// A receiver that has missed nothing so far, and gets the datagrams of some units and then the
/// last, short one, has the PES packet of every non-empty unit, whole, once and in order.
pub proof fn law_receiver_gets_datagrams(
    receiver: Receiver,
    mux: MuxState,
    units: Seq<AccessUnit>,
)
    requires
        valid(mux),
        follows(receiver, mux),
    ensures
        ({
            let (out, left) = delivered(mux, units);
            let after = receive_all(receiver, out + left);
            &&& follows(after, state_after(mux, units))
            &&& after.units == receiver.units + pes_packets(units)
        }),
{
    law_stream_delivers(mux, units);
    law_receiver_gets_stream(receiver, mux, units);
}

/// Every datagram of an aligned stream is aligned itself: it holds seven whole packets. So is
/// what is left over.
pub proof fn law_datagrams_are_aligned(pending: Seq<u8>)
    requires
        crate::mpegts::demux::aligned(pending),
    ensures
        forall|i: int|
            0 <= i < full_datagrams(pending).len() ==> crate::mpegts::demux::aligned(
                #[trigger] full_datagrams(pending)[i],
            ),
        crate::mpegts::demux::aligned(short_rest(pending)),
{
    assert forall|i: int| 0 <= i < full_datagrams(pending).len() implies
        crate::mpegts::demux::aligned(#[trigger] full_datagrams(pending)[i]) by {
        let datagram = full_datagrams(pending)[i];
        assert forall|k: int| 0 <= k < datagram.len() / 188 implies #[trigger] datagram[188 * k]
            == crate::mpegts::SYNC_BYTE by {
            let at = 7 * i + k;
            assert(188 * at == 1316 * i + 188 * k);
            assert(pending[188 * at] == crate::mpegts::SYNC_BYTE);
        }
    }
    let rest = short_rest(pending);
    let n = pending.len() as int / 1316;
    assert(rest.len() == pending.len() - 1316 * n);
    assert(1316 * n == 188 * (7 * n));
    assert(rest.len() % 188 == 0);
    assert forall|k: int| 0 <= k < rest.len() / 188 implies #[trigger] rest[188 * k]
        == crate::mpegts::SYNC_BYTE by {
        let at = 7 * n + k;
        assert(188 * at == 1316 * n + 188 * k);
        assert(pending[188 * at] == crate::mpegts::SYNC_BYTE);
    }
}

/// A stream address starts with `udp://`, letter for letter; nothing else is asked of it.
pub proof fn law_scheme(url: Seq<char>)
    ensures
        has_scheme(url) <==> url.len() >= 6 && url[0] == 'u' && url[1] == 'd' && url[2] == 'p'
            && url[3] == ':' && url[4] == '/' && url[5] == '/',
{
    if url.len() >= 6 {
        let start = url.take(6);
        assert(start[0] == url[0] && start[1] == url[1] && start[2] == url[2] && start[3] == url[3]
            && start[4] == url[4] && start[5] == url[5]);
        if url[0] == 'u' && url[1] == 'd' && url[2] == 'p' && url[3] == ':' && url[4] == '/'
            && url[5] == '/' {
            assert(start =~= scheme());
        }
    }
}

/// What is looked up for `udp://` and some text. Text that has no `@` in it and does not end in a
/// slash is looked up as it is. A slash at the end makes no difference. Neither does an `@`, unless
/// only slashes follow it and one goes before it: those then count as trailing only behind it.
pub proof fn law_authority(text: Seq<char>, before: Seq<char>, after: Seq<char>)
    ensures
        (forall|i: int| 0 <= i < text.len() ==> text[i] != '@') && (text.len() == 0 || text.last()
            != '/') ==> authority(seq!['u', 'd', 'p', ':', '/', '/'] + text) == text,
        authority(seq!['u', 'd', 'p', ':', '/', '/'] + text + seq!['/']) == authority(
            seq!['u', 'd', 'p', ':', '/', '/'] + text,
        ),
        before.len() == 0 || before.last() != '/' || (exists|i: int|
            0 <= i < after.len() && after[i] != '/') ==> authority(
            seq!['u', 'd', 'p', ':', '/', '/'] + before + seq!['@'] + after,
        ) == authority(seq!['u', 'd', 'p', ':', '/', '/'] + before + after),
{
    let lead = seq!['u', 'd', 'p', ':', '/', '/'];
    assert((lead + text).skip(6) =~= text);
    assert((lead + text + seq!['/']).skip(6) =~= text + seq!['/']);
    assert((text + seq!['/']).drop_last() =~= text);
    if (forall|i: int| 0 <= i < text.len() ==> text[i] != '@') && (text.len() == 0 || text.last()
        != '/') {
        lemma_filter_keeps(text);
    }
    if before.len() == 0 || before.last() != '/' || (exists|i: int|
        0 <= i < after.len() && after[i] != '/') {
        assert((lead + before + seq!['@'] + after).skip(6) =~= before + seq!['@'] + after);
        assert((lead + before + after).skip(6) =~= before + after);
        lemma_at_makes_no_difference(before, after);
    }
}

proof fn lemma_at_makes_no_difference(before: Seq<char>, after: Seq<char>)
    requires
        before.len() == 0 || before.last() != '/' || (exists|i: int|
            0 <= i < after.len() && after[i] != '/'),
    ensures
        without_ats(without_slashes(before + seq!['@'] + after)) == without_ats(
            without_slashes(before + after),
        ),
    decreases after.len(),
{
    let with_at = before + seq!['@'] + after;
    let plain = before + after;
    if after.len() > 0 && after.last() == '/' {
        let less = after.drop_last();
        assert(with_at.drop_last() =~= before + seq!['@'] + less);
        assert(plain.drop_last() =~= before + less);
        if !(before.len() == 0 || before.last() != '/') {
            let i = choose|i: int| 0 <= i < after.len() && after[i] != '/';
            assert(less[i] != '/');
        }
        lemma_at_makes_no_difference(before, less);
    } else {
        assert(without_slashes(with_at) == with_at);
        if after.len() > 0 {
            assert(plain.last() == after.last());
        } else {
            assert(plain =~= before);
        }
        assert(without_slashes(plain) == plain);
        let keep = |c: char| c != '@';
        Seq::filter_distributes_over_add(before + seq!['@'], after, keep);
        Seq::filter_distributes_over_add(before, seq!['@'], keep);
        Seq::filter_distributes_over_add(before, after, keep);
        assert(seq!['@'].filter(keep) =~= Seq::empty()) by {
            reveal(Seq::filter);
            assert(seq!['@'].drop_last() =~= Seq::empty());
            assert(Seq::<char>::empty().filter(keep) =~= Seq::empty());
        }
        assert(before.filter(keep) + Seq::empty() + after.filter(keep) =~= before.filter(keep)
            + after.filter(keep));
    }
}

/// The address that is picked from a lookup is an IPv4 address with no other before it. None is
/// picked exactly where there is none.
pub proof fn law_first_v4(addresses: Seq<SocketAddress>)
    ensures
        match first_v4(addresses) {
            Some(address) => exists|i: int|
                0 <= i < addresses.len() && #[trigger] addresses[i] == address && address is V4
                    && forall|j: int| 0 <= j < i ==> #[trigger] addresses[j] is V6,
            None => forall|i: int| 0 <= i < addresses.len() ==> #[trigger] addresses[i] is V6,
        },
    decreases addresses.len(),
{
    if addresses.len() > 0 && !(addresses[0] is V4) {
        let rest = addresses.skip(1);
        law_first_v4(rest);
        match first_v4(addresses) {
            Some(address) => {
                let i = choose|i: int|
                    0 <= i < rest.len() && #[trigger] rest[i] == address && address is V4
                        && forall|j: int| 0 <= j < i ==> #[trigger] rest[j] is V6;
                assert(addresses[i + 1] == address);
                assert forall|j: int| 0 <= j < i + 1 implies #[trigger] addresses[j] is V6 by {
                    if j > 0 {
                        assert(rest[j - 1] == addresses[j]);
                    }
                }
            },
            None => {
                assert forall|i: int| 0 <= i < addresses.len() implies #[trigger] addresses[i]
                    is V6 by {
                    if i > 0 {
                        assert(rest[i - 1] == addresses[i]);
                    }
                }
            },
        }
    }
}

/// Where a stream goes: to an address with a port that the lookups brought, an IPv4 address of
/// the first one if it has any, the first of them, and else to the first address of the second
/// one. It goes there whenever there is such an address; where there is none, or it has no port,
/// or the first lookup failed, or the address is of another kind, the error says so.
pub proof fn law_destination(
    url: Seq<char>,
    first: Option<Seq<SocketAddress>>,
    again: Option<Seq<SocketAddress>>,
)
    ensures
        match destination_of(url, first, again) {
            Ok(address) => {
                &&& has_scheme(url)
                &&& first is Some
                &&& address matches SocketAddress::V4 { port, .. } ==> port != 0
                &&& address matches SocketAddress::V6 { port, .. } ==> port != 0
                &&& is_choice(address, first->0, again)
            },
            Err(StreamUrlError::NotUdp) => !has_scheme(url),
            Err(StreamUrlError::Unresolved) => has_scheme(url) && first is None,
            Err(StreamUrlError::NoAddress) => {
                &&& has_scheme(url)
                &&& first is Some
                &&& forall|i: int| 0 <= i < first->0.len() ==> #[trigger] first->0[i] is V6
                &&& again is None || again->0.len() == 0
            },
            Err(StreamUrlError::NoPort) => {
                &&& has_scheme(url)
                &&& first is Some
                &&& exists|address: SocketAddress| #[trigger]
                    is_choice(address, first->0, again) && (address matches SocketAddress::V4 {
                        port,
                        ..
                    } ==> port == 0) && (address matches SocketAddress::V6 { port, .. } ==> port
                        == 0)
            },
        },
{
    if first is Some {
        law_first_v4(first->0);
        if let Some(address) = settled(first->0, again) {
            assert(is_choice(address, first->0, again));
        }
    }
}

/// Whether an address is the one to pick from two lookups.
pub open spec fn is_choice(
    address: SocketAddress,
    first: Seq<SocketAddress>,
    again: Option<Seq<SocketAddress>>,
) -> bool {
    ||| exists|i: int|
        0 <= i < first.len() && #[trigger] first[i] == address && address is V4 && forall|j: int|
            0 <= j < i ==> #[trigger] first[j] is V6
    ||| {
        &&& forall|i: int| 0 <= i < first.len() ==> #[trigger] first[i] is V6
        &&& again is Some && again->0.len() > 0 && again->0[0] == address
    }
}

/// IPv4 groups are the addresses from 224.0.0.0 to 239.255.255.255, IPv6 groups those that start
/// with ff. Neither the rest of the address nor the port matters.
pub proof fn law_groups(octets: [u8; 4], segments: [u16; 8], port: u16, flow: u32, scope: u32)
    ensures
        (SocketAddress::V4 { octets, port }).spec_is_multicast() <==> octets@[0] as int / 16 == 14,
        (SocketAddress::V6 { segments, port, flow_info: flow, scope_id: scope }).spec_is_multicast()
            <==> segments@[0] as int / 0x100 == 0xff,
        (SocketAddress::V4 { octets, port }).spec_socket_mode() == (if 224 <= octets@[0] <= 239 {
            SocketMode::Multicast
        } else {
            SocketMode::Broadcast
        }),
        (SocketAddress::V6 { segments, port, flow_info: flow, scope_id: scope }).spec_socket_mode()
            == (if segments@[0] >= 0xff00 {
            SocketMode::Multicast
        } else {
            SocketMode::Plain
        }),
        (SocketAddress::V4 { octets, port }).spec_port() == port,
        (SocketAddress::V6 { segments, port, flow_info: flow, scope_id: scope }).spec_port() == port,
{
}

/// The ffmpeg style `udp://@host:port` and a slash at the end make no difference.
pub proof fn law_url_styles(host_port: Seq<char>)
    ensures
        authority(scheme() + seq!['@'] + host_port) == authority(scheme() + host_port),
        authority(scheme() + host_port + seq!['/']) == authority(scheme() + host_port),
        has_scheme(scheme() + host_port),
        has_scheme(scheme() + seq!['@'] + host_port),
        (forall|i: int| 0 <= i < host_port.len() ==> host_port[i] != '@' && host_port[i] != '/')
            ==> authority(scheme() + host_port) == host_port,
{
    let plain = scheme() + host_port;
    let at = scheme() + seq!['@'] + host_port;
    let slash = scheme() + host_port + seq!['/'];
    assert(plain.take(6) =~= scheme());
    assert(at.take(6) =~= scheme());
    assert(plain.skip(6) =~= host_port);
    assert(at.skip(6) =~= seq!['@'] + host_port);
    assert(slash.skip(6) =~= host_port + seq!['/']);
    lemma_at_first(host_port);
    let keep = |c: char| c != '@';
    Seq::filter_distributes_over_add(seq!['@'], without_slashes(host_port), keep);
    assert(seq!['@'].filter(keep) =~= Seq::empty()) by {
        reveal(Seq::filter);
        assert(seq!['@'].drop_last() =~= Seq::empty());
        assert(Seq::<char>::empty().filter(keep) =~= Seq::empty());
    }
    assert(Seq::empty() + without_slashes(host_port).filter(keep) =~= without_slashes(
        host_port,
    ).filter(keep));
    assert((host_port + seq!['/']).drop_last() =~= host_port);
    if forall|i: int| 0 <= i < host_port.len() ==> host_port[i] != '@' && host_port[i] != '/' {
        lemma_filter_keeps(host_port);
    }
}

proof fn lemma_at_first(text: Seq<char>)
    ensures
        without_slashes(seq!['@'] + text) == seq!['@'] + without_slashes(text),
    decreases text.len(),
{
    let both = seq!['@'] + text;
    if text.len() > 0 && text.last() == '/' {
        assert(both.drop_last() =~= seq!['@'] + text.drop_last());
        lemma_at_first(text.drop_last());
    } else if text.len() == 0 {
        assert(both =~= seq!['@']);
    }
}

proof fn lemma_filter_keeps(text: Seq<char>)
    requires
        forall|i: int| 0 <= i < text.len() ==> text[i] != '@',
    ensures
        without_ats(text) == text,
    decreases text.len(),
{
    reveal(Seq::filter);
    if text.len() > 0 {
        lemma_filter_keeps(text.drop_last());
        assert(text.drop_last().push(text.last()) =~= text);
    } else {
        assert(text =~= Seq::empty());
    }
}

} // verus!

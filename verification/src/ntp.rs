use vstd::prelude::*;

use crate::clock::Timespec;
use crate::error::Error;

verus! {

/// Mode value that marks an outbound query as coming from a client.
pub const NTP_CLIENT: u8 = 3;

/// Wire size of one header: 12 words of 4 bytes.
pub const NTP_HEADER_SIZE: usize = 48;

/// Seconds between the protocol epoch (1900-01-01) and the Unix epoch
/// (1970-01-01).
pub const NTP_TO_UNIX_EPOCH: i64 = 2208988800;

/// A protocol-native point in time: whole seconds since 1900-01-01 and
/// a binary fraction of a second (`fraction / 2^32` seconds), each an
/// unsigned 32-bit count, 4 bytes big-endian on the wire.
#[derive(Clone, Copy, Debug, PartialEq, Eq, Structural)]
pub struct NTPTimestamp {
    pub seconds: u32,
    pub fraction: u32,
}

/// The protocol message. The first wire byte packs `leap` (bits 7-6),
/// `version` (bits 5-3) and `mode` (bits 2-0); every other field takes
/// whole bytes, multi-byte fields big-endian.
#[derive(Clone, Copy, Debug, PartialEq, Eq, Structural)]
pub struct NTPHeader {
    pub leap: u8,
    pub version: u8,
    pub mode: u8,
    pub stratum: u8,
    pub poll: u8,
    pub precision: u8,
    pub root_delay: u32,
    pub root_dispersion: u32,
    pub reference_id: u32,
    pub reference_timestamp: NTPTimestamp,
    pub origin_timestamp: NTPTimestamp,
    pub receive_timestamp: NTPTimestamp,
    pub transmit_timestamp: NTPTimestamp,
}

/// The four big-endian bytes of a 32-bit word, most significant first.
pub open spec fn be_bytes_of_u32(x: u32) -> Seq<u8> {
    seq![(x >> 24) as u8, (x >> 16) as u8, (x >> 8) as u8, x as u8]
}

/// The 32-bit word read big-endian from four bytes.
pub open spec fn u32_of_be_bytes(b0: u8, b1: u8, b2: u8, b3: u8) -> u32 {
    ((b0 as u32) << 24) | ((b1 as u32) << 16) | ((b2 as u32) << 8) | (b3 as u32)
}

/// The word that starts at byte offset `i` of `s`.
pub open spec fn word_at(s: Seq<u8>, i: int) -> u32 {
    u32_of_be_bytes(s[i], s[i + 1], s[i + 2], s[i + 3])
}

/// The timestamp-pair that starts at byte offset `i` of `s`: seconds
/// first, fraction second.
pub open spec fn timestamp_at(s: Seq<u8>, i: int) -> NTPTimestamp {
    NTPTimestamp { seconds: word_at(s, i), fraction: word_at(s, i + 4) }
}

/// The packed leap/version/mode byte: leap shifted left 6, version
/// shifted left 3, mode unshifted, combined with bitwise or.
pub open spec fn first_byte_of(h: NTPHeader) -> u8 {
    (h.leap << 6) | (h.version << 3) | h.mode
}

/// The 48 wire bytes of a header, in the fixed field order.
pub open spec fn spec_encode(h: NTPHeader) -> Seq<u8> {
    seq![first_byte_of(h), h.stratum, h.poll, h.precision]
        + be_bytes_of_u32(h.root_delay)
        + be_bytes_of_u32(h.root_dispersion)
        + be_bytes_of_u32(h.reference_id)
        + be_bytes_of_u32(h.reference_timestamp.seconds)
        + be_bytes_of_u32(h.reference_timestamp.fraction)
        + be_bytes_of_u32(h.origin_timestamp.seconds)
        + be_bytes_of_u32(h.origin_timestamp.fraction)
        + be_bytes_of_u32(h.receive_timestamp.seconds)
        + be_bytes_of_u32(h.receive_timestamp.fraction)
        + be_bytes_of_u32(h.transmit_timestamp.seconds)
        + be_bytes_of_u32(h.transmit_timestamp.fraction)
}

/// The header read from the first 48 bytes of `s`, the first byte
/// unpacked with the masks that mirror `first_byte_of`.
pub open spec fn spec_decode(s: Seq<u8>) -> NTPHeader {
    NTPHeader {
        leap: (s[0] >> 6) & 0b11,
        version: (s[0] >> 3) & 0b111,
        mode: s[0] & 0b111,
        stratum: s[1],
        poll: s[2],
        precision: s[3],
        root_delay: word_at(s, 4),
        root_dispersion: word_at(s, 8),
        reference_id: word_at(s, 12),
        reference_timestamp: timestamp_at(s, 16),
        origin_timestamp: timestamp_at(s, 24),
        receive_timestamp: timestamp_at(s, 32),
        transmit_timestamp: timestamp_at(s, 40),
    }
}

/// The fresh client request: leap 0, version 3, client mode, every
/// other field zero.
pub open spec fn client_header() -> NTPHeader {
    NTPHeader {
        leap: 0,
        version: 3,
        mode: NTP_CLIENT,
        stratum: 0,
        poll: 0,
        precision: 0,
        root_delay: 0,
        root_dispersion: 0,
        reference_id: 0,
        reference_timestamp: NTPTimestamp { seconds: 0, fraction: 0 },
        origin_timestamp: NTPTimestamp { seconds: 0, fraction: 0 },
        receive_timestamp: NTPTimestamp { seconds: 0, fraction: 0 },
        transmit_timestamp: NTPTimestamp { seconds: 0, fraction: 0 },
    }
}

impl NTPTimestamp {
    /// Whole seconds relative to the Unix epoch.
    pub open spec fn spec_unix_sec(self) -> int {
        self.seconds - NTP_TO_UNIX_EPOCH
    }

    /// The sub-second component in nanoseconds: the integer part of
    /// `fraction / 2^32` seconds scaled to nanoseconds.
    pub open spec fn spec_subsec_nanos(self) -> int {
        (self.fraction * 1_000_000_000) / 0x1_0000_0000
    }

    /// The Unix-epoch time value this protocol timestamp denotes.
    pub open spec fn spec_timespec(self) -> Timespec {
        Timespec {
            sec: self.spec_unix_sec() as i64,
            nsec: self.spec_subsec_nanos() as u32,
        }
    }

    /// Converts this protocol timestamp to a Unix-epoch time value:
    /// the epoch offset is subtracted from the whole seconds, and the
    /// binary fraction becomes nanoseconds.
    pub fn as_timespec(&self) -> (r: Timespec)
        ensures
            r == self.spec_timespec(),
            r.sec == self.spec_unix_sec(),
            r.nsec == self.spec_subsec_nanos(),
            r.wf(),
    {
        let sec: i64 = (self.seconds as i64) - NTP_TO_UNIX_EPOCH;
        let prod: u64 = (self.fraction as u64) * 1_000_000_000;
        let nsec64: u64 = prod >> 32;
        proof {
            assert(prod >> 32 == prod / 0x1_0000_0000u64) by (bit_vector);
            assert(prod <= 4294967295u64 * 1_000_000_000 ==> (prod >> 32) < 1_000_000_000u64)
                by (bit_vector);
            assert(prod <= 4294967295u64 * 1_000_000_000);
        }
        let nsec: u32 = nsec64 as u32;
        Timespec { sec, nsec }
    }
}

impl NTPHeader {
    /// A header whose packed sub-fields lie within their bit widths.
    pub open spec fn wf(self) -> bool {
        self.leap < 4 && self.version < 8 && self.mode < 8
    }

    /// Builds the fresh client-mode request header.
    pub fn new() -> (h: NTPHeader)
        ensures
            h == client_header(),
            h.wf(),
    {
        NTPHeader {
            leap: 0,
            version: 3,
            mode: NTP_CLIENT,
            stratum: 0,
            poll: 0,
            precision: 0,
            root_delay: 0,
            root_dispersion: 0,
            reference_id: 0,
            reference_timestamp: NTPTimestamp { seconds: 0, fraction: 0 },
            origin_timestamp: NTPTimestamp { seconds: 0, fraction: 0 },
            receive_timestamp: NTPTimestamp { seconds: 0, fraction: 0 },
            transmit_timestamp: NTPTimestamp { seconds: 0, fraction: 0 },
        }
    }

    /// Serializes this header to its 48 wire bytes. Writing into an
    /// in-memory buffer cannot fail, so the result is always `Ok`.
    pub fn encode(&self) -> (r: Result<Vec<u8>, Error>)
        ensures
            r matches Ok(v) && v@ == spec_encode(*self) && v@.len() == NTP_HEADER_SIZE,
    {
        let mut vec: Vec<u8> = Vec::new();
        let first: u8 = (self.leap << 6u32) | (self.version << 3u32) | self.mode;
        vec.push(first);
        vec.push(self.stratum);
        vec.push(self.poll);
        vec.push(self.precision);
        proof {
            assert(vec@ =~= seq![first_byte_of(*self), self.stratum, self.poll, self.precision]);
        }
        push_u32_be(&mut vec, self.root_delay);
        push_u32_be(&mut vec, self.root_dispersion);
        push_u32_be(&mut vec, self.reference_id);
        push_u32_be(&mut vec, self.reference_timestamp.seconds);
        push_u32_be(&mut vec, self.reference_timestamp.fraction);
        push_u32_be(&mut vec, self.origin_timestamp.seconds);
        push_u32_be(&mut vec, self.origin_timestamp.fraction);
        push_u32_be(&mut vec, self.receive_timestamp.seconds);
        push_u32_be(&mut vec, self.receive_timestamp.fraction);
        push_u32_be(&mut vec, self.transmit_timestamp.seconds);
        push_u32_be(&mut vec, self.transmit_timestamp.fraction);
        proof {
            assert(vec@ =~= spec_encode(*self));
        }
        Ok(vec)
    }

    /// Parses the first 48 of the `size` valid bytes of `buf` into a
    /// header. With fewer than 48 valid bytes it fails, reporting the
    /// expected and the actual count; field values are not validated,
    /// and bytes beyond offset 48 are ignored.
    pub fn decode(size: usize, buf: &[u8]) -> (r: Result<NTPHeader, Error>)
        requires
            size <= buf@.len(),
        ensures
            size < NTP_HEADER_SIZE ==> r == Err::<NTPHeader, Error>(
                Error::UnexpectedSize(NTP_HEADER_SIZE, size),
            ),
            size >= NTP_HEADER_SIZE ==> (r matches Ok(h) && h == spec_decode(buf@)),
    {
        if size < NTP_HEADER_SIZE {
            return Err(Error::UnexpectedSize(NTP_HEADER_SIZE, size));
        }
        let b0: u8 = buf[0];
        let header = NTPHeader {
            leap: (b0 >> 6u32) & 0b11,
            version: (b0 >> 3u32) & 0b111,
            mode: b0 & 0b111,
            stratum: buf[1],
            poll: buf[2],
            precision: buf[3],
            root_delay: read_u32_be(buf, 4),
            root_dispersion: read_u32_be(buf, 8),
            reference_id: read_u32_be(buf, 12),
            reference_timestamp: NTPTimestamp {
                seconds: read_u32_be(buf, 16),
                fraction: read_u32_be(buf, 20),
            },
            origin_timestamp: NTPTimestamp {
                seconds: read_u32_be(buf, 24),
                fraction: read_u32_be(buf, 28),
            },
            receive_timestamp: NTPTimestamp {
                seconds: read_u32_be(buf, 32),
                fraction: read_u32_be(buf, 36),
            },
            transmit_timestamp: NTPTimestamp {
                seconds: read_u32_be(buf, 40),
                fraction: read_u32_be(buf, 44),
            },
        };
        Ok(header)
    }
}

/// Appends the four big-endian bytes of `x` to `v`.
fn push_u32_be(v: &mut Vec<u8>, x: u32)
    ensures
        final(v)@ == old(v)@ + be_bytes_of_u32(x),
{
    v.push((x >> 24u32) as u8);
    v.push((x >> 16u32) as u8);
    v.push((x >> 8u32) as u8);
    v.push(x as u8);
    proof {
        assert(v@ =~= old(v)@ + be_bytes_of_u32(x));
    }
}

/// Reads the big-endian word at byte offset `off` of `buf`.
fn read_u32_be(buf: &[u8], off: usize) -> (r: u32)
    requires
        off + 4 <= buf@.len(),
    ensures
        r == word_at(buf@, off as int),
{
    ((buf[off] as u32) << 24u32) | ((buf[off + 1] as u32) << 16u32) | ((buf[off + 2] as u32)
        << 8u32) | (buf[off + 3] as u32)
}

/// Reassembling the four big-endian bytes of a word gives the word
/// back.
proof fn lemma_u32_be_round_trip(x: u32)
    by (bit_vector)
    ensures
        u32_of_be_bytes((x >> 24) as u8, (x >> 16) as u8, (x >> 8) as u8, x as u8) == x,
{
}

/// The word at offset `i` is `x` when the four bytes there are the
/// big-endian bytes of `x`.
proof fn lemma_word_extract(s: Seq<u8>, i: int, x: u32)
    requires
        0 <= i,
        i + 4 <= s.len(),
        s[i] == (x >> 24) as u8,
        s[i + 1] == (x >> 16) as u8,
        s[i + 2] == (x >> 8) as u8,
        s[i + 3] == x as u8,
    ensures
        word_at(s, i) == x,
{
    lemma_u32_be_round_trip(x);
}

/// Unpacking the packed leap/version/mode byte recovers each sub-field
/// that lies within its bit width.
proof fn lemma_first_byte_unpack(leap: u8, version: u8, mode: u8)
    by (bit_vector)
    requires
        leap < 4,
        version < 8,
        mode < 8,
    ensures
        (((leap << 6) | (version << 3) | mode) >> 6) & 0b11 == leap,
        (((leap << 6) | (version << 3) | mode) >> 3) & 0b111 == version,
        ((leap << 6) | (version << 3) | mode) & 0b111 == mode,
{
}

/// Decoding the encoding of any header whose packed sub-fields lie
/// within their bit widths reproduces the header exactly, field for
/// field.
pub proof fn lemma_decode_encode_round_trip(h: NTPHeader)
    requires
        h.wf(),
    ensures
        spec_decode(spec_encode(h)) == h,
{
    let s = spec_encode(h);
    assert(s[0] == first_byte_of(h));
    assert(s[1] == h.stratum);
    assert(s[2] == h.poll);
    assert(s[3] == h.precision);
    lemma_first_byte_unpack(h.leap, h.version, h.mode);
    lemma_word_extract(s, 4, h.root_delay);
    lemma_word_extract(s, 8, h.root_dispersion);
    lemma_word_extract(s, 12, h.reference_id);
    lemma_word_extract(s, 16, h.reference_timestamp.seconds);
    lemma_word_extract(s, 20, h.reference_timestamp.fraction);
    lemma_word_extract(s, 24, h.origin_timestamp.seconds);
    lemma_word_extract(s, 28, h.origin_timestamp.fraction);
    lemma_word_extract(s, 32, h.receive_timestamp.seconds);
    lemma_word_extract(s, 36, h.receive_timestamp.fraction);
    lemma_word_extract(s, 40, h.transmit_timestamp.seconds);
    lemma_word_extract(s, 44, h.transmit_timestamp.fraction);
}

/// The encoding of any header is exactly 48 bytes long.
pub proof fn lemma_encode_len(h: NTPHeader)
    ensures
        spec_encode(h).len() == NTP_HEADER_SIZE,
{
}

/// The fresh client request encodes its first byte as `0b00011011`:
/// leap 0, version 3, client mode 3.
pub proof fn lemma_client_request_first_byte()
    ensures
        spec_encode(client_header())[0] == 0b00011011u8,
{
    assert((0u8 << 6) | (3u8 << 3) | 3u8 == 0b00011011u8) by (bit_vector);
    assert(spec_encode(client_header())[0] == first_byte_of(client_header()));
}

/// Decoding a buffer of 48 or more zero bytes yields the header with
/// every field zero, the four timestamp-pairs included.
pub proof fn lemma_decode_all_zero(s: Seq<u8>)
    requires
        s.len() >= NTP_HEADER_SIZE,
        forall|i: int| 0 <= i < s.len() ==> s[i] == 0u8,
    ensures
        spec_decode(s) == (NTPHeader {
            leap: 0,
            version: 0,
            mode: 0,
            stratum: 0,
            poll: 0,
            precision: 0,
            root_delay: 0,
            root_dispersion: 0,
            reference_id: 0,
            reference_timestamp: NTPTimestamp { seconds: 0, fraction: 0 },
            origin_timestamp: NTPTimestamp { seconds: 0, fraction: 0 },
            receive_timestamp: NTPTimestamp { seconds: 0, fraction: 0 },
            transmit_timestamp: NTPTimestamp { seconds: 0, fraction: 0 },
        }),
{
    assert((0u8 >> 6) & 0b11 == 0u8) by (bit_vector);
    assert((0u8 >> 3) & 0b111 == 0u8) by (bit_vector);
    assert(0u8 & 0b111 == 0u8) by (bit_vector);
    assert(u32_of_be_bytes(0u8, 0u8, 0u8, 0u8) == 0u32) by (bit_vector);
    assert(word_at(s, 4) == 0);
    assert(word_at(s, 8) == 0);
    assert(word_at(s, 12) == 0);
    assert(word_at(s, 16) == 0);
    assert(word_at(s, 20) == 0);
    assert(word_at(s, 24) == 0);
    assert(word_at(s, 28) == 0);
    assert(word_at(s, 32) == 0);
    assert(word_at(s, 36) == 0);
    assert(word_at(s, 40) == 0);
    assert(word_at(s, 44) == 0);
}

/// Epoch conversion: a timestamp-pair whose seconds field reads
/// `2208988800 + x` with zero fraction lies exactly `x` seconds after
/// the Unix epoch, for any non-negative `x` that fits the field.
pub proof fn lemma_epoch_conversion(x: int)
    requires
        0 <= x,
        NTP_TO_UNIX_EPOCH + x <= u32::MAX,
    ensures
        (NTPTimestamp { seconds: (NTP_TO_UNIX_EPOCH + x) as u32, fraction: 0 }).spec_unix_sec()
            == x,
{
}

/// For a fixed seconds field, a larger fraction never yields a smaller
/// sub-second component.
pub proof fn lemma_fraction_monotonic(a: NTPTimestamp, b: NTPTimestamp)
    requires
        a.seconds == b.seconds,
        a.fraction <= b.fraction,
    ensures
        a.spec_subsec_nanos() <= b.spec_subsec_nanos(),
{
    vstd::arithmetic::div_mod::lemma_div_is_ordered(
        a.fraction * 1_000_000_000,
        b.fraction * 1_000_000_000,
        0x1_0000_0000,
    );
}

/// The compute tail of one exchange: decodes a received buffer and
/// converts the transmit timestamp to a Unix-epoch time value.
pub fn parse_server_reply(size: usize, buf: &[u8]) -> (r: Result<Timespec, Error>)
    requires
        size <= buf@.len(),
    ensures
        size < NTP_HEADER_SIZE ==> r == Err::<Timespec, Error>(
            Error::UnexpectedSize(NTP_HEADER_SIZE, size),
        ),
        size >= NTP_HEADER_SIZE ==> (r matches Ok(t) && t
            == spec_decode(buf@).transmit_timestamp.spec_timespec()),
{
    let header = match NTPHeader::decode(size, buf) {
        Ok(h) => h,
        Err(e) => {
            return Err(e);
        },
    };
    Ok(header.transmit_timestamp.as_timespec())
}

} // verus!

//! The fixed 32-byte IDTP header and its big-endian wire encoding.

use vstd::prelude::*;

use crate::error::IdtpError;

verus! {

/// Value that signals the start of a new IDTP packet ("IDTP").
pub const IDTP_PREAMBLE: [u8; 4] = [0x49, 0x44, 0x54, 0x50];

/// Size of the IDTP preamble in bytes.
pub const IDTP_PREAMBLE_SIZE: usize = 4;

/// Value that signals the end of an IDTP packet ("PTDI").
pub const IDTP_TRAILER: [u8; 4] = [0x50, 0x54, 0x44, 0x49];

/// Size of the IDTP trailer in bytes.
pub const IDTP_TRAILER_SIZE: usize = 4;

/// Size of the encoded protocol version in bytes.
pub const IDTP_VERSION_SIZE: usize = 3;

/// Size of the encoded IDTP header in bytes.
pub const IDTP_HEADER_SIZE: usize = 32;

/// The preamble marker as a sequence of bytes.
pub open spec fn preamble_bytes() -> Seq<u8> {
    seq![0x49u8, 0x44u8, 0x54u8, 0x50u8]
}

/// The trailer marker as a sequence of bytes.
pub open spec fn trailer_bytes() -> Seq<u8> {
    seq![0x50u8, 0x54u8, 0x44u8, 0x49u8]
}

/// Big-endian encoding of a 16-bit integer.
pub open spec fn be16(x: u16) -> Seq<u8> {
    seq![(x >> 8u16) as u8, x as u8]
}

/// Big-endian encoding of a 32-bit integer.
pub open spec fn be32(x: u32) -> Seq<u8> {
    seq![(x >> 24u32) as u8, (x >> 16u32) as u8, (x >> 8u32) as u8, x as u8]
}

/// The 16-bit integer whose big-endian bytes are `b0 b1`.
pub open spec fn from_be16(b0: u8, b1: u8) -> u16 {
    ((b0 as u16) << 8u16) | (b1 as u16)
}

/// The 32-bit integer whose big-endian bytes are `b0 b1 b2 b3`.
pub open spec fn from_be32(b0: u8, b1: u8, b2: u8, b3: u8) -> u32 {
    ((b0 as u32) << 24u32) | ((b1 as u32) << 16u32) | ((b2 as u32) << 8u32) | (b3 as u32)
}

/// Reading back the big-endian bytes of a 16-bit integer gives the integer.
pub proof fn lemma_be16_round_trip(x: u16)
    ensures
        from_be16(be16(x)[0], be16(x)[1]) == x,
{
    assert(((((x >> 8u16) as u8) as u16) << 8u16) | ((x as u8) as u16) == x) by (bit_vector);
}

/// Reading back the big-endian bytes of a 32-bit integer gives the integer.
pub proof fn lemma_be32_round_trip(x: u32)
    ensures
        from_be32(be32(x)[0], be32(x)[1], be32(x)[2], be32(x)[3]) == x,
{
    assert(((((x >> 24u32) as u8) as u32) << 24u32) | ((((x >> 16u32) as u8) as u32) << 16u32)
        | ((((x >> 8u32) as u8) as u32) << 8u32) | ((x as u8) as u32) == x) by (bit_vector);
}

/// Writing out the integer read from two big-endian bytes gives those bytes.
pub proof fn lemma_from_be16_round_trip(b0: u8, b1: u8)
    ensures
        be16(from_be16(b0, b1)) == (seq![b0, b1]),
{
    assert((((((b0 as u16) << 8u16) | (b1 as u16)) >> 8u16) as u8) == b0) by (bit_vector);
    assert(((((b0 as u16) << 8u16) | (b1 as u16)) as u8) == b1) by (bit_vector);
    assert(be16(from_be16(b0, b1)) =~= seq![b0, b1]);
}

/// Writing out the integer read from four big-endian bytes gives those bytes.
pub proof fn lemma_from_be32_round_trip(b0: u8, b1: u8, b2: u8, b3: u8)
    ensures
        be32(from_be32(b0, b1, b2, b3)) == (seq![b0, b1, b2, b3]),
{
    let x = from_be32(b0, b1, b2, b3);
    assert((((((b0 as u32) << 24u32) | ((b1 as u32) << 16u32) | ((b2 as u32) << 8u32) | (
    b3 as u32)) >> 24u32) as u8) == b0) by (bit_vector);
    assert((((((b0 as u32) << 24u32) | ((b1 as u32) << 16u32) | ((b2 as u32) << 8u32) | (
    b3 as u32)) >> 16u32) as u8) == b1) by (bit_vector);
    assert((((((b0 as u32) << 24u32) | ((b1 as u32) << 16u32) | ((b2 as u32) << 8u32) | (
    b3 as u32)) >> 8u32) as u8) == b2) by (bit_vector);
    assert(((((b0 as u32) << 24u32) | ((b1 as u32) << 16u32) | ((b2 as u32) << 8u32) | (
    b3 as u32)) as u8) == b3) by (bit_vector);
    assert(be32(x) =~= seq![b0, b1, b2, b3]);
}

/// Protocol version in the form MAJOR.MINOR.PATCH.
#[derive(Debug, Default, Clone, Copy, PartialEq, Eq, Structural)]
pub struct Version {
    /// Increments after incompatible API changes were made.
    pub major: u8,
    /// Increments after functionality was added in a backwards-compatible manner.
    pub minor: u8,
    /// Increments after backwards-compatible bug fixes were made.
    pub patch: u8,
}

/// Major part of the current IDTP version.
pub const IDTP_VERSION_MAJOR: u8 = 1;

/// Minor part of the current IDTP version.
pub const IDTP_VERSION_MINOR: u8 = 0;

/// Patch part of the current IDTP version.
pub const IDTP_VERSION_PATCH: u8 = 0;

impl Version {
    /// The three wire bytes of a version: major, minor, patch.
    pub open spec fn spec_bytes(self) -> Seq<u8> {
        seq![self.major, self.minor, self.patch]
    }

    /// The version whose wire bytes start `b`.
    pub open spec fn spec_from_bytes(b: Seq<u8>) -> Version
        recommends
            b.len() >= 3,
    {
        Version { major: b[0], minor: b[1], patch: b[2] }
    }

    /// The version of the protocol that this library speaks.
    pub open spec fn spec_current() -> Version {
        Version { major: IDTP_VERSION_MAJOR, minor: IDTP_VERSION_MINOR, patch: IDTP_VERSION_PATCH }
    }

    /// The current IDTP version.
    pub fn current() -> (r: Version)
        ensures
            r == Version::spec_current(),
    {
        Version { major: IDTP_VERSION_MAJOR, minor: IDTP_VERSION_MINOR, patch: IDTP_VERSION_PATCH }
    }

    /// Construct a version from its three parts.
    pub fn new(major: u8, minor: u8, patch: u8) -> (r: Version)
        ensures
            r == (Version { major, minor, patch }),
    {
        Version { major, minor, patch }
    }

    /// Convert the version to its wire bytes.
    pub fn as_bytes(&self) -> (r: [u8; IDTP_VERSION_SIZE])
        ensures
            r@ == self.spec_bytes(),
    {
        let r = [self.major, self.minor, self.patch];
        assert(r@ =~= self.spec_bytes());
        r
    }

    /// Decode a version from the first three bytes of `bytes`.
    pub fn from_bytes(bytes: &[u8]) -> (r: Result<Version, IdtpError>)
        ensures
            bytes@.len() < IDTP_VERSION_SIZE <==> r == Err::<Version, IdtpError>(IdtpError::TruncatedInput),
            bytes@.len() >= IDTP_VERSION_SIZE ==> r == Ok::<Version, IdtpError>(Version::spec_from_bytes(bytes@)),
    {
        if bytes.len() < IDTP_VERSION_SIZE {
            return Err(IdtpError::TruncatedInput);
        }
        Ok(Version { major: bytes[0], minor: bytes[1], patch: bytes[2] })
    }
}

/// IDTP operating mode.
#[derive(Debug, Default, Clone, Copy, PartialEq, Eq, Structural)]
pub enum Mode {
    /// IDTP-N: error detection by checksum only; the `crc` field is unused
    /// and filled with zeros.
    #[default]
    Normal,
    /// IDTP-S: error detection by checksum and CRC.
    Safety,
    /// Any mode value that is not known.
    Unknown,
}

impl Mode {
    /// The wire byte of a mode.
    pub open spec fn spec_byte(self) -> u8 {
        match self {
            Mode::Normal => 0x00,
            Mode::Safety => 0x01,
            Mode::Unknown => 0xff,
        }
    }

    /// The mode that a wire byte stands for: every byte maps to a mode.
    pub open spec fn spec_from_byte(byte: u8) -> Mode {
        if byte == 0x00 {
            Mode::Normal
        } else if byte == 0x01 {
            Mode::Safety
        } else {
            Mode::Unknown
        }
    }

    /// Convert the mode to its wire byte.
    pub fn as_byte(&self) -> (r: u8)
        ensures
            r == self.spec_byte(),
    {
        match self {
            Mode::Normal => 0x00,
            Mode::Safety => 0x01,
            Mode::Unknown => 0xff,
        }
    }
}

impl From<u8> for Mode {
    /// Convert a wire byte to an operating mode.
    fn from(byte: u8) -> (r: Mode)
        ensures
            r == Mode::spec_from_byte(byte),
    {
        match byte {
            0x00 => Mode::Normal,
            0x01 => Mode::Safety,
            _ => Mode::Unknown,
        }
    }
}

impl vstd::std_specs::convert::FromSpecImpl<u8> for Mode {
    open spec fn obeys_from_spec() -> bool {
        true
    }

    open spec fn from_spec(v: u8) -> Mode {
        Mode::spec_from_byte(v)
    }
}

/// IDTP header: the fixed-size metadata block that opens every packet.
#[derive(Debug, Default, Clone, Copy)]
pub struct IdtpHeader {
    /// Value that signals the start of a new IDTP packet.
    pub preamble: [u8; IDTP_PREAMBLE_SIZE],
    /// Protocol version in the form MAJOR.MINOR.PATCH.
    pub version: Version,
    /// Protocol operating mode.
    pub mode: Mode,
    /// IMU device identifier.
    pub device_id: u16,
    /// Value used for simple error detection.
    pub checksum: u16,
    /// Flags of the sensors that contributed to the payload.
    pub sensors: u32,
    /// Timestamp from the IMU's internal clock.
    pub timestamp: u32,
    /// Sequence number of the packet.
    pub packet_num: u32,
    /// Declared size of the payload in bytes.
    pub size: u32,
    /// Cyclic Redundancy Check, used in safety mode.
    pub crc: u32,
}

impl IdtpHeader {
    /// The big-endian wire encoding of the header, field after field.
    pub open spec fn spec_bytes(self) -> Seq<u8> {
        self.preamble@ + self.version.spec_bytes() + seq![self.mode.spec_byte()] + be16(
            self.device_id,
        ) + be16(self.checksum) + be32(self.sensors) + be32(self.timestamp) + be32(
            self.packet_num,
        ) + be32(self.size) + be32(self.crc)
    }

    /// `self` is the header that the first 32 bytes of `b` decode to.
    pub open spec fn decodes_from(self, b: Seq<u8>) -> bool {
        &&& b.len() >= IDTP_HEADER_SIZE
        &&& self.preamble@ == b.subrange(0, 4)
        &&& self.version == Version::spec_from_bytes(b.subrange(4, 7))
        &&& self.mode == Mode::spec_from_byte(b[7])
        &&& self.device_id == from_be16(b[8], b[9])
        &&& self.checksum == from_be16(b[10], b[11])
        &&& self.sensors == from_be32(b[12], b[13], b[14], b[15])
        &&& self.timestamp == from_be32(b[16], b[17], b[18], b[19])
        &&& self.packet_num == from_be32(b[20], b[21], b[22], b[23])
        &&& self.size == from_be32(b[24], b[25], b[26], b[27])
        &&& self.crc == from_be32(b[28], b[29], b[30], b[31])
    }

    /// Two headers agree on every field.
    pub open spec fn same_fields(self, other: IdtpHeader) -> bool {
        &&& self.preamble@ == other.preamble@
        &&& self.version == other.version
        &&& self.mode == other.mode
        &&& self.device_id == other.device_id
        &&& self.checksum == other.checksum
        &&& self.sensors == other.sensors
        &&& self.timestamp == other.timestamp
        &&& self.packet_num == other.packet_num
        &&& self.size == other.size
        &&& self.crc == other.crc
    }

    /// A header that carries the preamble and the current version, with
    /// every other field zero.
    pub open spec fn is_fresh(self) -> bool {
        &&& self.preamble@ == preamble_bytes()
        &&& self.version == Version::spec_current()
        &&& self.mode == Mode::Normal
        &&& self.device_id == 0
        &&& self.checksum == 0
        &&& self.sensors == 0
        &&& self.timestamp == 0
        &&& self.packet_num == 0
        &&& self.size == 0
        &&& self.crc == 0
    }

    /// Construct a header with the preamble and the current version set and
    /// every other field zero.
    pub fn new() -> (r: IdtpHeader)
        ensures
            r.is_fresh(),
    {
        let r = IdtpHeader {
            preamble: IDTP_PREAMBLE,
            version: Version::current(),
            mode: Mode::Normal,
            device_id: 0,
            checksum: 0,
            sensors: 0,
            timestamp: 0,
            packet_num: 0,
            size: 0,
            crc: 0,
        };
        assert(IDTP_PREAMBLE@ =~= preamble_bytes());
        r
    }

    /// Convert the header to its wire bytes, in big-endian network byte order.
    pub fn as_bytes_be(&self) -> (r: [u8; IDTP_HEADER_SIZE])
        ensures
            r@ == self.spec_bytes(),
    {
        let p = self.preamble;
        let v = self.version.as_bytes();
        let d = self.device_id;
        let c = self.checksum;
        let s = self.sensors;
        let t = self.timestamp;
        let n = self.packet_num;
        let z = self.size;
        let k = self.crc;
        let r = [
            p[0], p[1], p[2], p[3],
            v[0], v[1], v[2],
            self.mode.as_byte(),
            (d >> 8u16) as u8, d as u8,
            (c >> 8u16) as u8, c as u8,
            (s >> 24u32) as u8, (s >> 16u32) as u8, (s >> 8u32) as u8, s as u8,
            (t >> 24u32) as u8, (t >> 16u32) as u8, (t >> 8u32) as u8, t as u8,
            (n >> 24u32) as u8, (n >> 16u32) as u8, (n >> 8u32) as u8, n as u8,
            (z >> 24u32) as u8, (z >> 16u32) as u8, (z >> 8u32) as u8, z as u8,
            (k >> 24u32) as u8, (k >> 16u32) as u8, (k >> 8u32) as u8, k as u8,
        ];
        assert(r@ =~= self.spec_bytes());
        r
    }

    /// Decode a header from the first 32 bytes of `bytes`, which are read in
    /// big-endian byte order. Preamble and version are carried as they are,
    /// not checked.
    pub fn from_bytes(bytes: &[u8]) -> (r: Result<IdtpHeader, IdtpError>)
        ensures
            bytes@.len() < IDTP_HEADER_SIZE <==> r == Err::<IdtpHeader, IdtpError>(
                IdtpError::TruncatedInput,
            ),
            bytes@.len() >= IDTP_HEADER_SIZE <==> r is Ok,
            r matches Ok(h) ==> h.decodes_from(bytes@),
    {
        if bytes.len() < IDTP_HEADER_SIZE {
            return Err(IdtpError::TruncatedInput);
        }
        let h = IdtpHeader {
            preamble: [bytes[0], bytes[1], bytes[2], bytes[3]],
            version: Version { major: bytes[4], minor: bytes[5], patch: bytes[6] },
            mode: Mode::from(bytes[7]),
            device_id: ((bytes[8] as u16) << 8u16) | (bytes[9] as u16),
            checksum: ((bytes[10] as u16) << 8u16) | (bytes[11] as u16),
            sensors: ((bytes[12] as u32) << 24u32) | ((bytes[13] as u32) << 16u32) | ((
            bytes[14] as u32) << 8u32) | (bytes[15] as u32),
            timestamp: ((bytes[16] as u32) << 24u32) | ((bytes[17] as u32) << 16u32) | ((
            bytes[18] as u32) << 8u32) | (bytes[19] as u32),
            packet_num: ((bytes[20] as u32) << 24u32) | ((bytes[21] as u32) << 16u32) | ((
            bytes[22] as u32) << 8u32) | (bytes[23] as u32),
            size: ((bytes[24] as u32) << 24u32) | ((bytes[25] as u32) << 16u32) | ((
            bytes[26] as u32) << 8u32) | (bytes[27] as u32),
            crc: ((bytes[28] as u32) << 24u32) | ((bytes[29] as u32) << 16u32) | ((
            bytes[30] as u32) << 8u32) | (bytes[31] as u32),
        };
        assert(h.preamble@ =~= bytes@.subrange(0, 4));
        Ok(h)
    }
}

/// Every header encodes to exactly `IDTP_HEADER_SIZE` bytes, the preamble and
/// the trailer to `IDTP_PREAMBLE_SIZE` and `IDTP_TRAILER_SIZE` bytes, and a
/// version to `IDTP_VERSION_SIZE` bytes; these sizes are 32, 4, 4 and 3.
pub proof fn lemma_header_sizes(h: IdtpHeader)
    ensures
        h.spec_bytes().len() == IDTP_HEADER_SIZE,
        h.version.spec_bytes().len() == IDTP_VERSION_SIZE,
        preamble_bytes().len() == IDTP_PREAMBLE_SIZE,
        trailer_bytes().len() == IDTP_TRAILER_SIZE,
        IDTP_PREAMBLE@ == preamble_bytes(),
        IDTP_TRAILER@ == trailer_bytes(),
        IDTP_HEADER_SIZE == 32,
        IDTP_PREAMBLE_SIZE == 4,
        IDTP_TRAILER_SIZE == 4,
        IDTP_VERSION_SIZE == 3,
{
    assert(IDTP_PREAMBLE@ =~= preamble_bytes());
    assert(IDTP_TRAILER@ =~= trailer_bytes());
}

/// Where each field lies in the encoding of a header.
proof fn lemma_header_layout(h: IdtpHeader)
    ensures
        h.spec_bytes().len() == IDTP_HEADER_SIZE,
        h.spec_bytes().subrange(0, 4) == h.preamble@,
        h.spec_bytes().subrange(4, 7) == h.version.spec_bytes(),
        h.spec_bytes()[7] == h.mode.spec_byte(),
        h.spec_bytes().subrange(8, 10) == be16(h.device_id),
        h.spec_bytes().subrange(10, 12) == be16(h.checksum),
        h.spec_bytes().subrange(12, 16) == be32(h.sensors),
        h.spec_bytes().subrange(16, 20) == be32(h.timestamp),
        h.spec_bytes().subrange(20, 24) == be32(h.packet_num),
        h.spec_bytes().subrange(24, 28) == be32(h.size),
        h.spec_bytes().subrange(28, 32) == be32(h.crc),
{
    let s1 = h.preamble@ + h.version.spec_bytes();
    let s2 = s1 + seq![h.mode.spec_byte()];
    let s3 = s2 + be16(h.device_id);
    let s4 = s3 + be16(h.checksum);
    let s5 = s4 + be32(h.sensors);
    let s6 = s5 + be32(h.timestamp);
    let s7 = s6 + be32(h.packet_num);
    let s8 = s7 + be32(h.size);
    let b = s8 + be32(h.crc);
    assert(b == h.spec_bytes());
    assert(b.subrange(0, 4) =~= h.preamble@);
    assert(b.subrange(4, 7) =~= h.version.spec_bytes());
    assert(b.subrange(8, 10) =~= be16(h.device_id));
    assert(b.subrange(10, 12) =~= be16(h.checksum));
    assert(b.subrange(12, 16) =~= be32(h.sensors));
    assert(b.subrange(16, 20) =~= be32(h.timestamp));
    assert(b.subrange(20, 24) =~= be32(h.packet_num));
    assert(b.subrange(24, 28) =~= be32(h.size));
    assert(b.subrange(28, 32) =~= be32(h.crc));
}

/// Decoding the encoding of a header gives back a header with the same
/// fields, and only such a header.
pub proof fn lemma_header_round_trip(h: IdtpHeader, d: IdtpHeader)
    ensures
        d.decodes_from(h.spec_bytes()) <==> d.same_fields(h),
{
    let b = h.spec_bytes();
    lemma_header_layout(h);
    lemma_be16_round_trip(h.device_id);
    lemma_be16_round_trip(h.checksum);
    lemma_be32_round_trip(h.sensors);
    lemma_be32_round_trip(h.timestamp);
    lemma_be32_round_trip(h.packet_num);
    lemma_be32_round_trip(h.size);
    lemma_be32_round_trip(h.crc);
    assert(b[8] == b.subrange(8, 10)[0] && b[9] == b.subrange(8, 10)[1]);
    assert(b[10] == b.subrange(10, 12)[0] && b[11] == b.subrange(10, 12)[1]);
    assert(b[12] == b.subrange(12, 16)[0] && b[13] == b.subrange(12, 16)[1]);
    assert(b[14] == b.subrange(12, 16)[2] && b[15] == b.subrange(12, 16)[3]);
    assert(b[16] == b.subrange(16, 20)[0] && b[17] == b.subrange(16, 20)[1]);
    assert(b[18] == b.subrange(16, 20)[2] && b[19] == b.subrange(16, 20)[3]);
    assert(b[20] == b.subrange(20, 24)[0] && b[21] == b.subrange(20, 24)[1]);
    assert(b[22] == b.subrange(20, 24)[2] && b[23] == b.subrange(20, 24)[3]);
    assert(b[24] == b.subrange(24, 28)[0] && b[25] == b.subrange(24, 28)[1]);
    assert(b[26] == b.subrange(24, 28)[2] && b[27] == b.subrange(24, 28)[3]);
    assert(b[28] == b.subrange(28, 32)[0] && b[29] == b.subrange(28, 32)[1]);
    assert(b[30] == b.subrange(28, 32)[2] && b[31] == b.subrange(28, 32)[3]);
    assert(b.subrange(4, 7) =~= h.version.spec_bytes());
    match h.mode {
        Mode::Normal => {},
        Mode::Safety => {},
        Mode::Unknown => {},
    }
}

/// Decoding reads only the first `IDTP_HEADER_SIZE` bytes.
pub proof fn lemma_decode_reads_prefix(d: IdtpHeader, b: Seq<u8>)
    requires
        b.len() >= IDTP_HEADER_SIZE,
    ensures
        d.decodes_from(b) <==> d.decodes_from(b.subrange(0, IDTP_HEADER_SIZE as int)),
{
    let p = b.subrange(0, IDTP_HEADER_SIZE as int);
    assert(p.subrange(0, 4) =~= b.subrange(0, 4));
    assert(p.subrange(4, 7) =~= b.subrange(4, 7));
}

/// A mode byte that names a mode (0x00, 0x01 or 0xFF); any other byte
/// decodes to `Mode::Unknown` and is written back as 0xFF.
pub open spec fn is_canonical_mode_byte(byte: u8) -> bool {
    byte == 0x00 || byte == 0x01 || byte == 0xff
}

/// Encoding a decoded header gives back the bytes it was decoded from, when
/// its mode byte is one that names a mode.
pub proof fn lemma_header_reencode(d: IdtpHeader, b: Seq<u8>)
    requires
        d.decodes_from(b),
        is_canonical_mode_byte(b[7]),
    ensures
        d.spec_bytes() == b.subrange(0, IDTP_HEADER_SIZE as int),
{
    lemma_header_layout(d);
    lemma_from_be16_round_trip(b[8], b[9]);
    lemma_from_be16_round_trip(b[10], b[11]);
    lemma_from_be32_round_trip(b[12], b[13], b[14], b[15]);
    lemma_from_be32_round_trip(b[16], b[17], b[18], b[19]);
    lemma_from_be32_round_trip(b[20], b[21], b[22], b[23]);
    lemma_from_be32_round_trip(b[24], b[25], b[26], b[27]);
    lemma_from_be32_round_trip(b[28], b[29], b[30], b[31]);
    let e = d.spec_bytes();
    let p = b.subrange(0, IDTP_HEADER_SIZE as int);
    assert forall|i: int| 0 <= i < IDTP_HEADER_SIZE implies e[i] == p[i] by {
        if i < 4 {
            assert(e[i] == e.subrange(0, 4)[i]);
        } else if i < 7 {
            assert(e[i] == e.subrange(4, 7)[i - 4]);
        } else if i == 7 {
        } else if i < 10 {
            assert(e[i] == e.subrange(8, 10)[i - 8]);
        } else if i < 12 {
            assert(e[i] == e.subrange(10, 12)[i - 10]);
        } else if i < 16 {
            assert(e[i] == e.subrange(12, 16)[i - 12]);
        } else if i < 20 {
            assert(e[i] == e.subrange(16, 20)[i - 16]);
        } else if i < 24 {
            assert(e[i] == e.subrange(20, 24)[i - 20]);
        } else if i < 28 {
            assert(e[i] == e.subrange(24, 28)[i - 24]);
        } else {
            assert(e[i] == e.subrange(28, 32)[i - 28]);
        }
    }
    assert(e =~= p);
}

} // verus!

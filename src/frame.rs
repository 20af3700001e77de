//! The IDTP frame: a header, a bounded payload and the trailer, packed into
//! and parsed from flat byte buffers.

use vstd::prelude::*;
use vstd::slice::slice_subrange;

use crate::error::IdtpError;
use crate::header::{
    is_canonical_mode_byte, lemma_decode_reads_prefix, lemma_header_reencode, lemma_header_round_trip,
    lemma_header_sizes, preamble_bytes, trailer_bytes, IdtpHeader,
    IDTP_HEADER_SIZE, IDTP_TRAILER, IDTP_TRAILER_SIZE,
};

verus! {

/// Largest size of a whole packet in bytes: header, payload and trailer.
pub const IDTP_PACKET_MAX_SIZE: usize = 1024;

/// Smallest size of a packet in bytes: a packet with an empty payload.
pub const IDTP_PACKET_MIN_SIZE: usize = IDTP_HEADER_SIZE + IDTP_TRAILER_SIZE;

/// Largest size of a payload in bytes.
pub const IDTP_PAYLOAD_MAX_SIZE: usize = IDTP_PACKET_MAX_SIZE - IDTP_HEADER_SIZE
    - IDTP_TRAILER_SIZE;

/// What a frame holds: its header and the payload bytes that were set.
pub struct FrameView {
    /// The frame's header.
    pub header: IdtpHeader,
    /// The payload bytes, as many as were set.
    pub payload: Seq<u8>,
}

/// The wire bytes of a frame: encoded header, payload, trailer.
pub open spec fn packet_bytes(f: FrameView) -> Seq<u8> {
    f.header.spec_bytes() + f.payload + trailer_bytes()
}

/// `b`, taken whole as one packet, parses to `f`: the header is decoded from
/// the first bytes, the payload is what lies between header and trailer, and
/// the trailer bytes are not looked at.
pub open spec fn parses_to(b: Seq<u8>, f: FrameView) -> bool {
    &&& IDTP_PACKET_MIN_SIZE <= b.len() <= IDTP_PACKET_MAX_SIZE
    &&& f.header.decodes_from(b)
    &&& f.payload == b.subrange(IDTP_HEADER_SIZE as int, b.len() - IDTP_TRAILER_SIZE)
}

/// Copy `src` into `buffer` from offset `at` on, leaving every other byte.
fn write_at(buffer: &mut [u8], at: usize, src: &[u8])
    requires
        at + src@.len() <= old(buffer)@.len(),
    ensures
        final(buffer)@ == old(buffer)@.subrange(0, at as int) + src@ + old(buffer)@.subrange(
            at + src@.len(),
            old(buffer)@.len() as int,
        ),
{
    let len = buffer.len();
    let mut i: usize = 0;
    while i < src.len()
        invariant
            buffer@.len() == old(buffer)@.len(),
            len == buffer@.len(),
            at + src@.len() <= buffer@.len(),
            i <= src@.len(),
            forall|j: int| 0 <= j < at ==> buffer@[j] == old(buffer)@[j],
            forall|j: int| 0 <= j < i ==> buffer@[at + j] == src@[j],
            forall|j: int| at + i <= j < buffer@.len() ==> buffer@[j] == old(buffer)@[j],
        decreases src@.len() - i,
    {
        buffer[at + i] = src[i];
        i = i + 1;
    }
    let ghost expected = old(buffer)@.subrange(0, at as int) + src@ + old(buffer)@.subrange(
        at + src@.len(),
        old(buffer)@.len() as int,
    );
    assert forall|j: int| 0 <= j < buffer@.len() implies buffer@[j] == expected[j] by {
        if at <= j < at + src@.len() {
            assert(buffer@[at + (j - at)] == src@[j - at]);
        }
    }
    assert(buffer@ =~= expected);
}

/// Parsing the packed bytes of a frame gives back the frame: a frame parses
/// from them exactly when it has the same header fields and the same payload.
/// Such bytes always lie within the sizes that parsing accepts.
pub proof fn lemma_frame_round_trip(f: FrameView, g: FrameView)
    requires
        f.payload.len() <= IDTP_PAYLOAD_MAX_SIZE,
    ensures
        IDTP_PACKET_MIN_SIZE <= packet_bytes(f).len() <= IDTP_PACKET_MAX_SIZE,
        parses_to(packet_bytes(f), g) <==> (g.header.same_fields(f.header) && g.payload
            == f.payload),
{
    let b = packet_bytes(f);
    lemma_header_sizes(f.header);
    lemma_decode_reads_prefix(g.header, b);
    lemma_header_round_trip(f.header, g.header);
    assert(b.subrange(0, IDTP_HEADER_SIZE as int) =~= f.header.spec_bytes());
    assert(b.subrange(IDTP_HEADER_SIZE as int, b.len() - IDTP_TRAILER_SIZE) =~= f.payload);
}

/// Packing a parsed frame rebuilds the packet byte for byte, when the packet
/// ends with the trailer and its mode byte names a mode.
pub proof fn lemma_frame_reencode(b: Seq<u8>, f: FrameView)
    requires
        parses_to(b, f),
        is_canonical_mode_byte(b[7]),
        b.subrange(b.len() - IDTP_TRAILER_SIZE, b.len() as int) == trailer_bytes(),
    ensures
        packet_bytes(f) == b,
{
    lemma_header_reencode(f.header, b);
    let h = IDTP_HEADER_SIZE as int;
    let t = b.len() - IDTP_TRAILER_SIZE;
    assert(b =~= b.subrange(0, h) + b.subrange(h, t) + b.subrange(t, b.len() as int));
}

/// Inertial Measurement Unit Data Transfer Protocol frame.
#[derive(Debug, Clone, Copy)]
pub struct IdtpFrame {
    /// Packet header.
    header: IdtpHeader,
    /// Storage for the payload; only its first `payload_size` bytes are set.
    payload: [u8; IDTP_PAYLOAD_MAX_SIZE],
    /// Payload size in bytes.
    payload_size: usize,
}

impl View for IdtpFrame {
    type V = FrameView;

    closed spec fn view(&self) -> FrameView {
        FrameView {
            header: self.header,
            payload: self.payload@.subrange(0, self.payload_size as int),
        }
    }
}

impl IdtpFrame {
    #[verifier::type_invariant]
    spec fn inv(&self) -> bool {
        self.payload_size <= IDTP_PAYLOAD_MAX_SIZE
    }

    /// Construct a frame with a fresh header and an empty payload.
    pub fn new() -> (r: IdtpFrame)
        ensures
            r@.header.is_fresh(),
            r@.payload.len() == 0,
    {
        IdtpFrame {
            header: IdtpHeader::new(),
            payload: [0u8; IDTP_PAYLOAD_MAX_SIZE],
            payload_size: 0,
        }
    }

    /// Replace the header; the payload is kept.
    pub fn set_header(&mut self, header: &IdtpHeader)
        ensures
            final(self)@ == (FrameView { header: *header, payload: old(self)@.payload }),
    {
        proof {
            use_type_invariant(&*self);
        }
        *self = IdtpFrame {
            header: *header,
            payload: self.payload,
            payload_size: self.payload_size,
        };
    }

    /// Copy `payload` into the frame. A payload longer than
    /// `IDTP_PAYLOAD_MAX_SIZE` is refused and the frame is left unchanged.
    pub fn set_payload(&mut self, payload: &[u8]) -> (r: Result<(), IdtpError>)
        ensures
            payload@.len() <= IDTP_PAYLOAD_MAX_SIZE <==> r is Ok,
            r is Ok ==> final(self)@ == (FrameView { header: old(self)@.header, payload: payload@ }),
            r is Err ==> r == Err::<(), IdtpError>(IdtpError::PayloadTooLarge) && final(self)@
                == old(self)@,
    {
        proof {
            use_type_invariant(&*self);
        }
        let payload_size = payload.len();
        if payload_size > IDTP_PAYLOAD_MAX_SIZE {
            return Err(IdtpError::PayloadTooLarge);
        }
        let mut storage = self.payload;
        let mut i: usize = 0;
        while i < payload_size
            invariant
                payload_size == payload@.len(),
                payload_size <= IDTP_PAYLOAD_MAX_SIZE,
                i <= payload_size,
                forall|j: int| 0 <= j < i ==> storage@[j] == payload@[j],
            decreases payload_size - i,
        {
            storage[i] = payload[i];
            i = i + 1;
        }
        *self = IdtpFrame { header: self.header, payload: storage, payload_size };
        assert(self@.payload =~= payload@);
        Ok(())
    }

    /// The frame's header.
    pub fn header(&self) -> (r: IdtpHeader)
        ensures
            r == self@.header,
    {
        self.header
    }

    /// The payload bytes that were set: exactly `payload_size` of them.
    pub fn payload(&self) -> (r: &[u8])
        ensures
            r@ == self@.payload,
    {
        proof {
            use_type_invariant(self);
        }
        slice_subrange(self.payload.as_slice(), 0, self.payload_size)
    }

    /// The payload size in bytes.
    pub fn payload_size(&self) -> (r: usize)
        ensures
            r == self@.payload.len(),
            r <= IDTP_PAYLOAD_MAX_SIZE,
    {
        proof {
            use_type_invariant(self);
        }
        self.payload_size
    }

    /// Pack the frame into `buffer`: the big-endian header, then the payload,
    /// then the trailer, from offset 0 on. A buffer shorter than
    /// `IDTP_PACKET_MIN_SIZE` plus the payload size is refused untouched.
    /// The header's `size` field is written as it is; it does not decide how
    /// many payload bytes are written.
    pub fn pack(&self, buffer: &mut [u8]) -> (r: Result<(), IdtpError>)
        ensures
            packet_bytes(self@).len() == IDTP_PACKET_MIN_SIZE + self@.payload.len(),
            old(buffer)@.len() < IDTP_PACKET_MIN_SIZE + self@.payload.len() <==> r is Err,
            r is Err ==> r == Err::<(), IdtpError>(IdtpError::BufferTooSmall) && final(buffer)@
                == old(buffer)@,
            r is Ok ==> final(buffer)@ == packet_bytes(self@) + old(buffer)@.subrange(
                packet_bytes(self@).len() as int,
                old(buffer)@.len() as int,
            ),
    {
        proof {
            use_type_invariant(self);
            lemma_header_sizes(self.header);
        }
        let payload_size = self.payload_size;
        if buffer.len() < IDTP_PACKET_MIN_SIZE + payload_size {
            return Err(IdtpError::BufferTooSmall);
        }
        let ghost before = buffer@;
        let header_bytes = self.header.as_bytes_be();
        write_at(buffer, 0, header_bytes.as_slice());
        write_at(buffer, IDTP_HEADER_SIZE, slice_subrange(self.payload.as_slice(), 0, payload_size));
        write_at(buffer, IDTP_HEADER_SIZE + payload_size, IDTP_TRAILER.as_slice());
        let ghost n = packet_bytes(self@).len();
        assert(buffer@.subrange(0, n as int) =~= packet_bytes(self@));
        assert(buffer@.subrange(n as int, buffer@.len() as int) =~= before.subrange(
            n as int,
            before.len() as int,
        ));
        assert(buffer@ =~= buffer@.subrange(0, n as int) + buffer@.subrange(
            n as int,
            buffer@.len() as int,
        ));
        Ok(())
    }

    /// Parse `bytes`, taken whole as one packet, into a frame. The header is
    /// decoded from the first bytes and the payload is what lies between
    /// header and trailer; the trailer's value is not checked. Input shorter
    /// than `IDTP_PACKET_MIN_SIZE` or longer than `IDTP_PACKET_MAX_SIZE` is
    /// refused.
    pub fn from_bytes(bytes: &[u8]) -> (r: Result<IdtpFrame, IdtpError>)
        ensures
            bytes@.len() < IDTP_PACKET_MIN_SIZE <==> r == Err::<IdtpFrame, IdtpError>(
                IdtpError::TruncatedInput,
            ),
            bytes@.len() > IDTP_PACKET_MAX_SIZE <==> r == Err::<IdtpFrame, IdtpError>(
                IdtpError::PayloadTooLarge,
            ),
            IDTP_PACKET_MIN_SIZE <= bytes@.len() <= IDTP_PACKET_MAX_SIZE <==> r is Ok,
            r matches Ok(f) ==> parses_to(bytes@, f@),
    {
        if bytes.len() < IDTP_PACKET_MIN_SIZE {
            return Err(IdtpError::TruncatedInput);
        }
        if bytes.len() > IDTP_PACKET_MAX_SIZE {
            return Err(IdtpError::PayloadTooLarge);
        }
        let header = match IdtpHeader::from_bytes(bytes) {
            Ok(h) => h,
            Err(e) => {
                return Err(e);
            },
        };
        let payload_size = bytes.len() - IDTP_HEADER_SIZE - IDTP_TRAILER_SIZE;
        let mut payload = [0u8; IDTP_PAYLOAD_MAX_SIZE];
        let mut i: usize = 0;
        while i < payload_size
            invariant
                payload_size == bytes@.len() - IDTP_HEADER_SIZE - IDTP_TRAILER_SIZE,
                payload_size <= IDTP_PAYLOAD_MAX_SIZE,
                i <= payload_size,
                forall|j: int| 0 <= j < i ==> payload@[j] == bytes@[IDTP_HEADER_SIZE + j],
            decreases payload_size - i,
        {
            payload[i] = bytes[IDTP_HEADER_SIZE + i];
            i = i + 1;
        }
        let f = IdtpFrame { header, payload, payload_size };
        assert(f@.payload =~= bytes@.subrange(
            IDTP_HEADER_SIZE as int,
            bytes@.len() - IDTP_TRAILER_SIZE,
        ));
        Ok(f)
    }
}

impl Default for IdtpFrame {
    /// A frame with a fresh header and an empty payload.
    fn default() -> (r: IdtpFrame)
        ensures
            r@.header.is_fresh(),
            r@.payload.len() == 0,
    {
        IdtpFrame::new()
    }
}

} // verus!

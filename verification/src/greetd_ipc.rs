//! greetd IPC: the message types and the wire framing.
//!
//! On the wire a message is `[len: u32 in the machine's byte order]`
//! followed by `len` bytes of JSON, no newline. The JSON text itself is
//! produced and read by the caller; this module frames and checks bytes.

use vstd::prelude::*;

verus! {

/// What the greeter asks greetd.
#[derive(Debug, Clone, PartialEq)]
pub enum Request {
    CreateSession { username: String },
    PostAuthMessageResponse { response: Option<String> },
    StartSession { cmd: Vec<String>, env: Vec<String> },
    CancelSession,
}

/// What greetd answers.
#[derive(Debug, Clone, PartialEq)]
pub enum Response {
    Success,
    AuthMessage { auth_message_type: AuthMessageType, auth_message: String },
    Error { error_type: ErrorType, description: String },
}

#[derive(Debug, Clone, Copy, PartialEq, Eq, Structural)]
pub enum AuthMessageType {
    Visible,
    Secret,
    Info,
    Error,
}

#[derive(Debug, Clone, Copy, PartialEq, Eq, Structural)]
pub enum ErrorType {
    AuthError,
    Error,
}

/// The byte order of the length prefix.
#[derive(Debug, Clone, Copy, PartialEq, Eq, Structural)]
pub enum ByteOrder {
    Little,
    Big,
}

/// A frame longer than this is refused as insane.
pub const MAX_FRAME: usize = 8 * 1024 * 1024;

/// Why a frame could not be read.
#[derive(Debug, Clone, Copy, PartialEq, Eq, Structural)]
pub enum FrameError {
    /// fewer bytes than the header or the announced payload needs
    Truncated,
    /// the announced payload length exceeds the sanity cap
    TooLarge(u32),
    /// a zero-length payload: greetd closed the connection
    Closed,
}

/// The four bytes of `x` in the given order.
pub open spec fn spec_u32_bytes(order: ByteOrder, x: u32) -> Seq<u8> {
    let b0 = (x % 256) as u8;
    let b1 = ((x / 256) % 256) as u8;
    let b2 = ((x / 65536) % 256) as u8;
    let b3 = (x / 16777216) as u8;
    match order {
        ByteOrder::Little => seq![b0, b1, b2, b3],
        ByteOrder::Big => seq![b3, b2, b1, b0],
    }
}

/// The `u32` that four bytes hold in the given order.
pub open spec fn spec_u32_value(order: ByteOrder, b: Seq<u8>) -> u32 {
    match order {
        ByteOrder::Little => (b[0] + 256 * b[1] + 65536 * b[2] + 16777216 * b[3]) as u32,
        ByteOrder::Big => (b[3] + 256 * b[2] + 65536 * b[1] + 16777216 * b[0]) as u32,
    }
}

/// The frame of a payload: its length prefix, then the payload.
pub open spec fn spec_frame(order: ByteOrder, payload: Seq<u8>) -> Seq<u8> {
    spec_u32_bytes(order, payload.len() as u32) + payload
}

/// The outcome of reading one frame from the start of `bytes`: the payload
/// and how many bytes the frame took.
pub open spec fn spec_decode_frame(order: ByteOrder, bytes: Seq<u8>) -> Result<
    (Seq<u8>, int),
    FrameError,
> {
    if bytes.len() < 4 {
        Err(FrameError::Truncated)
    } else {
        let len = spec_u32_value(order, bytes.take(4));
        if len > MAX_FRAME {
            Err(FrameError::TooLarge(len))
        } else if bytes.len() - 4 < len {
            Err(FrameError::Truncated)
        } else if len == 0 {
            Err(FrameError::Closed)
        } else {
            Ok((bytes.subrange(4, 4 + len), 4 + len))
        }
    }
}

/// `u32::to_ne_bytes` of 1: the number one in the machine's byte order.
/// The contract claims only that this is the little- or the big-endian
/// encoding; which one depends on the machine and is left open.
#[verifier::external_body]
fn one_in_native_order() -> (r: [u8; 4])
    ensures
        r@ == seq![1u8, 0u8, 0u8, 0u8] || r@ == seq![0u8, 0u8, 0u8, 1u8],
{
    1u32.to_ne_bytes()
}

/// The byte order in which `one` holds the number one: little-endian
/// when its first byte is 1, big-endian otherwise.
pub open spec fn spec_byte_order_of(one: Seq<u8>) -> ByteOrder {
    if one[0] == 1u8 {
        ByteOrder::Little
    } else {
        ByteOrder::Big
    }
}

/// The byte order that the four bytes of the number one were written in.
pub fn byte_order_of(one: [u8; 4]) -> (r: ByteOrder)
    ensures
        r == spec_byte_order_of(one@),
        one@ == seq![1u8, 0u8, 0u8, 0u8] ==> spec_u32_bytes(r, 1) == one@,
        one@ == seq![0u8, 0u8, 0u8, 1u8] ==> spec_u32_bytes(r, 1) == one@,
{
    if one[0] == 1 {
        ByteOrder::Little
    } else {
        ByteOrder::Big
    }
}

/// The machine's byte order, which greetd's length prefix uses: the order
/// in which the machine stores the number one. Which order that is depends
/// on the machine; whichever it is, the four bytes of 1 in the returned
/// order are the machine's own bytes of 1 (see [`byte_order_of`]).
pub fn native_order() -> (r: ByteOrder)
    ensures
        spec_u32_bytes(r, 1) == seq![1u8, 0u8, 0u8, 0u8] || spec_u32_bytes(r, 1) == seq![
            0u8,
            0u8,
            0u8,
            1u8,
        ],
{
    byte_order_of(one_in_native_order())
}

/// The four bytes of `x` in the given order.
pub fn u32_bytes(order: ByteOrder, x: u32) -> (r: [u8; 4])
    ensures
        r@ == spec_u32_bytes(order, x),
{
    let b0 = (x % 256) as u8;
    let b1 = ((x / 256) % 256) as u8;
    let b2 = ((x / 65536) % 256) as u8;
    let b3 = (x / 16777216) as u8;
    let r = match order {
        ByteOrder::Little => [b0, b1, b2, b3],
        ByteOrder::Big => [b3, b2, b1, b0],
    };
    assert(r@ =~= spec_u32_bytes(order, x));
    r
}

/// The `u32` four bytes hold in the given order.
pub fn u32_value(order: ByteOrder, b: &[u8]) -> (r: u32)
    requires
        b@.len() == 4,
    ensures
        r == spec_u32_value(order, b@),
{
    let (x0, x1, x2, x3) = match order {
        ByteOrder::Little => (b[0] as u32, b[1] as u32, b[2] as u32, b[3] as u32),
        ByteOrder::Big => (b[3] as u32, b[2] as u32, b[1] as u32, b[0] as u32),
    };
    x0 + 256 * x1 + 65536 * x2 + 16777216 * x3
}

/// The greetd frame of a JSON payload: `[len][payload]`.
pub fn encode_frame(order: ByteOrder, payload: &[u8]) -> (r: Vec<u8>)
    requires
        payload@.len() <= u32::MAX,
    ensures
        r@ == spec_frame(order, payload@),
{
    let head = u32_bytes(order, payload.len() as u32);
    let mut frame: Vec<u8> = Vec::new();
    let mut i: usize = 0;
    while i < 4
        invariant
            i <= 4,
            frame@ == head@.take(i as int),
        decreases 4 - i,
    {
        frame.push(head[i]);
        assert(head@.take(i + 1) =~= head@.take(i as int).push(head@[i as int]));
        i += 1;
    }
    let mut j: usize = 0;
    while j < payload.len()
        invariant
            j <= payload@.len(),
            frame@ == head@ + payload@.take(j as int),
        decreases payload@.len() - j,
    {
        frame.push(payload[j]);
        assert(payload@.take(j + 1) =~= payload@.take(j as int).push(payload@[j as int]));
        j += 1;
    }
    assert(head@.take(4) =~= head@);
    assert(payload@.take(j as int) =~= payload@);
    frame
}

/// The payload length a frame header announces, refused above the cap.
pub fn frame_payload_len(order: ByteOrder, header: &[u8]) -> (r: Result<usize, FrameError>)
    requires
        header@.len() == 4,
    ensures
        spec_u32_value(order, header@) > MAX_FRAME ==> r == Err::<usize, FrameError>(
            FrameError::TooLarge(spec_u32_value(order, header@)),
        ),
        spec_u32_value(order, header@) <= MAX_FRAME ==> r == Ok::<usize, FrameError>(
            spec_u32_value(order, header@) as usize,
        ),
{
    let len = u32_value(order, header);
    if len as usize > MAX_FRAME {
        Err(FrameError::TooLarge(len))
    } else {
        Ok(len as usize)
    }
}

/// A payload read after its header: an empty one means greetd closed the
/// connection.
pub fn check_payload(buf: &[u8]) -> (r: Result<(), FrameError>)
    ensures
        r == (if buf@.len() == 0 {
            Err::<(), FrameError>(FrameError::Closed)
        } else {
            Ok::<(), FrameError>(())
        }),
{
    if buf.len() == 0 {
        Err(FrameError::Closed)
    } else {
        Ok(())
    }
}

/// Reads the frame at the start of `bytes`: its payload and its size.
pub fn decode_frame(order: ByteOrder, bytes: &[u8]) -> (r: Result<(Vec<u8>, usize), FrameError>)
    ensures
        match (r, spec_decode_frame(order, bytes@)) {
            (Ok((p, n)), Ok((sp, sn))) => p@ == sp && n == sn,
            (Err(e), Err(se)) => e == se,
            _ => false,
        },
{
    if bytes.len() < 4 {
        return Err(FrameError::Truncated);
    }
    let mut head: Vec<u8> = Vec::new();
    head.push(bytes[0]);
    head.push(bytes[1]);
    head.push(bytes[2]);
    head.push(bytes[3]);
    assert(head@ =~= bytes@.take(4));
    let len = match frame_payload_len(order, head.as_slice()) {
        Ok(n) => n,
        Err(e) => return Err(e),
    };
    if bytes.len() - 4 < len {
        return Err(FrameError::Truncated);
    }
    let mut payload: Vec<u8> = Vec::new();
    let mut i: usize = 0;
    while i < len
        invariant
            i <= len,
            4 + len <= bytes.len(),
            payload@ == bytes@.subrange(4, 4 + i),
        decreases len - i,
    {
        payload.push(bytes[4 + i]);
        assert(bytes@.subrange(4, 4 + i + 1) =~= bytes@.subrange(4, 4 + i).push(bytes@[4 + i]));
        i += 1;
    }
    match check_payload(payload.as_slice()) {
        Err(e) => Err(e),
        Ok(()) => Ok((payload, 4 + len)),
    }
}

/// Byte order of the length prefix round-trips.
pub proof fn lemma_u32_bytes_roundtrip(order: ByteOrder, x: u32)
    ensures
        spec_u32_value(order, spec_u32_bytes(order, x)) == x,
        spec_u32_bytes(order, x).len() == 4,
{
    let b0 = x % 256;
    let b1 = (x / 256) % 256;
    let b2 = (x / 65536) % 256;
    let b3 = x / 16777216;
    assert(b0 + 256 * b1 + 65536 * b2 + 16777216 * b3 == x) by (nonlinear_arith)
        requires
            b0 == x % 256,
            b1 == (x / 256) % 256,
            b2 == (x / 65536) % 256,
            b3 == x / 16777216,
    ;
    assert(b3 < 256) by (nonlinear_arith)
        requires
            b3 == x / 16777216,
            x <= u32::MAX,
    ;
}

/// The reader understands the writer's framing: decoding a frame gives
/// back exactly the payload that was framed, and consumes the whole
/// frame, for every payload within the cap that is not empty.
pub proof fn law_frame_roundtrip(order: ByteOrder, payload: Seq<u8>)
    requires
        0 < payload.len() <= MAX_FRAME,
    ensures
        spec_decode_frame(order, spec_frame(order, payload)) == Ok::<(Seq<u8>, int), FrameError>(
            (payload, 4 + payload.len() as int),
        ),
{
    lemma_u32_bytes_roundtrip(order, payload.len() as u32);
    let f = spec_frame(order, payload);
    assert(f.take(4) =~= spec_u32_bytes(order, payload.len() as u32));
    assert(f.subrange(4, 4 + payload.len() as int) =~= payload);
}

} // verus!

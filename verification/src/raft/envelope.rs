//! The envelope in which a consensus message travels between nodes.
//!
//! A message is serialized by its sender and travels as opaque bytes in a
//! request or a reply that holds nothing else. On the wire the envelope is
//! a message with one field, number 1, of bytes: the key byte of the field,
//! the length of the payload as a varint, and the payload. An empty payload
//! is an empty envelope.

use vstd::prelude::*;
use vstd::slice::{slice_subrange, slice_to_vec};

verus! {

/// The key byte of field 1 with a length-delimited value.
pub const PAYLOAD_KEY: u8 = 0x0a;

/// A request that carries a consensus message.
#[derive(Debug, Clone, PartialEq, Eq, Default)]
pub struct AppendRequest {
    pub value: Vec<u8>,
}

/// A reply that carries the answer to a consensus message.
#[derive(Debug, Clone, PartialEq, Eq, Default)]
pub struct AppendReply {
    pub value: Vec<u8>,
}

/// The varint of `n`: seven bits per byte, least significant first, with
/// the top bit set on every byte but the last.
pub open spec fn varint(n: nat) -> Seq<u8>
    decreases n,
{
    if n < 128 {
        seq![n as u8]
    } else {
        seq![(n % 128 + 128) as u8] + varint(n / 128)
    }
}

/// The number that the varint at `at` stands for, and where it ends; `None`
/// where the bytes end before the varint does.
pub open spec fn parse_varint(b: Seq<u8>, at: int) -> Option<(nat, int)>
    decreases b.len() - at,
{
    if at < 0 || at >= b.len() {
        None
    } else if b[at] < 128 {
        Some((b[at] as nat, at + 1))
    } else {
        match parse_varint(b, at + 1) {
            Some((rest, next)) => Some((((b[at] - 128) + 128 * rest) as nat, next)),
            None => None,
        }
    }
}

/// The bytes of the envelope around `payload`.
pub open spec fn envelope_bytes(payload: Seq<u8>) -> Seq<u8> {
    if payload.len() == 0 {
        Seq::empty()
    } else {
        seq![PAYLOAD_KEY] + varint(payload.len()) + payload
    }
}

/// The payload of an envelope; `None` where the bytes are no envelope: they
/// do not begin with the key of the payload, the length is cut short, or
/// the payload is shorter or longer than its length says.
pub open spec fn parse_envelope(b: Seq<u8>) -> Option<Seq<u8>> {
    if b.len() == 0 {
        Some(Seq::empty())
    } else if b[0] != PAYLOAD_KEY {
        None
    } else {
        match parse_varint(b, 1) {
            Some((n, next)) => if n == b.len() - next {
                Some(b.subrange(next, b.len() as int))
            } else {
                None
            },
            None => None,
        }
    }
}

/// A varint that stands before `tail` and after `head` is read back.
pub proof fn lemma_varint_round_trip(head: Seq<u8>, n: nat, tail: Seq<u8>)
    ensures
        parse_varint(head + varint(n) + tail, head.len() as int) == Some(
            (n, (head.len() + varint(n).len()) as int),
        ),
    decreases n,
{
    let b = head + varint(n) + tail;
    let at = head.len() as int;
    if n < 128 {
        assert(b[at] == n as u8);
    } else {
        let first = (n % 128 + 128) as u8;
        assert(b[at] == first);
        lemma_varint_round_trip(head.push(first), n / 128, tail);
        assert(b =~= head.push(first) + varint(n / 128) + tail);
        assert((first - 128) + 128 * (n / 128) == n);
    }
}

/// The payload of an envelope is read back from its bytes.
pub proof fn lemma_envelope_round_trip(payload: Seq<u8>)
    ensures
        parse_envelope(envelope_bytes(payload)) == Some(payload),
{
    let b = envelope_bytes(payload);
    if payload.len() > 0 {
        lemma_varint_round_trip(seq![PAYLOAD_KEY], payload.len(), payload);
        let next = 1 + varint(payload.len()).len() as int;
        assert(b.subrange(next, b.len() as int) =~= payload);
    }
}

/// Writes the varint of `n` at the end of `buf`.
fn append_varint(buf: &mut Vec<u8>, n: usize)
    ensures
        final(buf)@ == old(buf)@ + varint(n as nat),
{
    let mut left: usize = n;
    while left >= 128
        invariant
            buf@ + varint(left as nat) == old(buf)@ + varint(n as nat),
        decreases left,
    {
        let ghost before = buf@;
        buf.push((left % 128 + 128) as u8);
        proof {
            assert(before + varint(left as nat) =~= before.push((left % 128 + 128) as u8) + varint(
                (left / 128) as nat,
            ));
        }
        left = left / 128;
    }
    let ghost before = buf@;
    buf.push(left as u8);
    assert(before + varint(left as nat) =~= before.push(left as u8));
}

/// The bytes of the envelope around `payload`.
pub fn encode_envelope(payload: &[u8]) -> (bytes: Vec<u8>)
    ensures
        bytes@ == envelope_bytes(payload@),
{
    let mut bytes: Vec<u8> = Vec::new();
    if payload.len() == 0 {
        return bytes;
    }
    bytes.push(PAYLOAD_KEY);
    append_varint(&mut bytes, payload.len());
    bytes.extend_from_slice(payload);
    assert(bytes@ =~= envelope_bytes(payload@));
    bytes
}

/// What the varint at `start` stands for, given that the digits before `at`
/// add up to `sum` and that the digit at `at` counts `power` times.
spec fn continued(b: Seq<u8>, at: int, sum: nat, power: nat) -> Option<(nat, int)> {
    match parse_varint(b, at) {
        Some((rest, next)) => Some((sum + power * rest, next)),
        None => None,
    }
}

proof fn lemma_continue(b: Seq<u8>, at: int, sum: nat, power: nat)
    requires
        0 <= at < b.len(),
        b[at] >= 128,
    ensures
        continued(b, at, sum, power) == continued(
            b,
            at + 1,
            sum + power * (b[at] - 128) as nat,
            power * 128,
        ),
{
    let d = (b[at] - 128) as nat;
    match parse_varint(b, at + 1) {
        Some((rest, next)) => {
            assert(sum + power * (d + 128 * rest) == (sum + power * d) + (power * 128) * rest)
                by (nonlinear_arith);
        },
        None => {},
    }
}

/// The seven bits that a byte of a varint holds.
spec fn digit_of(byte: u8) -> nat {
    if byte < 128 {
        byte as nat
    } else {
        (byte - 128) as nat
    }
}

/// A digit that takes the number above `limit` leaves it there, however the
/// varint goes on.
proof fn lemma_too_big(b: Seq<u8>, at: int, sum: nat, power: nat, limit: nat)
    requires
        0 <= at < b.len(),
        sum + power * digit_of(b[at]) > limit,
    ensures
        match continued(b, at, sum, power) {
            Some((n, next)) => n > limit,
            None => true,
        },
{
    let d = digit_of(b[at]);
    match parse_varint(b, at) {
        Some((rest, next)) => {
            assert(rest >= d);
            assert(power * rest >= power * d) by (nonlinear_arith)
                requires
                    rest >= d,
            ;
        },
        None => {},
    }
}

/// Reads the varint at `at`, as far as it is not above `limit`: the number
/// it stands for and where it ends.
fn read_varint(bytes: &[u8], at: usize, limit: usize) -> (r: Option<(usize, usize)>)
    requires
        at <= bytes@.len(),
    ensures
        match parse_varint(bytes@, at as int) {
            Some((n, next)) => if n <= limit {
                r == Some((n as usize, next as usize))
            } else {
                r is None
            },
            None => r is None,
        },
{
    let len: usize = bytes.len();
    let mut i: usize = at;
    let mut sum: usize = 0;
    // What the digit at `i` counts, as long as that is not above the limit.
    let mut scale: usize = 1;
    let mut over: bool = limit < 1;
    let ghost mut power: nat = 1;
    while i < len
        invariant
            len == bytes@.len(),
            at <= i <= len,
            sum <= limit,
            !over ==> scale == power && scale <= limit,
            over ==> power > limit,
            parse_varint(bytes@, at as int) == continued(bytes@, i as int, sum as nat, power),
        decreases len - i,
    {
        let byte: u8 = bytes[i];
        let last: bool = byte < 128;
        let digit: usize = if last {
            byte as usize
        } else {
            (byte - 128) as usize
        };
        assert(digit == digit_of(bytes@[i as int]));
        let room: usize = limit - sum;
        let fits: bool = digit == 0 || (!over && scale <= room / digit);
        if !fits {
            proof {
                if over {
                    assert(power * digit as nat >= power) by (nonlinear_arith)
                        requires
                            digit >= 1,
                    ;
                } else {
                    assert(scale * digit > room) by (nonlinear_arith)
                        requires
                            scale > room as int / digit as int,
                            digit > 0,
                    ;
                    assert(power * digit as nat == scale * digit) by (nonlinear_arith)
                        requires
                            scale == power,
                    ;
                }
                lemma_too_big(bytes@, i as int, sum as nat, power, limit as nat);
            }
            return None;
        }
        let total: usize = if digit == 0 {
            sum
        } else {
            assert(scale * digit <= room) by (nonlinear_arith)
                requires
                    scale <= room as int / digit as int,
                    digit > 0,
            ;
            sum + scale * digit
        };
        proof {
            assert(total == sum + power * digit as nat) by (nonlinear_arith)
                requires
                    digit == 0 || scale == power,
                    total == (if digit == 0 {
                        sum as int
                    } else {
                        sum + scale * digit
                    }),
            ;
        }
        if last {
            return Some((total, i + 1));
        }
        proof {
            lemma_continue(bytes@, i as int, sum as nat, power);
        }
        if !over {
            if scale > limit / 128 {
                assert(scale * 128 > limit) by (nonlinear_arith)
                    requires
                        scale > limit as int / 128,
                ;
                over = true;
            } else {
                assert(scale * 128 <= limit) by (nonlinear_arith)
                    requires
                        scale <= limit as int / 128,
                ;
                scale = scale * 128;
            }
        } else {
            assert(power * 128 > limit) by (nonlinear_arith)
                requires
                    power > limit,
            ;
        }
        proof {
            power = power * 128;
        }
        sum = total;
        i += 1;
    }
    None
}

/// The payload of an envelope, if the bytes are one.
pub fn decode_envelope(bytes: &[u8]) -> (r: Option<Vec<u8>>)
    ensures
        r is Some == parse_envelope(bytes@) is Some,
        r is Some ==> Some(r->0@) == parse_envelope(bytes@),
{
    let len: usize = bytes.len();
    if len == 0 {
        return Some(Vec::new());
    }
    if bytes[0] != PAYLOAD_KEY {
        return None;
    }
    match read_varint(bytes, 1, len) {
        Some((n, next)) => {
            proof {
                lemma_varint_ends_inside(bytes@, 1);
            }
            if n == len - next {
                Some(slice_to_vec(slice_subrange(bytes, next, len)))
            } else {
                None
            }
        },
        None => {
            proof {
                lemma_varint_ends_inside(bytes@, 1);
            }
            None
        },
    }
}

/// A varint ends inside the bytes it was read from.
proof fn lemma_varint_ends_inside(b: Seq<u8>, at: int)
    requires
        0 <= at,
    ensures
        match parse_varint(b, at) {
            Some((n, next)) => at < next <= b.len(),
            None => true,
        },
    decreases b.len() - at,
{
    if at < b.len() && b[at] >= 128 {
        lemma_varint_ends_inside(b, at + 1);
    }
}

impl AppendRequest {
    /// The request as it travels.
    pub fn encode(&self) -> (bytes: Vec<u8>)
        ensures
            bytes@ == envelope_bytes(self.value@),
    {
        encode_envelope(self.value.as_slice())
    }

    /// The request that the bytes hold, if they hold one.
    pub fn decode(bytes: &[u8]) -> (r: Option<AppendRequest>)
        ensures
            r is Some == parse_envelope(bytes@) is Some,
            r is Some ==> Some(r->0.value@) == parse_envelope(bytes@),
    {
        match decode_envelope(bytes) {
            Some(value) => Some(AppendRequest { value }),
            None => None,
        }
    }
}

impl AppendReply {
    /// The reply as it travels.
    pub fn encode(&self) -> (bytes: Vec<u8>)
        ensures
            bytes@ == envelope_bytes(self.value@),
    {
        encode_envelope(self.value.as_slice())
    }

    /// The reply that the bytes hold, if they hold one.
    pub fn decode(bytes: &[u8]) -> (r: Option<AppendReply>)
        ensures
            r is Some == parse_envelope(bytes@) is Some,
            r is Some ==> Some(r->0.value@) == parse_envelope(bytes@),
    {
        match decode_envelope(bytes) {
            Some(value) => Some(AppendReply { value }),
            None => None,
        }
    }
}

} // verus!

//! The smallest pieces of the wire format: integers of variable length and
//! scalars of four bytes, as `bincode` writes them under its standard
//! configuration.

use vstd::prelude::*;
use vstd::slice::slice_subrange;

verus! {

/// The error type of `bincode`'s decoder. Nothing is known of a value of it
/// but that decoding failed.
#[verifier::external_type_specification]
#[verifier::external_body]
pub struct ExDecodeError(bincode::error::DecodeError);

/// Why bytes could not be read as a value.
#[derive(Clone, Copy, Debug, PartialEq, Eq, Structural)]
pub enum WireError {
    /// The bytes end before the value does.
    Truncated,
    /// A byte has a value that the format does not allow in its place.
    Malformed,
}

/// What a field of a record is written as.
#[derive(Clone, Copy, Debug, PartialEq, Eq, Structural)]
pub enum Kind {
    /// An unsigned integer of at most 16 bits, of variable length.
    U16,
    /// An unsigned integer of at most 32 bits, of variable length.
    U32,
    /// An unsigned integer of at most 64 bits, of variable length.
    U64,
    /// A scalar: the four bytes of its bit pattern.
    Real,
}

/// 256 to the power `n`.
pub open spec fn span(n: nat) -> nat
    decreases n,
{
    if n == 0 {
        1
    } else {
        256 * span((n - 1) as nat)
    }
}

/// The `n` low bytes of `v`, least significant first.
pub open spec fn le_bytes(v: nat, n: nat) -> Seq<u8>
    decreases n,
{
    if n == 0 {
        Seq::empty()
    } else {
        seq![(v % 256) as u8] + le_bytes(v / 256, (n - 1) as nat)
    }
}

/// The number that `s` spells, least significant byte first.
pub open spec fn le_value(s: Seq<u8>) -> nat
    decreases s.len(),
{
    if s.len() == 0 {
        0
    } else {
        s[0] as nat + 256 * le_value(s.drop_first())
    }
}

/// How many bytes follow a marker byte: 2, 4, 8 or 16 for the four markers,
/// and 0 for a byte that is no marker.
pub open spec fn payload(marker: u8) -> nat {
    if marker == 251 {
        2
    } else if marker == 252 {
        4
    } else if marker == 253 {
        8
    } else if marker == 254 {
        16
    } else {
        0
    }
}

/// An unsigned integer of at most 64 bits in variable length: up to 250 the
/// byte itself; beyond that a marker byte and the value in the least of 2, 4
/// and 8 bytes that holds it, least significant first.
pub open spec fn varint(v: nat) -> Seq<u8> {
    if v <= 250 {
        seq![v as u8]
    } else if v <= 0xFFFF {
        seq![251u8] + le_bytes(v, 2)
    } else if v <= 0xFFFF_FFFF {
        seq![252u8] + le_bytes(v, 4)
    } else {
        seq![253u8] + le_bytes(v, 8)
    }
}

/// Reads from the front of `s` an integer of variable length for a type of
/// `width` bytes: the value and how many bytes it took. A marker for more
/// bytes than the type has is refused, whatever the value; a value written
/// longer than it needs to be is accepted.
pub open spec fn varint_parse(s: Seq<u8>, width: nat) -> Result<(u64, nat), WireError> {
    if s.len() == 0 {
        Err(WireError::Truncated)
    } else if s[0] <= 250 {
        Ok((s[0] as u64, 1))
    } else if payload(s[0]) == 0 || payload(s[0]) > width {
        Err(WireError::Malformed)
    } else if s.len() < 1 + payload(s[0]) {
        Err(WireError::Truncated)
    } else {
        Ok((le_value(s.subrange(1, 1 + payload(s[0]) as int)) as u64, 1 + payload(s[0])))
    }
}

impl Kind {
    /// The largest value that a field of this kind holds.
    pub open spec fn limit(self) -> nat {
        match self {
            Kind::U16 => 0xFFFF,
            Kind::U32 => 0xFFFF_FFFF,
            Kind::U64 => 0xFFFF_FFFF_FFFF_FFFF,
            Kind::Real => 0xFFFF_FFFF,
        }
    }

    /// `v` is a value of this kind.
    pub open spec fn holds(self, v: u64) -> bool {
        v <= self.limit()
    }

    /// The bytes of the value `v` of this kind.
    pub open spec fn wire(self, v: u64) -> Seq<u8> {
        match self {
            Kind::Real => le_bytes(v as nat, 4),
            _ => varint(v as nat),
        }
    }

    /// Reads a value of this kind from the front of `s`: the value and how
    /// many bytes it took.
    pub open spec fn parse(self, s: Seq<u8>) -> Result<(u64, nat), WireError> {
        match self {
            Kind::U16 => varint_parse(s, 2),
            Kind::U32 => varint_parse(s, 4),
            Kind::U64 => varint_parse(s, 8),
            Kind::Real => if s.len() < 4 {
                Err(WireError::Truncated)
            } else {
                Ok((le_value(s.subrange(0, 4)) as u64, 4))
            },
        }
    }
}

/// The powers of 256 that the widths of the integer types come to.
pub proof fn lemma_span_values()
    ensures
        span(1) == 0x100,
        span(2) == 0x1_0000,
        span(4) == 0x1_0000_0000,
        span(8) == 0x1_0000_0000_0000_0000,
{
    reveal_with_fuel(span, 9);
}

/// A number spelled in `n` bytes takes `n` bytes.
pub proof fn lemma_le_bytes_len(v: nat, n: nat)
    ensures
        le_bytes(v, n).len() == n,
    decreases n,
{
    if n > 0 {
        lemma_le_bytes_len(v / 256, (n - 1) as nat);
    }
}

/// A number spelled in `n` bytes is below 256 to the `n`.
pub proof fn lemma_le_value_bound(s: Seq<u8>)
    ensures
        le_value(s) < span(s.len()),
    decreases s.len(),
{
    if s.len() > 0 {
        lemma_le_value_bound(s.drop_first());
    }
}

/// Spelling a number below 256 to the `n` in `n` bytes and reading the bytes
/// gives the number back.
pub proof fn lemma_le_round_trip(v: nat, n: nat)
    requires
        v < span(n),
    ensures
        le_value(le_bytes(v, n)) == v,
    decreases n,
{
    if n > 0 {
        let rest = le_bytes(v / 256, (n - 1) as nat);
        let all = le_bytes(v, n);
        lemma_le_round_trip(v / 256, (n - 1) as nat);
        assert(all.drop_first() =~= rest);
    }
}

/// A value of a kind, written and followed by anything, is read back as
/// itself, and the reading takes exactly the bytes that were written, of
/// which there is at least one.
pub proof fn lemma_field_round_trip(kind: Kind, v: u64, rest: Seq<u8>)
    requires
        kind.holds(v),
    ensures
        kind.wire(v).len() >= 1,
        kind.parse(kind.wire(v) + rest) == Ok::<(u64, nat), WireError>((v, kind.wire(v).len())),
{
    lemma_span_values();
    let w = kind.wire(v);
    let s = w + rest;
    if kind == Kind::Real {
        lemma_le_bytes_len(v as nat, 4);
        lemma_le_round_trip(v as nat, 4);
        assert(s.subrange(0, 4) =~= w);
    } else if v > 250 {
        let n: nat = if v <= 0xFFFF {
            2
        } else if v <= 0xFFFF_FFFF {
            4
        } else {
            8
        };
        lemma_le_bytes_len(v as nat, n);
        lemma_le_round_trip(v as nat, n);
        assert(s.subrange(1, 1 + n as int) =~= le_bytes(v as nat, n));
    }
}

/// Whatever is read as a value of a kind is a value of that kind, and took
/// at least one and at most all of the bytes.
pub proof fn lemma_parse_holds(kind: Kind, s: Seq<u8>)
    ensures
        kind.parse(s) matches Ok((v, n)) ==> kind.holds(v) && 1 <= n <= s.len(),
{
    lemma_span_values();
    match kind.parse(s) {
        Ok((v, n)) => {
            if kind == Kind::Real {
                lemma_le_value_bound(s.subrange(0, 4));
            } else if s[0] > 250 {
                lemma_le_value_bound(s.subrange(1, 1 + payload(s[0]) as int));
            }
        },
        Err(_) => {},
    }
}

/// Calls `bincode::encode_to_vec` on a `u16` under `bincode::config::standard()`.
/// The outside encoder writes the value as an integer of variable length into
/// a growing vector, which cannot fail.
#[verifier::external_body]
fn encode_u16(v: u16) -> (bytes: Vec<u8>)
    ensures
        bytes@ == varint(v as nat),
{
    match bincode::encode_to_vec(v, bincode::config::standard()) {
        Ok(bytes) => bytes,
        Err(_) => Vec::new(),
    }
}

/// Calls `bincode::encode_to_vec` on a `u32` under `bincode::config::standard()`.
/// The outside encoder writes the value as an integer of variable length into
/// a growing vector, which cannot fail.
#[verifier::external_body]
fn encode_u32(v: u32) -> (bytes: Vec<u8>)
    ensures
        bytes@ == varint(v as nat),
{
    match bincode::encode_to_vec(v, bincode::config::standard()) {
        Ok(bytes) => bytes,
        Err(_) => Vec::new(),
    }
}

/// Calls `bincode::encode_to_vec` on a `u64` under `bincode::config::standard()`.
/// The outside encoder writes the value as an integer of variable length into
/// a growing vector, which cannot fail.
#[verifier::external_body]
fn encode_u64(v: u64) -> (bytes: Vec<u8>)
    ensures
        bytes@ == varint(v as nat),
{
    match bincode::encode_to_vec(v, bincode::config::standard()) {
        Ok(bytes) => bytes,
        Err(_) => Vec::new(),
    }
}

/// Calls `bincode::decode_from_slice` for a `u16` under
/// `bincode::config::standard()`. The outside decoder reads an integer of
/// variable length from the front of the slice and reports how many bytes it
/// took; it fails on an empty slice, on a marker for more than two bytes, and
/// where the slice ends before the value does.
#[verifier::external_body]
fn decode_u16(bytes: &[u8]) -> (r: Result<(u16, usize), bincode::error::DecodeError>)
    ensures
        match r {
            Ok((v, n)) => varint_parse(bytes@, 2) == Ok::<(u64, nat), WireError>((v as u64, n as nat)),
            Err(_) => varint_parse(bytes@, 2) is Err,
        },
{
    bincode::decode_from_slice(bytes, bincode::config::standard())
}

/// Calls `bincode::decode_from_slice` for a `u32` under
/// `bincode::config::standard()`. The outside decoder reads an integer of
/// variable length from the front of the slice and reports how many bytes it
/// took; it fails on an empty slice, on a marker for more than four bytes, and
/// where the slice ends before the value does.
#[verifier::external_body]
fn decode_u32(bytes: &[u8]) -> (r: Result<(u32, usize), bincode::error::DecodeError>)
    ensures
        match r {
            Ok((v, n)) => varint_parse(bytes@, 4) == Ok::<(u64, nat), WireError>((v as u64, n as nat)),
            Err(_) => varint_parse(bytes@, 4) is Err,
        },
{
    bincode::decode_from_slice(bytes, bincode::config::standard())
}

/// Calls `bincode::decode_from_slice` for a `u64` under
/// `bincode::config::standard()`. The outside decoder reads an integer of
/// variable length from the front of the slice and reports how many bytes it
/// took; it fails on an empty slice, on a marker for more than eight bytes, and
/// where the slice ends before the value does.
#[verifier::external_body]
fn decode_u64(bytes: &[u8]) -> (r: Result<(u64, usize), bincode::error::DecodeError>)
    ensures
        match r {
            Ok((v, n)) => varint_parse(bytes@, 8) == Ok::<(u64, nat), WireError>((v, n as nat)),
            Err(_) => varint_parse(bytes@, 8) is Err,
        },
{
    bincode::decode_from_slice(bytes, bincode::config::standard())
}

/// Why no integer of variable length for a type of `width` bytes can be read
/// at `at`, given that none can.
fn failure(bytes: &[u8], at: usize, width: u8) -> (e: WireError)
    requires
        at <= bytes@.len(),
        varint_parse(bytes@.skip(at as int), width as nat) is Err,
    ensures
        varint_parse(bytes@.skip(at as int), width as nat) == Err::<(u64, nat), WireError>(e),
{
    if at >= bytes.len() {
        return WireError::Truncated;
    }
    let marker: u8 = bytes[at];
    let follows: u8 = if marker == 251 {
        2
    } else if marker == 252 {
        4
    } else if marker == 253 {
        8
    } else if marker == 254 {
        16
    } else {
        0
    };
    if follows == 0 || follows > width {
        WireError::Malformed
    } else {
        WireError::Truncated
    }
}

/// Appends the bytes of the value `v` of kind `kind`.
pub fn put(out: &mut Vec<u8>, kind: Kind, v: u64)
    requires
        kind.holds(v),
    ensures
        final(out)@ == old(out)@ + kind.wire(v),
{
    match kind {
        Kind::U16 => {
            let mut bytes = encode_u16(v as u16);
            out.append(&mut bytes);
        },
        Kind::U32 => {
            let mut bytes = encode_u32(v as u32);
            out.append(&mut bytes);
        },
        Kind::U64 => {
            let mut bytes = encode_u64(v);
            out.append(&mut bytes);
        },
        Kind::Real => {
            let b1: u64 = v / 256;
            let b2: u64 = b1 / 256;
            let b3: u64 = b2 / 256;
            out.push((v % 256) as u8);
            out.push((b1 % 256) as u8);
            out.push((b2 % 256) as u8);
            out.push((b3 % 256) as u8);
            proof {
                reveal_with_fuel(le_bytes, 5);
            }
        },
    }
}

/// Reads a value of kind `kind` at `at`: the value and where the next one
/// starts.
pub fn take(bytes: &[u8], at: usize, kind: Kind) -> (r: Result<(u64, usize), WireError>)
    requires
        at <= bytes@.len(),
    ensures
        match r {
            Ok((v, next)) => {
                &&& at < next <= bytes@.len()
                &&& kind.holds(v)
                &&& kind.parse(bytes@.skip(at as int)) == Ok::<(u64, nat), WireError>(
                    (v, (next - at) as nat),
                )
            },
            Err(e) => kind.parse(bytes@.skip(at as int)) == Err::<(u64, nat), WireError>(e),
        },
{
    let rest = slice_subrange(bytes, at, bytes.len());
    match kind {
        Kind::U16 => match decode_u16(rest) {
            Ok((v, n)) => Ok((v as u64, at + n)),
            Err(_) => Err(failure(bytes, at, 2)),
        },
        Kind::U32 => match decode_u32(rest) {
            Ok((v, n)) => Ok((v as u64, at + n)),
            Err(_) => Err(failure(bytes, at, 4)),
        },
        Kind::U64 => match decode_u64(rest) {
            Ok((v, n)) => Ok((v, at + n)),
            Err(_) => Err(failure(bytes, at, 8)),
        },
        Kind::Real => {
            if bytes.len() - at < 4 {
                return Err(WireError::Truncated);
            }
            let b0: u64 = bytes[at] as u64;
            let b1: u64 = bytes[at + 1] as u64;
            let b2: u64 = bytes[at + 2] as u64;
            let b3: u64 = bytes[at + 3] as u64;
            let v: u64 = b0 + 256 * (b1 + 256 * (b2 + 256 * b3));
            proof {
                reveal_with_fuel(le_value, 5);
            }
            Ok((v, at + 4))
        },
    }
}

} // verus!

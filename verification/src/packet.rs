//! The packet header that publishers and the serial link exchange, with its
//! protobuf encoding: five `uint32` fields numbered 1 to 5.
use vstd::prelude::*;
use crate::text::{parse_u32, parsed_u32};
use crate::wire::{
    decode_key, encode_uint32_field, lemma_read_key_len, lemma_read_varint_len, merge_uint32_field,
    read_key, read_varint, skip_field, skip_len, recursion_limit, lemma_skip_len_within, varint, lemma_read_key_of_varint_key,
    lemma_read_varint_of_varint,
};

verus! {

/// The header of a packet.
#[derive(Clone, Copy, Debug, PartialEq, Eq, Structural)]
pub struct PacketHeader {
    pub id: u32,
    pub length: u32,
    pub checksum: u32,
    pub version: u32,
    pub flags: u32,
}

/// Why bytes did not decode as a packet header.
#[derive(Clone, Copy, Debug, PartialEq, Eq, Structural)]
pub enum PacketDecodeError {
    /// A field key was malformed: no varint, too large, a wire type above 5 or field number 0.
    InvalidKey,
    /// A known field (number 1 to 5) did not carry a varint.
    InvalidField { tag: u32 },
    /// A field of another number could not be passed over.
    InvalidUnknownField { tag: u32 },
}

/// The header whose fields are all zero, the protobuf default.
pub open spec fn zero_header() -> PacketHeader {
    PacketHeader { id: 0, length: 0, checksum: 0, version: 0, flags: 0 }
}

/// The bytes of field `tag` holding `value`: nothing where the value is zero
/// (the default is not written), else its key and its value as varints.
pub open spec fn field_bytes(tag: nat, value: u32) -> Seq<u8> {
    if value == 0 {
        Seq::empty()
    } else {
        varint(tag * 8) + varint(value as nat)
    }
}

/// The protobuf encoding of a header: its non-zero fields in field order.
pub open spec fn header_bytes(p: PacketHeader) -> Seq<u8> {
    field_bytes(1, p.id) + field_bytes(2, p.length) + field_bytes(3, p.checksum) + field_bytes(
        4,
        p.version,
    ) + field_bytes(5, p.flags)
}

/// `p` with field number `tag` (1 to 5) set to `value`; other numbers leave it as it is.
pub open spec fn with_field(p: PacketHeader, tag: u32, value: u32) -> PacketHeader {
    if tag == 1 {
        PacketHeader { id: value, ..p }
    } else if tag == 2 {
        PacketHeader { length: value, ..p }
    } else if tag == 3 {
        PacketHeader { checksum: value, ..p }
    } else if tag == 4 {
        PacketHeader { version: value, ..p }
    } else if tag == 5 {
        PacketHeader { flags: value, ..p }
    } else {
        p
    }
}

/// Decoding the fields in `input` on top of `acc`: key by key, a known field
/// takes the low 32 bits of its varint (a later one replacing an earlier one),
/// a field of another number is passed over; the first malformed field ends
/// it with its error.
pub open spec fn decode_fields(input: Seq<u8>, acc: PacketHeader) -> Result<
    PacketHeader,
    PacketDecodeError,
>
    decreases input.len(),
{
    if input.len() == 0 {
        Ok(acc)
    } else {
        match read_key(input) {
            None => Err(PacketDecodeError::InvalidKey),
            Some((tag, wire, n)) => {
                proof {
                    lemma_read_key_len(input);
                }
                let rest = input.skip(n as int);
                if 1 <= tag <= 5 {
                    if wire != 0 {
                        Err(PacketDecodeError::InvalidField { tag })
                    } else {
                        match read_varint(rest) {
                            None => Err(PacketDecodeError::InvalidField { tag }),
                            Some((v, m)) => {
                                proof {
                                    lemma_read_varint_len(rest);
                                }
                                decode_fields(
                                    rest.skip(m as int),
                                    with_field(acc, tag, (v % 0x1_0000_0000) as u32),
                                )
                            },
                        }
                    }
                } else {
                    match skip_len(wire, tag, rest, recursion_limit()) {
                        Some(m) => {
                            proof {
                                lemma_skip_len_within(wire, tag, rest, recursion_limit());
                            }
                            decode_fields(rest.skip(m as int), acc)
                        },
                        None => Err(PacketDecodeError::InvalidUnknownField { tag }),
                    }
                }
            },
        }
    }
}

/// The header that `input` decodes to, or why it does not.
pub open spec fn decode_header(input: Seq<u8>) -> Result<PacketHeader, PacketDecodeError> {
    decode_fields(input, zero_header())
}

/// Appends field `tag` holding `value` to `buf`, leaving a zero value out.
fn append_field(tag: u32, value: u32, buf: &mut Vec<u8>)
    requires
        1 <= tag <= 5,
    ensures
        final(buf)@ == old(buf)@ + field_bytes(tag as nat, value),
{
    if value != 0 {
        encode_uint32_field(tag, value, buf);
        assert(buf@ =~= old(buf)@ + field_bytes(tag as nat, value));
    } else {
        assert(buf@ =~= old(buf)@ + field_bytes(tag as nat, value));
    }
}

impl PacketHeader {
    /// A header with the given fields.
    pub fn new(id: u32, length: u32, checksum: u32, version: u32, flags: u32) -> (res: Self)
        ensures
            res == (PacketHeader { id, length, checksum, version, flags }),
    {
        PacketHeader { id, length, checksum, version, flags }
    }

    /// The header that the publisher with id `publisher_id` (decimal text)
    /// sends: its id, length 1222, the other fields zero. `None` where the id
    /// is not a decimal `u32`.
    pub fn for_publisher(publisher_id: &str) -> (res: Option<Self>)
        ensures
            match parsed_u32(publisher_id@) {
                Some(id) => res == Some(
                    PacketHeader { id, length: 1222, checksum: 0, version: 0, flags: 0 },
                ),
                None => res is None,
            },
    {
        match parse_u32(publisher_id) {
            Some(id) => Some(PacketHeader { id, length: 1222, checksum: 0, version: 0, flags: 0 }),
            None => None,
        }
    }

    /// Sets field number `tag` (1 to 5) to `value`.
    fn set_field(&mut self, tag: u32, value: u32)
        requires
            1 <= tag <= 5,
        ensures
            *final(self) == with_field(*old(self), tag, value),
    {
        if tag == 1 {
            self.id = value;
        } else if tag == 2 {
            self.length = value;
        } else if tag == 3 {
            self.checksum = value;
        } else if tag == 4 {
            self.version = value;
        } else {
            self.flags = value;
        }
    }

    /// Appends the protobuf encoding of the header to `buf`.
    pub fn encode_into(&self, buf: &mut Vec<u8>)
        ensures
            final(buf)@ == old(buf)@ + header_bytes(*self),
    {
        let ghost start = buf@;
        append_field(1, self.id, buf);
        let ghost s1 = buf@;
        append_field(2, self.length, buf);
        let ghost s2 = buf@;
        append_field(3, self.checksum, buf);
        let ghost s3 = buf@;
        append_field(4, self.version, buf);
        let ghost s4 = buf@;
        append_field(5, self.flags, buf);
        proof {
            let f1 = field_bytes(1, self.id);
            let f2 = field_bytes(2, self.length);
            let f3 = field_bytes(3, self.checksum);
            let f4 = field_bytes(4, self.version);
            let f5 = field_bytes(5, self.flags);
            assert(s2 =~= start + (f1 + f2));
            assert(s3 =~= start + (f1 + f2 + f3));
            assert(s4 =~= start + (f1 + f2 + f3 + f4));
            assert(buf@ =~= start + (f1 + f2 + f3 + f4 + f5));
        }
    }

    /// The protobuf encoding of the header, in a new buffer.
    pub fn encode_to_vec(&self) -> (res: Vec<u8>)
        ensures
            res@ == header_bytes(*self),
    {
        let mut buf: Vec<u8> = Vec::new();
        self.encode_into(&mut buf);
        assert(buf@ =~= header_bytes(*self));
        buf
    }

    /// Decodes a header from `bytes`: the fields it holds, zero where absent.
    pub fn decode(bytes: &[u8]) -> (res: Result<PacketHeader, PacketDecodeError>)
        ensures
            res == decode_header(bytes@),
    {
        let mut buf: &[u8] = bytes;
        let mut acc = PacketHeader { id: 0, length: 0, checksum: 0, version: 0, flags: 0 };
        while buf.len() > 0
            invariant
                decode_header(bytes@) == decode_fields(buf@, acc),
            decreases buf@.len(),
        {
            proof {
                lemma_read_key_len(buf@);
            }
            match decode_key(&mut buf) {
                None => {
                    return Err(PacketDecodeError::InvalidKey);
                },
                Some((tag, wire)) => {
                    let ghost rest = buf@;
                    if 1 <= tag && tag <= 5 {
                        let mut value: u32 = 0;
                        proof {
                            lemma_read_varint_len(rest);
                        }
                        if !merge_uint32_field(wire, &mut value, &mut buf) {
                            return Err(PacketDecodeError::InvalidField { tag });
                        }
                        acc.set_field(tag, value);
                    } else {
                        proof {
                            lemma_skip_len_within(wire, tag, rest, recursion_limit());
                        }
                        if !skip_field(wire, tag, &mut buf) {
                            return Err(PacketDecodeError::InvalidUnknownField { tag });
                        }
                    }
                },
            }
        }
        Ok(acc)
    }
}

/// A field with a non-zero value, followed by anything, decodes to that value
/// set on top of what came before.
proof fn lemma_decode_field(tag: u32, value: u32, rest: Seq<u8>, acc: PacketHeader)
    requires
        1 <= tag <= 5,
        value != 0,
    ensures
        decode_fields(field_bytes(tag as nat, value) + rest, acc) == decode_fields(
            rest,
            with_field(acc, tag, value),
        ),
{
    let key = varint(tag as nat * 8);
    let val = varint(value as nat);
    let input = field_bytes(tag as nat, value) + rest;
    assert(input =~= key + (val + rest));
    lemma_read_key_of_varint_key(tag, val + rest);
    lemma_read_varint_of_varint(value as u64, rest);
    assert(input.skip(key.len() as int) =~= val + rest);
    assert((val + rest).skip(val.len() as int) =~= rest);
    assert(value as u64 % 0x1_0000_0000 == value);
}

/// A field of `acc` that the encoding leaves out because it is zero decodes
/// to what `acc` already holds.
proof fn lemma_decode_field_any(tag: u32, value: u32, rest: Seq<u8>, acc: PacketHeader)
    requires
        1 <= tag <= 5,
        value == 0 ==> with_field(acc, tag, value) == acc,
    ensures
        decode_fields(field_bytes(tag as nat, value) + rest, acc) == decode_fields(
            rest,
            with_field(acc, tag, value),
        ),
{
    if value != 0 {
        lemma_decode_field(tag, value, rest, acc);
    } else {
        assert(field_bytes(tag as nat, value) + rest =~= rest);
    }
}

/// Decoding what `encode_to_vec` writes gives back the header it encoded.
pub proof fn lemma_decode_encode(p: PacketHeader)
    ensures
        decode_header(header_bytes(p)) == Ok::<PacketHeader, PacketDecodeError>(p),
{
    let f1 = field_bytes(1, p.id);
    let f2 = field_bytes(2, p.length);
    let f3 = field_bytes(3, p.checksum);
    let f4 = field_bytes(4, p.version);
    let f5 = field_bytes(5, p.flags);
    let e = Seq::<u8>::empty();
    assert(header_bytes(p) =~= f1 + (f2 + (f3 + (f4 + (f5 + e)))));
    let a0 = zero_header();
    let a1 = with_field(a0, 1, p.id);
    let a2 = with_field(a1, 2, p.length);
    let a3 = with_field(a2, 3, p.checksum);
    let a4 = with_field(a3, 4, p.version);
    let a5 = with_field(a4, 5, p.flags);
    lemma_decode_field_any(1, p.id, f2 + (f3 + (f4 + (f5 + e))), a0);
    lemma_decode_field_any(2, p.length, f3 + (f4 + (f5 + e)), a1);
    lemma_decode_field_any(3, p.checksum, f4 + (f5 + e), a2);
    lemma_decode_field_any(4, p.version, f5 + e, a3);
    lemma_decode_field_any(5, p.flags, e, a4);
    assert(a5 == p);
}

/// A single field, keyed by its protobuf number (1 id, 2 length, 3 checksum,
/// 4 version, 5 flags) and holding a non-zero varint, decodes to the zero
/// header with that field set to the value.
pub proof fn lemma_decode_single_field(tag: u32, value: u32)
    requires
        1 <= tag <= 5,
        value != 0,
    ensures
        decode_header(varint(tag as nat * 8) + varint(value as nat)) == Ok::<
            PacketHeader,
            PacketDecodeError,
        >(
            PacketHeader {
                id: if tag == 1 {
                    value
                } else {
                    0
                },
                length: if tag == 2 {
                    value
                } else {
                    0
                },
                checksum: if tag == 3 {
                    value
                } else {
                    0
                },
                version: if tag == 4 {
                    value
                } else {
                    0
                },
                flags: if tag == 5 {
                    value
                } else {
                    0
                },
            },
        ),
{
    let e = Seq::<u8>::empty();
    assert(varint(tag as nat * 8) + varint(value as nat) =~= field_bytes(tag as nat, value) + e);
    lemma_decode_field(tag, value, e, zero_header());
}

/// The encoding of a header writes each non-zero field under its own protobuf
/// number (1 id, 2 length, 3 checksum, 4 version, 5 flags), whatever its
/// value, as that key followed by the value, in field order; zero fields are
/// left out.
pub proof fn lemma_encoding_by_field_number(p: PacketHeader)
    ensures
        header_bytes(p) == (if p.id == 0 {
            Seq::<u8>::empty()
        } else {
            varint(8) + varint(p.id as nat)
        }) + (if p.length == 0 {
            Seq::<u8>::empty()
        } else {
            varint(16) + varint(p.length as nat)
        }) + (if p.checksum == 0 {
            Seq::<u8>::empty()
        } else {
            varint(24) + varint(p.checksum as nat)
        }) + (if p.version == 0 {
            Seq::<u8>::empty()
        } else {
            varint(32) + varint(p.version as nat)
        }) + (if p.flags == 0 {
            Seq::<u8>::empty()
        } else {
            varint(40) + varint(p.flags as nat)
        }),
{
}

} // verus!

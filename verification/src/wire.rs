//! The protobuf wire primitives that packets are built from: varints and
//! field keys, written and read by prost.
use vstd::prelude::*;

verus! {

/// The largest field number that protobuf allows (2^29 - 1).
pub const MAX_FIELD_TAG: u32 = 536870911;

/// The base-128 (LEB128) encoding of `v`: seven bits per byte, least
/// significant group first, the high bit set on every byte but the last.
pub open spec fn varint(v: nat) -> Seq<u8>
    decreases v,
{
    if v < 128 {
        seq![v as u8]
    } else {
        seq![((v % 128) + 128) as u8] + varint(v / 128)
    }
}

/// Reading a base-128 varint from the front of `s` with at most `budget`
/// bytes left to read: the value and the number of bytes taken, or `None`
/// where `s` ends first, where the budget runs out, or where the last
/// permitted byte would carry bits beyond the value's range.
pub open spec fn leb128(s: Seq<u8>, budget: nat) -> Option<(int, nat)>
    decreases budget,
{
    if budget == 0 || s.len() == 0 {
        None
    } else if s[0] < 128 {
        if budget == 1 && s[0] >= 2 {
            None
        } else {
            Some((s[0] as int, 1nat))
        }
    } else {
        match leb128(s.drop_first(), (budget - 1) as nat) {
            Some((v, n)) => Some(((s[0] - 128) + 128 * v, n + 1)),
            None => None,
        }
    }
}

/// The exclusive upper bound of a value read by `leb128` with `budget` bytes.
pub open spec fn leb128_bound(budget: nat) -> int
    decreases budget,
{
    if budget <= 1 {
        2
    } else {
        128 * leb128_bound((budget - 1) as nat)
    }
}

/// A protobuf varint read from the front of `s`: at most ten bytes, whose
/// value fits in 64 bits.
pub open spec fn read_varint(s: Seq<u8>) -> Option<(u64, nat)> {
    match leb128(s, 10) {
        Some((v, n)) => Some((v as u64, n)),
        None => None,
    }
}

/// A protobuf field key read from the front of `s`: the field number, the
/// wire type and the number of bytes taken. The key must fit in 32 bits,
/// name a wire type from 0 to 5 and a field number of at least 1.
pub open spec fn read_key(s: Seq<u8>) -> Option<(u32, u64, nat)> {
    match read_varint(s) {
        Some((k, n)) => if k > u32::MAX || k % 8 > 5 || k / 8 < 1 {
            None
        } else {
            Some(((k / 8) as u32, k % 8, n))
        },
        None => None,
    }
}

/// The depth of nested groups that prost passes over before it gives up.
pub open spec fn recursion_limit() -> nat {
    100
}

/// The number of bytes that prost's `skip_field` passes over for a field of
/// wire type `wire` and number `tag` at the front of `input`, with `depth`
/// levels of nesting left, or `None` where it reports an error: a varint
/// field takes its varint, a 64-bit field eight bytes, a 32-bit field four, a
/// length-delimited field its length varint and that many bytes, a group its
/// fields up to the end key of the same number; an end key alone is an error.
pub open spec fn skip_len(wire: u64, tag: u32, input: Seq<u8>, depth: nat) -> Option<nat>
    decreases depth, input.len(), 1nat,
{
    if depth == 0 {
        None
    } else if wire == 0 {
        match read_varint(input) {
            Some((_, n)) => Some(n),
            None => None,
        }
    } else if wire == 1 {
        if input.len() >= 8 {
            Some(8)
        } else {
            None
        }
    } else if wire == 2 {
        match read_varint(input) {
            Some((len, n)) => if len <= input.len() - n {
                Some((n + len) as nat)
            } else {
                None
            },
            None => None,
        }
    } else if wire == 3 {
        group_len(tag, input, (depth - 1) as nat)
    } else if wire == 5 {
        if input.len() >= 4 {
            Some(4)
        } else {
            None
        }
    } else {
        None
    }
}

/// The number of bytes of a group's fields and its end key, at the front of
/// `input`, for the group of number `tag`, its fields skipped with `depth`
/// levels of nesting left.
pub open spec fn group_len(tag: u32, input: Seq<u8>, depth: nat) -> Option<nat>
    decreases depth, input.len(), 0nat,
{
    match read_key(input) {
        None => None,
        Some((t, w, n)) => {
            proof {
                lemma_read_key_len(input);
            }
            let rest = input.skip(n as int);
            if w == 4 {
                if t == tag {
                    Some(n)
                } else {
                    None
                }
            } else {
                match skip_len(w, t, rest, depth) {
                    Some(m) if m <= rest.len() => match group_len(
                        tag,
                        rest.skip(m as int),
                        depth,
                    ) {
                        Some(k) => Some(n + m + k),
                        None => None,
                    },
                    _ => None,
                }
            }
        },
    }
}

/// What `skip_len` passes over lies within its input.
pub proof fn lemma_skip_len_within(wire: u64, tag: u32, input: Seq<u8>, depth: nat)
    ensures
        skip_len(wire, tag, input, depth) matches Some(m) ==> m <= input.len(),
    decreases depth, input.len(), 1nat,
{
    lemma_read_varint_len(input);
    if depth > 0 && wire == 3 {
        lemma_group_len_within(tag, input, (depth - 1) as nat);
    }
}

/// What `group_len` passes over lies within its input.
pub proof fn lemma_group_len_within(tag: u32, input: Seq<u8>, depth: nat)
    ensures
        group_len(tag, input, depth) matches Some(m) ==> m <= input.len(),
    decreases depth, input.len(), 0nat,
{
    lemma_read_key_len(input);
    if let Some((t, w, n)) = read_key(input) {
        let rest = input.skip(n as int);
        if w != 4 {
            if let Some(m) = skip_len(w, t, rest, depth) {
                if m <= rest.len() {
                    lemma_group_len_within(tag, rest.skip(m as int), depth);
                }
            }
        }
    }
}

/// A varint read takes between one and `budget` bytes of the input, and
/// gives a value below `leb128_bound(budget)`.
pub proof fn lemma_leb128_bounds(s: Seq<u8>, budget: nat)
    ensures
        leb128(s, budget) matches Some((v, n)) ==> {
            &&& 1 <= n <= budget
            &&& n <= s.len()
            &&& 0 <= v < leb128_bound(budget)
        },
    decreases budget,
{
    if budget > 1 {
        lemma_leb128_bound_positive((budget - 1) as nat);
        if s.len() > 0 && s[0] >= 128 {
            lemma_leb128_bounds(s.drop_first(), (budget - 1) as nat);
            if let Some((v, n)) = leb128(s.drop_first(), (budget - 1) as nat) {
                let b = leb128_bound((budget - 1) as nat);
                let h = s[0] - 128;
                assert(0 <= h < 128);
                assert(h + 128 * v < 128 * b) by (nonlinear_arith)
                    requires
                        0 <= h < 128,
                        0 <= v < b,
                ;
            }
        }
    }
}

/// Every bound of `leb128` is at least two.
pub proof fn lemma_leb128_bound_positive(budget: nat)
    ensures
        leb128_bound(budget) >= 2,
    decreases budget,
{
    if budget > 1 {
        lemma_leb128_bound_positive((budget - 1) as nat);
    }
}

/// Ten varint bytes hold exactly the 64-bit values.
pub proof fn lemma_leb128_bound_ten()
    ensures
        leb128_bound(10) == 0x1_0000_0000_0000_0000,
{
    reveal_with_fuel(leb128_bound, 10);
}

/// A varint read of `read_varint` takes between one and ten bytes.
pub proof fn lemma_read_varint_len(s: Seq<u8>)
    ensures
        read_varint(s) matches Some((v, n)) ==> 1 <= n <= 10 && n <= s.len(),
{
    lemma_leb128_bounds(s, 10);
}

/// A key read of `read_key` takes between one and ten bytes.
pub proof fn lemma_read_key_len(s: Seq<u8>)
    ensures
        read_key(s) matches Some((t, w, n)) ==> 1 <= n <= 10 && n <= s.len(),
{
    lemma_leb128_bounds(s, 10);
}

/// Reading back what `varint` wrote gives the value and the encoding's length,
/// whatever follows it.
pub proof fn lemma_leb128_of_varint(v: nat, rest: Seq<u8>, budget: nat)
    requires
        budget >= 1,
        v < leb128_bound(budget),
    ensures
        leb128(varint(v) + rest, budget) == Some((v as int, varint(v).len())),
    decreases v,
{
    let s = varint(v) + rest;
    if v < 128 {
        assert(s[0] == v as u8);
        if budget == 1 {
            assert(leb128_bound(1) == 2);
        }
    } else {
        assert(budget > 1);
        assert(s[0] == ((v % 128) + 128) as u8);
        assert(s.drop_first() =~= varint(v / 128) + rest);
        lemma_leb128_of_varint(v / 128, rest, (budget - 1) as nat);
    }
}

/// Reading back a 64-bit value that `varint` wrote gives it back.
pub proof fn lemma_read_varint_of_varint(v: u64, rest: Seq<u8>)
    ensures
        read_varint(varint(v as nat) + rest) == Some((v, varint(v as nat).len())),
{
    lemma_leb128_bound_ten();
    lemma_leb128_of_varint(v as nat, rest, 10);
}

/// Reading back the key of a varint field with number `tag` gives the field
/// number, wire type 0 and the key's length.
pub proof fn lemma_read_key_of_varint_key(tag: u32, rest: Seq<u8>)
    requires
        1 <= tag <= MAX_FIELD_TAG,
    ensures
        read_key(varint(tag as nat * 8) + rest) == Some((tag, 0u64, varint(tag as nat * 8).len())),
{
    let k: u64 = (tag * 8) as u64;
    lemma_read_varint_of_varint(k, rest);
    assert(k / 8 == tag);
    assert(k % 8 == 0);
}

/// Appends the field with number `tag` and value `value` to `buf`, as prost
/// writes a `uint32` field: the key varint `tag * 8` (wire type 0), then the
/// value as a varint.
#[verifier::external_body]
pub(crate) fn encode_uint32_field(tag: u32, value: u32, buf: &mut Vec<u8>)
    requires
        1 <= tag <= MAX_FIELD_TAG,
    ensures
        final(buf)@ == old(buf)@ + varint(tag as nat * 8) + varint(value as nat),
{
    prost::encoding::uint32::encode(tag, &value, buf)
}

/// Reads a field key from the front of `buf` with prost's `decode_key`: where
/// `read_key` gives one, the field number and wire type, with the key's bytes
/// taken off `buf`; `None` otherwise. What is left of `buf` after an error is
/// not stated.
#[verifier::external_body]
pub(crate) fn decode_key(buf: &mut &[u8]) -> (res: Option<(u32, u64)>)
    ensures
        match read_key(old(buf)@) {
            Some((tag, wire, n)) => res == Some((tag, wire)) && final(buf)@ == old(buf)@.skip(
                n as int,
            ),
            None => res is None,
        },
{
    match prost::encoding::decode_key(buf) {
        Ok((tag, wire_type)) => Some((tag, wire_type as u64)),
        Err(_) => None,
    }
}

/// Reads a `uint32` field's value from the front of `buf` into `value` with
/// prost's `uint32::merge`: it succeeds where the wire type is 0 and a varint
/// can be read, keeps the varint's low 32 bits and takes its bytes off `buf`.
/// What is left of `buf` and `value` after an error is not stated.
#[verifier::external_body]
pub(crate) fn merge_uint32_field(wire: u64, value: &mut u32, buf: &mut &[u8]) -> (ok: bool)
    ensures
        ok == (wire == 0 && read_varint(old(buf)@) is Some),
        ok ==> *final(value) == (read_varint(old(buf)@).unwrap().0 % 0x1_0000_0000) as u32
            && final(buf)@ == old(buf)@.skip(read_varint(old(buf)@).unwrap().1 as int),
{
    let wire_type = match prost::encoding::WireType::try_from(wire) {
        Ok(w) => w,
        Err(_) => return false,
    };
    prost::encoding::uint32::merge(wire_type, value, buf, prost::encoding::DecodeContext::default()).is_ok()
}

/// Passes over a field that the packet does not know, with prost's
/// `skip_field` and a fresh decode context (a hundred levels of nesting): it
/// succeeds where `skip_len` gives a length, and takes that many bytes off
/// `buf`. What is left of `buf` after an error is not stated.
#[verifier::external_body]
pub(crate) fn skip_field(wire: u64, tag: u32, buf: &mut &[u8]) -> (ok: bool)
    requires
        wire <= 5,
    ensures
        ok == skip_len(wire, tag, old(buf)@, recursion_limit()) is Some,
        ok ==> final(buf)@ == old(buf)@.skip(
            skip_len(wire, tag, old(buf)@, recursion_limit()).unwrap() as int,
        ),
{
    let wire_type = match prost::encoding::WireType::try_from(wire) {
        Ok(w) => w,
        Err(_) => return false,
    };
    prost::encoding::skip_field(wire_type, tag, buf, prost::encoding::DecodeContext::default()).is_ok()
}

} // verus!

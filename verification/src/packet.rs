//! The packets of the LX-16A bus protocol.
//!
//! A packet is `0x55 0x55 id len cmd params.. checksum`, where `len` is the
//! number of parameter bytes plus 3 and `checksum` is the bitwise complement
//! of the byte sum (mod 256) of everything from `id` to the last parameter.
use crate::error::Lx16aError;
use vstd::prelude::*;
use vstd::slice::{slice_subrange, slice_to_vec};

verus! {

/// The byte that a packet starts with, twice.
pub const HEADER_BYTE: u8 = 0x55;

/// The number of bytes of a packet besides its parameters.
pub const FRAME_LEN: usize = 6;

/// The most parameter bytes that a packet can carry in the 32-byte frame buffer.
pub const MAX_PARAMS_LEN: usize = 26;

/// The most parameter bytes that the length byte of a packet can count.
pub const MAX_COUNTED_PARAMS_LEN: usize = 252;

/// The sum of the bytes of `s`, as a natural number.
pub open spec fn byte_sum(s: Seq<u8>) -> nat
    decreases s.len(),
{
    if s.len() == 0 {
        0
    } else {
        byte_sum(s.drop_last()) + s.last() as nat
    }
}

/// The protocol checksum of `s`: the complement of its byte sum mod 256.
pub open spec fn spec_checksum(s: Seq<u8>) -> u8 {
    (255 - byte_sum(s) % 256) as u8
}

/// The part of a packet that its checksum covers: id, length, command, parameters.
pub open spec fn packet_body(id: u8, cmd: u8, params: Seq<u8>) -> Seq<u8> {
    seq![id, (3 + params.len()) as u8, cmd] + params
}

/// The packet that carries command `cmd` with `params` to or from servo `id`.
pub open spec fn packet(id: u8, cmd: u8, params: Seq<u8>) -> Seq<u8> {
    let body = packet_body(id, cmd, params);
    seq![HEADER_BYTE, HEADER_BYTE] + body + seq![spec_checksum(body)]
}

/// A result that carries parameter bytes, with the bytes taken by their view.
pub open spec fn params_result(res: Result<Vec<u8>, Lx16aError>) -> Result<Seq<u8>, Lx16aError> {
    match res {
        Ok(p) => Ok(p@),
        Err(e) => Err(e),
    }
}

/// What checking a response of `params_len` parameter bytes for command `cmd`
/// from servo `id` yields: a response of the wrong size is a bad response;
/// then the checksum is checked, then the header, id, length and command;
/// on success, the parameter bytes.
pub open spec fn spec_check_response(rx: Seq<u8>, id: u8, cmd: u8, params_len: nat) -> Result<
    Seq<u8>,
    Lx16aError,
> {
    if rx.len() != params_len + FRAME_LEN {
        Err(Lx16aError::BadResponse)
    } else if spec_checksum(rx.subrange(2, rx.len() as int)) != 0 {
        Err(Lx16aError::Checksum)
    } else if rx[0] != HEADER_BYTE || rx[1] != HEADER_BYTE || rx[2] != id || rx[3] != 3
        + params_len || rx[4] != cmd {
        Err(Lx16aError::BadResponse)
    } else {
        Ok(rx.subrange(5, 5 + params_len as int))
    }
}

proof fn lemma_byte_sum_push(s: Seq<u8>, b: u8)
    ensures
        byte_sum(s.push(b)) == byte_sum(s) + b,
{
    assert(s.push(b).drop_last() =~= s);
}

/// With `r` the byte sum mod 256 and `c` a byte, the sum is 255 mod 256
/// exactly when `c` is the complement of `r`.
proof fn lemma_complement_byte(total: nat, c: u8)
    ensures
        (total + c) % 256 == 255 <==> c == 255 - total % 256,
{
    let r = total % 256;
    let q = total / 256;
    vstd::arithmetic::div_mod::lemma_fundamental_div_mod(total as int, 256);
    vstd::arithmetic::div_mod::lemma_mod_multiples_vanish(q as int, r + c, 256);
    assert(total + c == 256 * q + (r + c));
    if r + c >= 256 {
        vstd::arithmetic::div_mod::lemma_mod_multiples_vanish(1, r + c - 256, 256);
        vstd::arithmetic::div_mod::lemma_small_mod((r + c - 256) as nat, 256);
    } else {
        vstd::arithmetic::div_mod::lemma_small_mod((r + c) as nat, 256);
    }
}

/// A byte sequence followed by its own checksum has checksum 0.
pub proof fn lemma_checksum_of_checked(s: Seq<u8>)
    ensures
        spec_checksum(s.push(spec_checksum(s))) == 0,
{
    let c = spec_checksum(s);
    lemma_byte_sum_push(s, c);
    lemma_complement_byte(byte_sum(s), c);
}

/// A byte sequence followed by one more byte has checksum 0 only when that
/// byte is the checksum of the sequence.
pub proof fn lemma_zero_checksum_only_if_checked(s: Seq<u8>, c: u8)
    requires
        spec_checksum(s.push(c)) == 0,
    ensures
        c == spec_checksum(s),
{
    lemma_byte_sum_push(s, c);
    lemma_complement_byte(byte_sum(s), c);
}

/// A packet formed for command `cmd` and servo `id` passes the response check
/// for that command and servo, which gives back its parameters.
pub proof fn lemma_formed_packet_accepted(id: u8, cmd: u8, params: Seq<u8>)
    requires
        params.len() <= MAX_COUNTED_PARAMS_LEN,
    ensures
        spec_check_response(packet(id, cmd, params), id, cmd, params.len()) == Ok::<
            Seq<u8>,
            Lx16aError,
        >(params),
{
    let body = packet_body(id, cmd, params);
    let p = packet(id, cmd, params);
    assert(p.subrange(2, p.len() as int) =~= body.push(spec_checksum(body)));
    lemma_checksum_of_checked(body);
    assert(p.subrange(5, 5 + params.len() as int) =~= params);
}

/// The responses that pass the check are exactly the packets formed for that
/// command and servo: checking `rx` for `params_len` parameter bytes gives
/// `params` if and only if `params` has `params_len` bytes and `rx` is the
/// packet that carries `params`.
pub proof fn lemma_accepted_iff_packet(
    rx: Seq<u8>,
    id: u8,
    cmd: u8,
    params_len: nat,
    params: Seq<u8>,
)
    requires
        params_len <= MAX_COUNTED_PARAMS_LEN,
    ensures
        spec_check_response(rx, id, cmd, params_len) == Ok::<Seq<u8>, Lx16aError>(params) <==> (
        params.len() == params_len && rx == packet(id, cmd, params)),
{
    if spec_check_response(rx, id, cmd, params_len) == Ok::<Seq<u8>, Lx16aError>(params) {
        let body = packet_body(id, cmd, params);
        let covered = rx.subrange(2, rx.len() as int);
        assert(covered =~= rx.subrange(2, 5 + params_len as int).push(rx.last()));
        assert(rx.subrange(2, 5 + params_len as int) =~= body);
        lemma_zero_checksum_only_if_checked(body, rx.last());
        assert(rx =~= packet(id, cmd, params));
    }
    if params.len() == params_len && rx == packet(id, cmd, params) {
        lemma_formed_packet_accepted(id, cmd, params);
    }
}

/// The protocol checksum of `msg`: the byte sum mod 256, complemented.
pub fn checksum(msg: &[u8]) -> (sum: u8)
    ensures
        sum == spec_checksum(msg@),
{
    let mut acc: u8 = 0;
    let mut i: usize = 0;
    while i < msg.len()
        invariant
            i <= msg@.len(),
            acc == byte_sum(msg@.subrange(0, i as int)) % 256,
        decreases msg@.len() - i,
    {
        let b = msg[i];
        proof {
            assert(msg@.subrange(0, i + 1) =~= msg@.subrange(0, i as int).push(b));
            lemma_byte_sum_push(msg@.subrange(0, i as int), b);
            let total = byte_sum(msg@.subrange(0, i as int));
            assert((acc + b) % 256 == (total + b) % 256) by (nonlinear_arith)
                requires
                    acc == total % 256,
            {
                vstd::arithmetic::div_mod::lemma_add_mod_noop(total as int, b as int, 256);
            }
        }
        acc = acc.wrapping_add(b);
        i = i + 1;
    }
    assert(msg@.subrange(0, msg@.len() as int) =~= msg@);
    assert(acc ^ 0xFF == 255 - acc) by (bit_vector);
    acc ^ 0xFF
}

/// Writes the packet that carries command `cmd` with `params` to servo `id`
/// into the start of `tx_data`, and returns its length; the rest of `tx_data`
/// is left as it was.
pub fn form_packet(tx_data: &mut [u8], id: u8, cmd: u8, params: &[u8]) -> (len: usize)
    requires
        params@.len() <= 252,
        params@.len() + FRAME_LEN <= old(tx_data)@.len(),
    ensures
        len == params@.len() + FRAME_LEN,
        final(tx_data)@.len() == old(tx_data)@.len(),
        final(tx_data)@.subrange(0, len as int) == packet(id, cmd, params@),
        final(tx_data)@.subrange(len as int, final(tx_data)@.len() as int) == old(
            tx_data,
        )@.subrange(len as int, old(tx_data)@.len() as int),
{
    let len_field: u8 = 3 + params.len() as u8;
    tx_data[0] = HEADER_BYTE;
    tx_data[1] = HEADER_BYTE;
    tx_data[2] = id;
    tx_data[3] = len_field;
    tx_data[4] = cmd;
    let mut len: usize = 5;
    let mut j: usize = 0;
    while j < params.len()
        invariant
            params@.len() + FRAME_LEN <= old(tx_data)@.len(),
            tx_data@.len() == old(tx_data)@.len(),
            j <= params@.len(),
            len == 5 + j,
            tx_data@.subrange(0, len as int) == seq![HEADER_BYTE, HEADER_BYTE, id, len_field, cmd]
                + params@.subrange(0, j as int),
            tx_data@.subrange(len as int, tx_data@.len() as int) == old(tx_data)@.subrange(
                len as int,
                old(tx_data)@.len() as int,
            ),
        decreases params@.len() - j,
    {
        let ghost before = tx_data@;
        tx_data[len] = params[j];
        proof {
            assert forall|k: int| len + 1 <= k < before.len() implies before[k] == old(tx_data)@[k] by {
                assert(before.subrange(len as int, before.len() as int)[k - len] == before[k]);
            }
            assert(tx_data@.subrange(0, len + 1) =~= before.subrange(0, len as int).push(params@[j as int]));
            assert(params@.subrange(0, j + 1) =~= params@.subrange(0, j as int).push(params@[j as int]));
            assert(tx_data@.subrange(len + 1, tx_data@.len() as int) =~= before.subrange(
                len + 1,
                before.len() as int,
            ));
        }
        len = len + 1;
        j = j + 1;
    }
    assert(params@.subrange(0, params@.len() as int) =~= params@);
    let ghost before = tx_data@;
    let sum = checksum(slice_subrange(tx_data, 2, len));
    proof {
        assert forall|k: int| 0 <= k < len implies before[k] == (seq![HEADER_BYTE, HEADER_BYTE, id, len_field, cmd] + params@)[k] by {
            assert(before.subrange(0, len as int)[k] == before[k]);
        }
        assert forall|k: int| len + 1 <= k < before.len() implies before[k] == old(tx_data)@[k] by {
            assert(before.subrange(len as int, before.len() as int)[k - len] == before[k]);
        }
        assert(before.subrange(2, len as int) =~= packet_body(id, cmd, params@));
    }
    tx_data[len] = sum;
    proof {
        assert(tx_data@.subrange(0, len + 1) =~= before.subrange(0, len as int).push(sum));
        assert(tx_data@.subrange(len + 1, tx_data@.len() as int) =~= before.subrange(
            len + 1,
            before.len() as int,
        ));
        assert(packet(id, cmd, params@) =~= seq![HEADER_BYTE, HEADER_BYTE, id, len_field, cmd]
            + params@ + seq![sum]);
    }
    len + 1
}

/// Checks a response packet `rx` of `params_len` parameter bytes for command
/// `cmd` from servo `id`, and returns its parameter bytes: the error
/// `BadResponse` when `rx` does not have the size of such a packet, else
/// `Checksum` when the checksum does not match, else `BadResponse` when the
/// header, id, length or command is wrong.
pub fn check_response(rx: &[u8], id: u8, cmd: u8, params_len: usize) -> (res: Result<
    Vec<u8>,
    Lx16aError,
>)
    requires
        params_len <= MAX_COUNTED_PARAMS_LEN,
    ensures
        params_result(res) == spec_check_response(rx@, id, cmd, params_len as nat),
{
    let resp_len = params_len + FRAME_LEN;
    if rx.len() != resp_len {
        Err(Lx16aError::BadResponse)
    } else if checksum(slice_subrange(rx, 2, resp_len)) != 0 {
        Err(Lx16aError::Checksum)
    } else if rx[0] != HEADER_BYTE || rx[1] != HEADER_BYTE || rx[2] != id || rx[3] != 3
        + params_len as u8 || rx[4] != cmd {
        Err(Lx16aError::BadResponse)
    } else {
        Ok(slice_to_vec(slice_subrange(rx, 5, 5 + params_len)))
    }
}

} // verus!

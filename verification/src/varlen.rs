//! The variable-length integer of the fixed header: seven bits of the value
//! per byte, least significant group first, the high bit of a byte set when
//! another byte follows.

use vstd::prelude::*;
use bytes::BytesMut;
use crate::buffer::buf_bytes;
use crate::buffer::put_slice;
use crate::buffer::put_u8;
use crate::types::DecodeError;
use crate::types::MAX_VARIABLE_LENGTH;

verus! {

/// The bytes that stand for `n`.
///
/// Up to 268 435 455 this is the protocol's encoding, one to four bytes
/// long. A larger number does not fit in four bytes; of its fourth group
/// only the low eight bits are kept.
pub open spec fn var_len_bytes(n: nat) -> Seq<u8> {
    if n <= 127 {
        seq![n as u8]
    } else if n <= 16383 {
        seq![(n % 128 + 128) as u8, (n / 128) as u8]
    } else if n <= 2097151 {
        seq![(n % 128 + 128) as u8, (n / 128 % 128 + 128) as u8, (n / 16384) as u8]
    } else {
        seq![
            (n % 128 + 128) as u8,
            (n / 128 % 128 + 128) as u8,
            (n / 16384 % 128 + 128) as u8,
            (n / 2097152 % 256) as u8,
        ]
    }
}

/// What the start of `s` says as a variable-length integer: the value and
/// the number of bytes it took; `Ok(None)` while the integer is not
/// complete; an error once four bytes all announce a successor.
pub open spec fn var_len_parse(s: Seq<u8>) -> Result<Option<(nat, nat)>, DecodeError> {
    if s.len() >= 1 && s[0] < 128 {
        Ok(Some((s[0] as nat, 1)))
    } else if s.len() >= 2 && s[1] < 128 {
        Ok(Some(((s[0] - 128 + 128 * s[1]) as nat, 2)))
    } else if s.len() >= 3 && s[2] < 128 {
        Ok(Some(((s[0] - 128 + 128 * (s[1] - 128) + 16384 * s[2]) as nat, 3)))
    } else if s.len() >= 4 && s[3] < 128 {
        Ok(
            Some(
                (
                    (s[0] - 128 + 128 * (s[1] - 128) + 16384 * (s[2] - 128) + 2097152
                        * s[3]) as nat,
                    4,
                ),
            ),
        )
    } else if s.len() >= 4 {
        Err(DecodeError::MalformedPacket)
    } else {
        Ok(None)
    }
}

/// Appends the variable-length encoding of `size` to `dst`.
pub fn write_variable_length(size: usize, dst: &mut BytesMut)
    ensures
        buf_bytes(*final(dst)) == buf_bytes(*old(dst)) + var_len_bytes(size as nat),
{
    if size <= 127 {
        put_u8(dst, size as u8);
        assert(buf_bytes(*dst) =~= buf_bytes(*old(dst)) + var_len_bytes(size as nat));
    } else if size <= 16383 {
        let group: [u8; 2] = [(size % 128 + 128) as u8, (size / 128) as u8];
        put_slice(dst, group.as_slice());
        assert(group@ =~= var_len_bytes(size as nat));
    } else if size <= 2_097_151 {
        let group: [u8; 3] = [
            (size % 128 + 128) as u8,
            (size / 128 % 128 + 128) as u8,
            (size / 16384) as u8,
        ];
        put_slice(dst, group.as_slice());
        assert(group@ =~= var_len_bytes(size as nat));
    } else {
        let group: [u8; 4] = [
            (size % 128 + 128) as u8,
            (size / 128 % 128 + 128) as u8,
            (size / 16384 % 128 + 128) as u8,
            (size / 2097152 % 256) as u8,
        ];
        put_slice(dst, group.as_slice());
        assert(group@ =~= var_len_bytes(size as nat));
    }
}

/// Reads a variable-length integer from the start of `src`.
pub fn decode_variable_length(src: &[u8]) -> (r: Result<Option<(usize, usize)>, DecodeError>)
    ensures
        match var_len_parse(src@) {
            Ok(Some((n, used))) => r == Ok::<_, DecodeError>(Some((n as usize, used as usize)))
                && n <= MAX_VARIABLE_LENGTH && 1 <= used <= 4 && used <= src@.len(),
            Ok(None) => r == Ok::<Option<(usize, usize)>, DecodeError>(None),
            Err(e) => r == Err::<Option<(usize, usize)>, _>(e),
        },
{
    let len: usize = src.len();
    if len >= 1 && src[0] < 128 {
        Ok(Some((src[0] as usize, 1)))
    } else if len >= 2 && src[1] < 128 {
        Ok(Some(((src[0] - 128) as usize + 128 * (src[1] as usize), 2)))
    } else if len >= 3 && src[2] < 128 {
        let low: usize = (src[0] - 128) as usize + 128 * ((src[1] - 128) as usize);
        Ok(Some((low + 16384 * (src[2] as usize), 3)))
    } else if len >= 4 && src[3] < 128 {
        let low: usize = (src[0] - 128) as usize + 128 * ((src[1] - 128) as usize);
        let mid: usize = 16384 * ((src[2] - 128) as usize);
        Ok(Some((low + mid + 2097152 * (src[3] as usize), 4)))
    } else if len >= 4 {
        Err(DecodeError::MalformedPacket)
    } else {
        Ok(None)
    }
}

/// The encoding is as long as the size class of the value says.
pub proof fn lemma_var_len_size(n: nat)
    ensures
        n <= 127 ==> var_len_bytes(n).len() == 1,
        127 < n <= 16383 ==> var_len_bytes(n).len() == 2,
        16383 < n <= 2097151 ==> var_len_bytes(n).len() == 3,
        2097151 < n ==> var_len_bytes(n).len() == 4,
{
}

/// Reading back what was written gives the value and the number of bytes
/// written, whatever follows them.
pub proof fn lemma_var_len_round_trip(n: nat, rest: Seq<u8>)
    requires
        n <= MAX_VARIABLE_LENGTH,
    ensures
        var_len_parse(var_len_bytes(n) + rest) == Ok::<_, DecodeError>(
            Some((n, var_len_bytes(n).len())),
        ),
{
    let s = var_len_bytes(n) + rest;
    if n <= 127 {
        assert(s[0] == n as u8);
    } else if n <= 16383 {
        assert(s[0] == (n % 128 + 128) as u8);
        assert(s[1] == (n / 128) as u8);
    } else if n <= 2097151 {
        assert(s[0] == (n % 128 + 128) as u8);
        assert(s[1] == (n / 128 % 128 + 128) as u8);
        assert(s[2] == (n / 16384) as u8);
    } else {
        assert(s[0] == (n % 128 + 128) as u8);
        assert(s[1] == (n / 128 % 128 + 128) as u8);
        assert(s[2] == (n / 16384 % 128 + 128) as u8);
        assert(s[3] == (n / 2097152 % 256) as u8);
    }
}

} // verus!

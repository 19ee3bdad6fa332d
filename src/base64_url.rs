//! URL-safe base64 without padding, written into a caller's buffer.
use vstd::prelude::*;

verus! {

/// The character for a six-bit value: `A-Z`, `a-z`, `0-9`, `-`, `_`.
pub open spec fn alphabet_of(v: int) -> u8 {
    if v < 26 {
        (65 + v) as u8
    } else if v < 52 {
        (97 + v - 26) as u8
    } else if v < 62 {
        (48 + v - 52) as u8
    } else if v == 62 {
        45u8
    } else {
        95u8
    }
}

/// Number of characters that encode `n` bytes: four per full group of three, and
/// one more than the bytes left over.
pub open spec fn encoded_len(n: int) -> int {
    if n % 3 == 0 {
        4 * (n / 3)
    } else {
        4 * (n / 3) + n % 3 + 1
    }
}

/// Byte `i` of `s`, or zero past its end.
pub open spec fn byte_or_zero(s: Seq<u8>, i: int) -> int {
    if 0 <= i < s.len() {
        s[i] as int
    } else {
        0
    }
}

/// The 24-bit value of group `g`: bytes `3g`, `3g + 1`, `3g + 2`, zero past the end.
pub open spec fn group_val(s: Seq<u8>, g: int) -> int {
    byte_or_zero(s, 3 * g) * 65536 + byte_or_zero(s, 3 * g + 1) * 256 + byte_or_zero(s, 3 * g + 2)
}

/// Six-bit value `p` (from the high end) of the 24-bit value `v`.
pub open spec fn pick(v: int, p: int) -> int {
    if p == 0 {
        v / 262144 % 64
    } else if p == 1 {
        v / 4096 % 64
    } else if p == 2 {
        v / 64 % 64
    } else {
        v % 64
    }
}

/// The six-bit value behind output character `j` of the encoding of `s`.
pub open spec fn sextet_of(s: Seq<u8>, j: int) -> int {
    pick(group_val(s, j / 4), j % 4)
}

/// Output character `j` of the encoding of `s`.
pub open spec fn encoded_at(s: Seq<u8>, j: int) -> u8 {
    alphabet_of(sextet_of(s, j))
}

fn alphabet(v: u32) -> (c: u8)
    requires
        v < 64,
    ensures
        c == alphabet_of(v as int),
{
    if v < 26 {
        (65 + v) as u8
    } else if v < 52 {
        (97 + v - 26) as u8
    } else if v < 62 {
        (48 + v - 52) as u8
    } else if v == 62 {
        45
    } else {
        95
    }
}

proof fn lemma_sextets(v: u32)
    requires
        v < 0x100_0000,
    ensures
        (v >> 18u32) & 0x3Fu32 == v / 262144 % 64,
        (v >> 12u32) & 0x3Fu32 == v / 4096 % 64,
        (v >> 6u32) & 0x3Fu32 == v / 64 % 64,
        v & 0x3Fu32 == v % 64,
{
    assert((v >> 18u32) & 0x3Fu32 == v / 262144 % 64) by (bit_vector);
    assert((v >> 12u32) & 0x3Fu32 == v / 4096 % 64) by (bit_vector);
    assert((v >> 6u32) & 0x3Fu32 == v / 64 % 64) by (bit_vector);
    assert(v & 0x3Fu32 == v % 64) by (bit_vector);
}

proof fn lemma_pack(b0: u32, b1: u32, b2: u32)
    requires
        b0 < 256,
        b1 < 256,
        b2 < 256,
    ensures
        (b0 << 16u32) | (b1 << 8u32) | b2 == b0 * 65536 + b1 * 256 + b2,
        (b0 << 16u32) | (b1 << 8u32) | b2 < 0x100_0000,
{
    assert((b0 << 16u32) | (b1 << 8u32) | b2 == b0 * 65536 + b1 * 256 + b2) by (bit_vector)
        requires b0 < 256u32, b1 < 256u32, b2 < 256u32;
}

/// Writes the first `count` characters for the 24-bit group value `v` at `di`.
fn put_group(dst: &mut [u8], di: usize, v: u32, count: usize)
    requires
        v < 0x100_0000,
        2 <= count <= 4,
        di + count <= old(dst)@.len(),
    ensures
        final(dst)@.len() == old(dst)@.len(),
        forall|k: int| 0 <= k < count ==> #[trigger] final(dst)@[di + k] == alphabet_of(pick(v as int, k)),
        forall|j: int|
            0 <= j < old(dst)@.len() && !(di <= j < di + count) ==> #[trigger] final(dst)@[j]
                == old(dst)@[j],
{
    proof {
        lemma_sextets(v);
    }
    dst[di] = alphabet(v >> 18 & 0x3F);
    dst[di + 1] = alphabet(v >> 12 & 0x3F);
    if count >= 3 {
        dst[di + 2] = alphabet(v >> 6 & 0x3F);
    }
    if count == 4 {
        dst[di + 3] = alphabet(v & 0x3F);
    }
    assert forall|k: int| 0 <= k < count implies #[trigger] dst@[di + k] == alphabet_of(pick(v as int, k)) by {
        if k == 0 {} else if k == 1 {} else if k == 2 {} else {}
    }
}

proof fn lemma_group_index(si: int, di: int, k: int)
    requires
        si % 3 == 0,
        0 <= si,
        di == si / 3 * 4,
        0 <= k < 4,
    ensures
        (di + k) / 4 == si / 3,
        (di + k) % 4 == k,
{
}

/// Writes the URL-safe, unpadded base64 encoding of `src` into the front of `dst`
/// and leaves the rest of `dst` as it was.
pub fn encode(dst: &mut [u8], src: &[u8])
    requires
        encoded_len(src@.len() as int) <= old(dst)@.len(),
    ensures
        final(dst)@.len() == old(dst)@.len(),
        forall|j: int| 0 <= j < encoded_len(src@.len() as int) ==> #[trigger] final(dst)@[j]
            == encoded_at(src@, j),
        forall|j: int|
            encoded_len(src@.len() as int) <= j < old(dst)@.len() ==> #[trigger] final(dst)@[j]
                == old(dst)@[j],
{
    let mut di: usize = 0;
    let mut si: usize = 0;
    let n = (src.len() / 3) * 3;
    let dlen = dst.len();
    while si < n
        invariant
            dlen == old(dst)@.len(),
            n == (src@.len() / 3) * 3,
            si % 3 == 0,
            si <= n,
            di == si / 3 * 4,
            encoded_len(src@.len() as int) <= old(dst)@.len(),
            dst@.len() == old(dst)@.len(),
            forall|j: int| 0 <= j < di ==> #[trigger] dst@[j] == encoded_at(src@, j),
            forall|j: int| di <= j < old(dst)@.len() ==> #[trigger] dst@[j] == old(dst)@[j],
        decreases n - si,
    {
        let b0 = src[si] as u32;
        let b1 = src[si + 1] as u32;
        let b2 = src[si + 2] as u32;
        proof {
            lemma_pack(b0, b1, b2);
        }
        let val: u32 = (b0 << 16) | (b1 << 8) | b2;
        assert(val == group_val(src@, si as int / 3));
        assert(di + 4 <= encoded_len(src@.len() as int)) by {
            assert(si as int / 3 + 1 <= src@.len() as int / 3);
        }
        let ghost before = dst@;
        put_group(dst, di, val, 4);
        assert forall|j: int| 0 <= j < di + 4 implies #[trigger] dst@[j] == encoded_at(src@, j) by {
            if j >= di {
                lemma_group_index(si as int, di as int, j - di);
                assert(dst@[di + (j - di)] == alphabet_of(pick(val as int, j - di)));
            } else {
                assert(dst@[j] == before[j]);
            }
        }
        si += 3;
        di += 4;
    }
    let remain = src.len() - si;
    if remain == 0 {
        return;
    }
    let b0 = src[si] as u32;
    let b1: u32 = if remain == 2 {
        src[si + 1] as u32
    } else {
        0
    };
    proof {
        lemma_pack(b0, b1, 0);
    }
    let val: u32 = (b0 << 16) | (b1 << 8) | 0;
    assert(val == group_val(src@, si as int / 3));
    let ghost before = dst@;
    put_group(dst, di, val, remain + 1);
    assert forall|j: int| 0 <= j < encoded_len(src@.len() as int) implies #[trigger] dst@[j]
        == encoded_at(src@, j) by {
        if j >= di {
            lemma_group_index(si as int, di as int, j - di);
            assert(dst@[di + (j - di)] == alphabet_of(pick(val as int, j - di)));
        } else {
            assert(dst@[j] == before[j]);
        }
    }
}

} // verus!

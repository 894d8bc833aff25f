//! Encrypting and decrypting a byte string in fixed-size chunks with RSA and
//! OAEP padding.
//!
//! Plaintext is cut into chunks of `PLAIN_CHUNK` bytes (the last may be
//! shorter); each is encrypted to exactly one key-sized block, and the blocks
//! are concatenated without separators. To decrypt, the block of index `i` is
//! decrypted into a zero-filled buffer as long as the cipher, starting at byte
//! `i * PLAIN_CHUNK`, and the buffer is cut at its first NUL byte. Plaintext
//! that holds a NUL byte therefore does not come back whole.

use vstd::prelude::*;
use crate::fields::views_of;
use openssl::pkey::{Private, Public};
use openssl::rsa::{Padding, Rsa};

verus! {

/// The number of plaintext bytes encrypted into one block.
pub const PLAIN_CHUNK: usize = 126;

/// The number of chunks that a plaintext of `len` bytes is cut into.
pub open spec fn chunk_count(len: int) -> int {
    (len + PLAIN_CHUNK - 1) / (PLAIN_CHUNK as int)
}

/// Chunk `i` of `p`.
pub open spec fn plain_chunk(p: Seq<u8>, i: int) -> Seq<u8> {
    let start = i * PLAIN_CHUNK;
    let end = if (i + 1) * PLAIN_CHUNK < p.len() {
        (i + 1) * PLAIN_CHUNK
    } else {
        p.len() as int
    };
    p.subrange(start, end)
}

/// The chunks of `p`, in order.
pub open spec fn plain_chunks(p: Seq<u8>) -> Seq<Seq<u8>> {
    Seq::new(chunk_count(p.len() as int) as nat, |i: int| plain_chunk(p, i))
}

/// `buf` with `m` written over it from byte `off` on.
pub open spec fn place(buf: Seq<u8>, off: int, m: Seq<u8>) -> Seq<u8> {
    Seq::new(buf.len(), |j: int| if off <= j < off + m.len() { m[j - off] } else { buf[j] })
}

/// A zero-filled buffer of `len` bytes, with decrypted chunk `i` written from
/// byte `i * PLAIN_CHUNK` on, in order.
pub open spec fn placed(msgs: Seq<Seq<u8>>, len: nat) -> Seq<u8>
    decreases msgs.len(),
{
    if msgs.len() == 0 {
        Seq::new(len, |j: int| 0u8)
    } else {
        place(
            placed(msgs.drop_last(), len),
            (msgs.len() - 1) * PLAIN_CHUNK,
            msgs.last(),
        )
    }
}

proof fn lemma_placed_len(msgs: Seq<Seq<u8>>, len: nat)
    ensures
        placed(msgs, len).len() == len,
    decreases msgs.len(),
{
    if msgs.len() > 0 {
        lemma_placed_len(msgs.drop_last(), len);
    }
}

/// Each decrypted chunk fits between its start and the end of its block.
pub open spec fn windows_fit(msgs: Seq<Seq<u8>>, block: int) -> bool {
    forall|i: int|
        0 <= i < msgs.len() ==> i * PLAIN_CHUNK + (#[trigger] msgs[i]).len() <= (i + 1) * block
}

/// The index of the first NUL byte of `b`, or its length.
pub open spec fn first_nul(b: Seq<u8>) -> nat
    decreases b.len(),
{
    if b.len() == 0 {
        0
    } else if b[0] == 0 {
        0
    } else {
        1 + first_nul(b.drop_first())
    }
}

/// `b` up to its first NUL byte.
pub open spec fn until_nul(b: Seq<u8>) -> Seq<u8> {
    b.take(first_nul(b) as int)
}

/// The plaintext that decrypted chunks make, for blocks of `block` bytes.
pub open spec fn assembled(msgs: Seq<Seq<u8>>, block: int) -> Seq<u8> {
    until_nul(placed(msgs, (msgs.len() * block) as nat))
}

/// No byte of `p` is NUL.
pub open spec fn nul_free(p: Seq<u8>) -> bool {
    forall|i: int| 0 <= i < p.len() ==> #[trigger] p[i] != 0
}

/// `first_nul` is the one index with no NUL before it and a NUL or the end at it.
pub proof fn lemma_first_nul(b: Seq<u8>, k: int)
    requires
        0 <= k <= b.len(),
        forall|j: int| 0 <= j < k ==> b[j] != 0,
        k == b.len() || b[k] == 0,
    ensures
        first_nul(b) == k,
    decreases k,
{
    if k > 0 {
        assert(b[0] != 0);
        let t = b.drop_first();
        assert forall|j: int| 0 <= j < k - 1 implies t[j] != 0 by {
            assert(t[j] == b[j + 1]);
        }
        if k < b.len() {
            assert(t[k - 1] == b[k]);
        }
        lemma_first_nul(t, k - 1);
    }
}

proof fn lemma_chunk_count(len: int)
    requires
        len >= 0,
    ensures
        chunk_count(len) * PLAIN_CHUNK >= len,
        chunk_count(len) > 0 ==> (chunk_count(len) - 1) * PLAIN_CHUNK < len,
        chunk_count(len) >= 0,
{
    let c = chunk_count(len);
    assert(c == (len + 125) / 126);
    assert(c * 126 >= len && (c > 0 ==> (c - 1) * 126 < len) && c >= 0) by (nonlinear_arith)
        requires
            c == (len + 125) / 126,
            len >= 0,
    ;
}

/// The first `k` chunks of `p`, placed, are `p`'s first bytes and zeros after.
proof fn lemma_placed_prefix(p: Seq<u8>, k: int, len: nat)
    requires
        0 <= k <= chunk_count(p.len() as int),
        len >= p.len(),
    ensures
        placed(plain_chunks(p).take(k), len) == Seq::new(
            len,
            |j: int|
                if j < k * PLAIN_CHUNK && j < p.len() {
                    p[j]
                } else {
                    0u8
                },
        ),
    decreases k,
{
    lemma_chunk_count(p.len() as int);
    let msgs = plain_chunks(p).take(k);
    if k == 0 {
        assert(placed(msgs, len) =~= Seq::new(
            len,
            |j: int|
                if j < k * PLAIN_CHUNK && j < p.len() {
                    p[j]
                } else {
                    0u8
                },
        ));
    } else {
        lemma_placed_prefix(p, k - 1, len);
        assert(msgs.drop_last() =~= plain_chunks(p).take(k - 1));
        let off = (k - 1) * PLAIN_CHUNK;
        assert(off < p.len()) by (nonlinear_arith)
            requires
                off == (k - 1) * 126,
                k <= chunk_count(p.len() as int),
                chunk_count(p.len() as int) > 0 ==> (chunk_count(p.len() as int) - 1) * 126
                    < p.len(),
        ;
        assert(k * PLAIN_CHUNK == off + PLAIN_CHUNK);
        let m = msgs.last();
        assert(m == plain_chunk(p, k - 1));
        assert(placed(msgs, len) =~= Seq::new(
            len,
            |j: int|
                if j < k * PLAIN_CHUNK && j < p.len() {
                    p[j]
                } else {
                    0u8
                },
        ));
    }
}

/// Decrypting the blocks of a plaintext that holds no NUL byte gives it back:
/// when each block decrypts to its own chunk, the chunks assemble to the
/// plaintext, whatever the block size of the key (at least a chunk long).
pub proof fn lemma_chunk_round_trip(p: Seq<u8>, block: int)
    requires
        nul_free(p),
        block >= PLAIN_CHUNK,
    ensures
        plain_chunks(p).len() == chunk_count(p.len() as int),
        windows_fit(plain_chunks(p), block),
        assembled(plain_chunks(p), block) == p,
{
    let c = chunk_count(p.len() as int);
    lemma_chunk_count(p.len() as int);
    let msgs = plain_chunks(p);
    let len = (c * block) as nat;
    assert(c * block >= c * 126) by (nonlinear_arith)
        requires
            block >= 126,
            c >= 0,
    ;
    assert forall|i: int| 0 <= i < msgs.len() implies i * PLAIN_CHUNK + (
    #[trigger] msgs[i]).len() <= (i + 1) * block by {
        assert((i + 1) * 126 <= (i + 1) * block) by (nonlinear_arith)
            requires
                block >= 126,
                i >= 0,
        ;
    }
    assert(msgs.take(c) =~= msgs);
    lemma_placed_prefix(p, c, len);
    let b = placed(msgs, len);
    assert(msgs.len() * block == c * block);
    lemma_first_nul(b, p.len() as int);
    assert(until_nul(b) =~= p);
}

/// A buffer of `len` zero bytes.
fn zero_buffer(len: usize) -> (r: Vec<u8>)
    ensures
        r@ == Seq::new(len as nat, |j: int| 0u8),
{
    let mut r: Vec<u8> = Vec::new();
    let mut i: usize = 0;
    while i < len
        invariant
            i <= len,
            r@ == Seq::new(i as nat, |j: int| 0u8),
        decreases len - i,
    {
        r.push(0u8);
        i = i + 1;
        assert(r@ =~= Seq::new(i as nat, |j: int| 0u8));
    }
    r
}

/// Puts decrypted chunks together for blocks of `block` bytes: each is written
/// into a zero-filled buffer as long as all blocks, chunk `i` from byte
/// `i * PLAIN_CHUNK` on, and the buffer is cut at its first NUL byte. Nothing
/// comes back where a chunk would run past the end of its block.
pub fn assemble_plaintext(msgs: &Vec<Vec<u8>>, block: usize) -> (r: Option<Vec<u8>>)
    requires
        msgs@.len() * block <= usize::MAX,
    ensures
        r is Some <==> windows_fit(views_of(msgs@), block as int),
        r matches Some(p) ==> p@ == assembled(views_of(msgs@), block as int),
{
    let ghost ms = views_of(msgs@);
    let k = msgs.len();
    let total = k * block;
    let mut buf = zero_buffer(total);
    let mut i: usize = 0;
    assert(ms.take(0).len() == 0);
    while i < k
        invariant
            i <= k,
            k == msgs@.len(),
            ms == views_of(msgs@),
            total == k * block,
            buf@ == placed(ms.take(i as int), total as nat),
            windows_fit(ms.take(i as int), block as int),
        decreases k - i,
    {
        let m = &msgs[i];
        assert(m@ == ms[i as int]);
        assert((i + 1) * block <= k * block) by (nonlinear_arith)
            requires
                i < k,
        ;
        let limit = (i + 1) * block;
        if m.len() > limit || i > (limit - m.len()) / PLAIN_CHUNK {
            assert(!windows_fit(ms, block as int)) by {
                if windows_fit(ms, block as int) {
                    assert(i * PLAIN_CHUNK + ms[i as int].len() <= (i + 1) * block);
                    assert(i * 126 <= limit - m.len() ==> i <= (limit - m.len()) / 126) by (
                    nonlinear_arith);
                }
            }
            return None;
        }
        assert(i * 126 <= limit - m.len()) by (nonlinear_arith)
            requires
                i <= (limit - m.len()) / 126,
                limit >= m.len(),
        ;
        let off = i * PLAIN_CHUNK;
        let ghost prev = buf@;
        proof {
            lemma_placed_len(ms.take(i as int), total as nat);
        }
        let mut j: usize = 0;
        assert(buf@ =~= Seq::new(
            total as nat,
            |x: int|
                if off <= x < off + j {
                    m@[x - off]
                } else {
                    prev[x]
                },
        ));
        while j < m.len()
            invariant
                j <= m@.len(),
                off + m@.len() <= total,
                prev.len() == total,
                buf@ == Seq::new(
                    total as nat,
                    |x: int|
                        if off <= x < off + j {
                            m@[x - off]
                        } else {
                            prev[x]
                        },
                ),
            decreases m@.len() - j,
        {
            buf.set(off + j, m[j]);
            j = j + 1;
            assert(buf@ =~= Seq::new(
                total as nat,
                |x: int|
                    if off <= x < off + j {
                        m@[x - off]
                    } else {
                        prev[x]
                    },
            ));
        }
        proof {
            let t = ms.take(i + 1);
            assert(t.drop_last() =~= ms.take(i as int));
            assert(t.last() == m@);
            assert(buf@ =~= placed(t, total as nat));
            assert forall|a: int| 0 <= a < t.len() implies a * PLAIN_CHUNK + (
            #[trigger] t[a]).len() <= (a + 1) * block by {
                if a < i {
                    assert(t[a] == ms.take(i as int)[a]);
                }
            }
        }
        i = i + 1;
    }
    assert(ms.take(k as int) =~= ms);
    let mut pos: usize = 0;
    while pos < buf.len() && buf[pos] != 0
        invariant
            pos <= buf@.len(),
            forall|j: int| 0 <= j < pos ==> buf@[j] != 0,
        decreases buf@.len() - pos,
    {
        pos = pos + 1;
    }
    proof {
        lemma_first_nul(buf@, pos as int);
    }
    buf.truncate(pos);
    assert(buf@ =~= assembled(ms, block as int));
    Some(buf)
}

/// The blocks written one after the other.
pub open spec fn concat_blocks(bs: Seq<Seq<u8>>) -> Seq<u8>
    decreases bs.len(),
{
    if bs.len() == 0 {
        Seq::empty()
    } else {
        concat_blocks(bs.drop_last()) + bs.last()
    }
}

/// Every block is `n` bytes long.
pub open spec fn all_of_length(bs: Seq<Seq<u8>>, n: int) -> bool {
    forall|i: int| 0 <= i < bs.len() ==> (#[trigger] bs[i]).len() == n
}

proof fn lemma_concat_len(bs: Seq<Seq<u8>>, n: int)
    requires
        all_of_length(bs, n),
    ensures
        concat_blocks(bs).len() == bs.len() * n,
    decreases bs.len(),
{
    if bs.len() > 0 {
        assert(all_of_length(bs.drop_last(), n)) by {
            assert forall|i: int| 0 <= i < bs.drop_last().len() implies (
            #[trigger] bs.drop_last()[i]).len() == n by {
                assert(bs.drop_last()[i] == bs[i]);
            }
        }
        lemma_concat_len(bs.drop_last(), n);
        assert(bs.last() == bs[bs.len() - 1]);
        assert((bs.len() - 1) * n + n == bs.len() * n) by (nonlinear_arith);
    }
}

/// The chunks of `plaintext`, in order.
pub fn split_chunks(plaintext: &[u8]) -> (r: Vec<Vec<u8>>)
    ensures
        views_of(r@) == plain_chunks(plaintext@),
{
    let mut r: Vec<Vec<u8>> = Vec::new();
    let mut start: usize = 0;
    proof {
        lemma_chunk_count(plaintext@.len() as int);
    }
    while start < plaintext.len()
        invariant
            start <= plaintext@.len(),
            start == r@.len() * PLAIN_CHUNK || start == plaintext@.len(),
            start < plaintext@.len() ==> start == r@.len() * PLAIN_CHUNK,
            r@.len() == 0 || (r@.len() - 1) * PLAIN_CHUNK < plaintext@.len(),
            r@.len() * PLAIN_CHUNK >= start,
            forall|i: int| 0 <= i < r@.len() ==> (#[trigger] r@[i])@ == plain_chunk(plaintext@, i),
        decreases plaintext@.len() - start,
    {
        let end = if plaintext.len() - start > PLAIN_CHUNK {
            start + PLAIN_CHUNK
        } else {
            plaintext.len()
        };
        let mut chunk: Vec<u8> = Vec::new();
        let mut j: usize = start;
        while j < end
            invariant
                start <= j <= end,
                end <= plaintext@.len(),
                chunk@ == plaintext@.subrange(start as int, j as int),
            decreases end - j,
        {
            chunk.push(plaintext[j]);
            j = j + 1;
            assert(chunk@ =~= plaintext@.subrange(start as int, j as int));
        }
        let ghost k = r@.len() as int;
        assert(chunk@ == plain_chunk(plaintext@, k)) by {
            assert(start == k * PLAIN_CHUNK);
            assert((k + 1) * PLAIN_CHUNK == start + PLAIN_CHUNK);
        }
        r.push(chunk);
        start = end;
    }
    proof {
        let len = plaintext@.len() as int;
        let i = r@.len() as int;
        assert(i == chunk_count(len)) by (nonlinear_arith)
            requires
                i * 126 >= len,
                (i - 1) * 126 < len || i == 0,
                i >= 0,
                len >= 0,
                chunk_count(len) == (len + 125) / 126,
        ;
        assert(views_of(r@) =~= plain_chunks(plaintext@));
    }
    r
}

/// The blocks written one after the other, where each is `n` bytes long.
pub fn join_blocks(blocks: &Vec<Vec<u8>>, n: usize) -> (r: Option<Vec<u8>>)
    ensures
        r is Some <==> all_of_length(views_of(blocks@), n as int),
        r matches Some(c) ==> c@ == concat_blocks(views_of(blocks@)) && c@.len() == blocks@.len()
            * n,
{
    let ghost bs = views_of(blocks@);
    let mut out: Vec<u8> = Vec::new();
    let mut i: usize = 0;
    while i < blocks.len()
        invariant
            i <= blocks@.len(),
            bs == views_of(blocks@),
            out@ == concat_blocks(bs.take(i as int)),
            all_of_length(bs.take(i as int), n as int),
        decreases blocks@.len() - i,
    {
        let b = &blocks[i];
        assert(b@ == bs[i as int]);
        if b.len() != n {
            return None;
        }
        let ghost before = out@;
        let mut j: usize = 0;
        while j < b.len()
            invariant
                j <= b@.len(),
                out@ == before + b@.take(j as int),
            decreases b@.len() - j,
        {
            out.push(b[j]);
            j = j + 1;
            assert(out@ =~= before + b@.take(j as int));
        }
        proof {
            let t = bs.take(i + 1);
            assert(t.drop_last() =~= bs.take(i as int));
            assert(t.last() == b@);
            assert(b@.take(b@.len() as int) =~= b@);
            assert(all_of_length(t, n as int)) by {
                assert forall|a: int| 0 <= a < t.len() implies (#[trigger] t[a]).len() == n by {
                    if a < i {
                        assert(t[a] == bs.take(i as int)[a]);
                    }
                }
            }
        }
        i = i + 1;
    }
    assert(bs.take(blocks@.len() as int) =~= bs);
    proof {
        lemma_concat_len(bs, n as int);
    }
    Some(out)
}

/// The size in bytes of the RSA key that a PEM public key holds, if it holds one.
pub uninterp spec fn rsa_public_size(pem: Seq<u8>) -> Option<nat>;

/// The size in bytes of the RSA key that a PEM private key holds, if it holds one.
pub uninterp spec fn rsa_private_size(pem: Seq<u8>) -> Option<nat>;

/// What OAEP decryption of `block` with the PEM private key `pem` gives, if it
/// succeeds.
pub uninterp spec fn oaep_plain(pem: Seq<u8>, block: Seq<u8>) -> Option<Seq<u8>>;

/// `cipher` is what encrypting a plaintext of `len` bytes with the PEM public
/// key `pem` gives: one block of the key's size for each chunk.
pub open spec fn cipher_of_length(pem: Seq<u8>, len: int, cipher: Seq<u8>) -> bool {
    match rsa_public_size(pem) {
        Some(n) => cipher.len() == chunk_count(len) * n,
        None => false,
    }
}

/// Block `i` of `cipher`, for blocks of `n` bytes.
pub open spec fn block_of(cipher: Seq<u8>, n: int, i: int) -> Seq<u8> {
    cipher.subrange(i * n, (i + 1) * n)
}

/// Every block of `cipher` decrypts with `pem`.
pub open spec fn blocks_decrypt(pem: Seq<u8>, cipher: Seq<u8>, n: int) -> bool {
    forall|i: int| 0 <= i < cipher.len() as int / n ==> (#[trigger] oaep_plain(pem, block_of(cipher, n, i))) is Some
}

/// The decryptions of the blocks of `cipher`, in order.
pub open spec fn decrypted_chunks(pem: Seq<u8>, cipher: Seq<u8>, n: int) -> Seq<Seq<u8>> {
    Seq::new((cipher.len() as int / n) as nat, |i: int| oaep_plain(pem, block_of(cipher, n, i))->0)
}

/// The plaintext that decrypting `cipher` with the PEM private key `pem`
/// gives: the key reads, the cipher is whole blocks of its size, every block
/// decrypts, and the decryptions fit their windows; they are then assembled.
pub open spec fn chunk_decryption(pem: Seq<u8>, cipher: Seq<u8>) -> Option<Seq<u8>> {
    if pem.len() > i32::MAX {
        None
    } else {
        match rsa_private_size(pem) {
            Some(n) => if 0 < n <= i32::MAX && cipher.len() as int % (n as int) == 0 && blocks_decrypt(
                pem,
                cipher,
                n as int,
            ) && windows_fit(decrypted_chunks(pem, cipher, n as int), n as int) {
                Some(assembled(decrypted_chunks(pem, cipher, n as int), n as int))
            } else {
                None
            },
            None => None,
        }
    }
}

/// Encrypts `plaintext` chunk by chunk with the PEM public key `public_key_pem`:
/// chunk `i` (see `split_chunks`) goes to openssl as block `i`, and the blocks,
/// each of the key's size, are joined (see `join_blocks`). What each block
/// holds is openssl's, and differs from call to call.
pub fn encrypt_chunks(public_key_pem: &[u8], plaintext: &[u8]) -> (r: Result<Vec<u8>, String>)
    ensures
        r matches Ok(c) ==> public_key_pem@.len() <= i32::MAX && cipher_of_length(
            public_key_pem@,
            plaintext@.len() as int,
            c@,
        ),
        public_key_pem@.len() > i32::MAX || rsa_public_size(public_key_pem@) is None ==> r is Err,
        public_key_pem@.len() <= i32::MAX && rsa_public_size(public_key_pem@) is Some
            && plaintext@.len() == 0 ==> r is Ok,
{
    if public_key_pem.len() > 2147483647 {
        return Err(String::from_str("Error: the public key is too long"));
    }
    let key = match read_public_key(public_key_pem) {
        Some(k) => k,
        None => {
            return Err(String::from_str("Error: the public key cannot be read"));
        },
    };
    let chunks = split_chunks(plaintext);
    let mut blocks: Vec<Vec<u8>> = Vec::new();
    let mut i: usize = 0;
    assert(plaintext@.len() == 0 ==> chunks@.len() == 0) by {
        assert(views_of(chunks@).len() == chunks@.len());
    }
    while i < chunks.len()
        invariant
            i <= chunks@.len(),
            blocks@.len() == i,
            forall|k: int| 0 <= k < i ==> (#[trigger] blocks@[k])@.len() == key.size,
            plaintext@.len() == 0 ==> chunks@.len() == 0,
        decreases chunks@.len() - i,
    {
        if chunks[i].len() > 2147483647 {
            return Err(String::from_str("Error: a chunk is too long"));
        }
        let b = match oaep_encrypt(&key, chunks[i].as_slice()) {
            Some(b) => b,
            None => {
                return Err(String::from_str("Error: a chunk cannot be encrypted"));
            },
        };
        blocks.push(b);
        i = i + 1;
        assert(blocks@[i - 1]@.len() == key.size);
    }
    assert(all_of_length(views_of(blocks@), key.size as int));
    match join_blocks(&blocks, key.size) {
        Some(c) => {
            assert(views_of(chunks@).len() == chunks@.len());
            assert(blocks@.len() == chunk_count(plaintext@.len() as int));
            Ok(c)
        },
        None => Err(String::from_str("Error: an encrypted block is not of the key's size")),
    }
}

/// Decrypts `cipher` block by block with the PEM private key
/// `private_key_pem` and puts the chunks together as `assemble_plaintext` does.
pub fn decrypt_chunks(private_key_pem: &[u8], cipher: &[u8]) -> (r: Result<Vec<u8>, String>)
    ensures
        r is Ok <==> chunk_decryption(private_key_pem@, cipher@) is Some,
        r matches Ok(p) ==> chunk_decryption(private_key_pem@, cipher@) == Some(p@),
{
    let ghost pem = private_key_pem@;
    if private_key_pem.len() > 2147483647 {
        return Err(String::from_str("Error: the private key is too long"));
    }
    let key = match read_private_key(private_key_pem) {
        Some(k) => k,
        None => {
            return Err(String::from_str("Error: the private key cannot be read"));
        },
    };
    let n = key.size;
    assert(rsa_private_size(pem) == Some(n as nat));
    if n == 0 || n > 2147483647 || cipher.len() % n != 0 {
        assert(chunk_decryption(pem, cipher@) is None);
        return Err(String::from_str("Error: the cipher is not a whole number of blocks"));
    }
    let k = cipher.len() / n;
    let mut msgs: Vec<Vec<u8>> = Vec::new();
    let mut start: usize = 0;
    assert(0 * n == 0);
    assert(k * n == cipher@.len()) by (nonlinear_arith)
        requires
            k == cipher@.len() as int / n as int,
            cipher@.len() as int % n as int == 0,
            n > 0,
    ;
    while start < cipher.len()
        invariant
            start == msgs@.len() * n,
            start <= cipher@.len(),
            msgs@.len() <= k,
            k * n == cipher@.len(),
            k == cipher@.len() as int / (n as int),
            n > 0,
            n <= 2147483647,
            key.pem@ == pem,
            pem == private_key_pem@,
            pem.len() <= i32::MAX,
            rsa_private_size(pem) == Some(n as nat),
            cipher@.len() as int % n as int == 0,
            forall|j: int| 0 <= j < msgs@.len() ==> oaep_plain(pem, #[trigger] block_of(cipher@, n as int, j))
                == Some((msgs@[j])@),
        decreases cipher@.len() - start,
    {
        assert(msgs@.len() < k) by (nonlinear_arith)
            requires
                msgs@.len() * n < k * n,
                n > 0,
        ;
        assert(start + n <= cipher@.len()) by (nonlinear_arith)
            requires
                start == msgs@.len() * n,
                msgs@.len() + 1 <= k,
                k * n == cipher@.len(),
                n > 0,
        ;
        let block = &cipher[start..start + n];
        let ghost j = msgs@.len() as int;
        assert(block@ == block_of(cipher@, n as int, j)) by {
            assert((j + 1) * n == start + n) by (nonlinear_arith)
                requires
                    start == j * n,
            ;
        }
        let m = match oaep_decrypt(&key, block) {
            Some(m) => m,
            None => {
                assert(!blocks_decrypt(pem, cipher@, n as int));
                assert(chunk_decryption(pem, cipher@) is None);
                return Err(String::from_str("Error: a block cannot be decrypted"));
            },
        };
        msgs.push(m);
        assert(start + n == msgs@.len() * n) by (nonlinear_arith)
            requires
                start == (msgs@.len() - 1) * n,
        ;
        start = start + n;
    }
    assert(msgs@.len() == k) by (nonlinear_arith)
        requires
            msgs@.len() * n == cipher@.len(),
            k * n == cipher@.len(),
            n > 0,
    ;
    assert(blocks_decrypt(pem, cipher@, n as int));
    assert(views_of(msgs@) =~= decrypted_chunks(pem, cipher@, n as int));
    assert(views_of(msgs@).len() * n == cipher@.len());
    match assemble_plaintext(&msgs, n) {
        Some(p) => {
            assert(chunk_decryption(pem, cipher@) == Some(p@));
            Ok(p)
        },
        None => {
            assert(chunk_decryption(pem, cipher@) is None);
            Err(String::from_str("Error: a decrypted chunk runs past its block"))
        },
    }
}

// The RSA key types of openssl, carried through opaque.
#[verifier::external_type_specification]
#[verifier::external_body]
#[verifier::reject_recursive_types(T)]
pub struct ExRsa<T>(Rsa<T>);

#[verifier::external_type_specification]
#[verifier::external_body]
pub struct ExPublic(Public);

#[verifier::external_type_specification]
#[verifier::external_body]
pub struct ExPrivate(Private);

/// A public key read from PEM text, with its size. Only `read_public_key`
/// makes one.
pub struct PublicKey {
    rsa: Rsa<Public>,
    size: usize,
}

/// A private key read from PEM text, with its size and the text it was read
/// from. Only `read_private_key` makes one.
pub struct PrivateKey {
    rsa: Rsa<Private>,
    size: usize,
    pem: Vec<u8>,
}

/// Relies on openssl's `Rsa::public_key_from_pem`, and `RsaRef::size` on the
/// key it reads: the key that a PEM public key holds and its size, which
/// depend on the text alone, or nothing where it holds none.
#[verifier::external_body]
fn read_public_key(pem: &[u8]) -> (r: Option<PublicKey>)
    requires
        pem@.len() <= i32::MAX,
    ensures
        r is None ==> rsa_public_size(pem@) is None,
        r is Some ==> rsa_public_size(pem@) == Some(r.unwrap().size as nat),
{
    match Rsa::public_key_from_pem(pem) {
        Ok(rsa) => {
            let size = rsa.size() as usize;
            Some(PublicKey { rsa, size })
        },
        Err(_) => None,
    }
}

/// Relies on openssl's `Rsa::private_key_from_pem_passphrase` with an empty
/// passphrase, so that an encrypted key fails instead of prompting, and
/// `RsaRef::size` on the key it reads: the key that a PEM private key holds
/// and its size, which depend on the text alone, or nothing where it holds
/// none. The key keeps a copy of the text.
#[verifier::external_body]
fn read_private_key(pem: &[u8]) -> (r: Option<PrivateKey>)
    requires
        pem@.len() <= i32::MAX,
    ensures
        r is None ==> rsa_private_size(pem@) is None,
        r is Some ==> rsa_private_size(pem@) == Some(r.unwrap().size as nat) && r.unwrap().pem@
            == pem@,
{
    match Rsa::private_key_from_pem_passphrase(pem, b"") {
        Ok(rsa) => {
            let size = rsa.size() as usize;
            Some(PrivateKey { rsa, size, pem: pem.to_vec() })
        },
        Err(_) => None,
    }
}

/// Relies on openssl's `RsaRef::public_encrypt` with OAEP padding, into a
/// buffer of the key's size as it asks: the encrypted block, which is as long
/// as the key (`RSA_public_encrypt` returns `RSA_size` bytes), or nothing
/// where it fails.
#[verifier::external_body]
fn oaep_encrypt(key: &PublicKey, chunk: &[u8]) -> (r: Option<Vec<u8>>)
    requires
        chunk@.len() <= i32::MAX,
    ensures
        r is Some ==> r.unwrap()@.len() == key.size,
{
    let mut out = vec![0u8; key.rsa.size() as usize];
    match key.rsa.public_encrypt(chunk, &mut out, Padding::PKCS1_OAEP) {
        Ok(n) => {
            out.truncate(n);
            Some(out)
        },
        Err(_) => None,
    }
}

/// Relies on openssl's `RsaRef::private_decrypt` with OAEP padding, into a
/// buffer of the key's size as it asks: what it decrypts depends on the PEM
/// text that the key was read from and on the block alone.
#[verifier::external_body]
fn oaep_decrypt(key: &PrivateKey, block: &[u8]) -> (r: Option<Vec<u8>>)
    requires
        block@.len() <= i32::MAX,
    ensures
        r is None ==> oaep_plain(key.pem@, block@) is None,
        r is Some ==> oaep_plain(key.pem@, block@) == Some(r.unwrap()@),
{
    let mut out = vec![0u8; key.rsa.size() as usize];
    match key.rsa.private_decrypt(block, &mut out, Padding::PKCS1_OAEP) {
        Ok(n) => {
            out.truncate(n);
            Some(out)
        },
        Err(_) => None,
    }
}

} // verus!

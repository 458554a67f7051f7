//! What holds of unfolding and folding taken together.
use vstd::prelude::*;

use crate::checksum::sha256_of;
use crate::codec::{
    hex_bytes, hex_of, is_hex_char, is_hex_text, key_text, lemma_hex_round_trip,
    lemma_key_round_trip,
};
use crate::file::{
    lemma_chunk_count, chunk_at, chunk_count_of, chunk_matches, chunk_name, chunks_of, index_entries_of, joined, min,
    unfold_effects_of, UnfoldEffect, MAX_CHUNK_SIZE,
};
use crate::index::{
    count_of, digest_entry, digest_key, is_plain_name, is_sequence, position_entries, positions_of,
    sound_at, ChunkFile, FileState,
};

verus! {

proof fn lemma_digest_first(es: Seq<(Seq<char>, Seq<char>)>)
    requires
        es.len() >= 1,
        es[0].0 == digest_key(),
        forall|i: int| 1 <= i < es.len() ==> (#[trigger] es[i]).0 != digest_key(),
    ensures
        digest_entry(es) == Some(es[0].1),
        position_entries(es) == es.drop_first(),
    decreases es.len(),
{
    if es.len() > 1 {
        let t = es.drop_last();
        assert forall|i: int| 1 <= i < t.len() implies (#[trigger] t[i]).0 != digest_key() by {
            assert(t[i] == es[i]);
        }
        lemma_digest_first(t);
        assert(es.last() == es[es.len() - 1]);
        assert(es.last().0 != digest_key());
        assert(es.drop_first() =~= t.drop_first().push(es.last()));
    } else {
        assert(es.last() == es[0]);
        assert(es.drop_last() =~= Seq::<(Seq<char>, Seq<char>)>::empty());
        assert(position_entries(es.drop_last()) == Seq::<(Seq<char>, Seq<char>)>::empty());
        assert(es.drop_first() =~= Seq::<(Seq<char>, Seq<char>)>::empty());
    }
}

proof fn lemma_identity_counts(ps: Seq<usize>, k: int)
    requires
        forall|j: int| 0 <= j < ps.len() ==> #[trigger] ps[j] == j,
    ensures
        count_of(ps, k) == if 0 <= k < ps.len() {
            1nat
        } else {
            0nat
        },
    decreases ps.len(),
{
    if ps.len() > 0 {
        let t = ps.drop_last();
        assert forall|j: int| 0 <= j < t.len() implies #[trigger] t[j] == j by {
            assert(t[j] == ps[j]);
        }
        lemma_identity_counts(t, k);
    }
}

proof fn lemma_joined_prefix(b: Seq<u8>, k: int)
    requires
        0 <= k <= chunk_count_of(b.len()),
    ensures
        joined(chunks_of(b).take(k)) == b.subrange(0, min(k * MAX_CHUNK_SIZE, b.len() as int)),
    decreases k,
{
    if k == 0 {
        assert(chunks_of(b).take(0) =~= Seq::<Seq<u8>>::empty());
        assert(b.subrange(0, 0) =~= Seq::<u8>::empty());
    } else {
        lemma_joined_prefix(b, k - 1);
        assert(chunks_of(b).take(k).drop_last() =~= chunks_of(b).take(k - 1));
        assert(b.subrange(0, min(k * MAX_CHUNK_SIZE, b.len() as int)) =~= b.subrange(
            0,
            min((k - 1) * MAX_CHUNK_SIZE, b.len() as int),
        ) + chunk_at(b, k - 1));
    }
}

/// The chunks of a file, joined in order, are the file.
pub proof fn lemma_chunks_join(b: Seq<u8>)
    ensures
        joined(chunks_of(b)) == b,
{
    let n = chunk_count_of(b.len());
    let m = MAX_CHUNK_SIZE as int;
    if b.len() > m {
        let q = (b.len() + m - 1) / m;
        assert(b.len() <= q * m) by (nonlinear_arith)
            requires
                q == (b.len() + m - 1) / m,
                m > 0,
        ;
    }
    lemma_joined_prefix(b, n as int);
    assert(chunks_of(b).take(n as int) =~= chunks_of(b));
    assert(b.subrange(0, b.len() as int) =~= b);
}

/// Any hex encoding is a plain file name.
proof fn lemma_hex_name_plain(d: Seq<u8>)
    ensures
        is_plain_name(hex_of(d)),
        is_hex_text(hex_of(d)),
        hex_bytes(hex_of(d)) == d,
{
    lemma_hex_round_trip(d);
    let h = hex_of(d);
    reveal_strlit(".");
    reveal_strlit("..");
    assert forall|i: int| 0 <= i < h.len() implies #[trigger] h[i] != '/' && h[i] != '\\' by {
        assert(is_hex_char(h[i]));
    }
    if h.len() == 2 {
        assert(is_hex_char(h[0]));
        assert(h != ".."@);
    }
}

/// Round trip: every check that folding makes passes on what unfolding
/// wrote, and the chunks join back into the file. The index of `b` holds its
/// digest as hex text; its other entries, all sound once their files are
/// there, name positions `0..n` in order, each the name of the chunk at that
/// position, which matches that chunk's bytes.
pub proof fn lemma_round_trip(b: Seq<u8>, files: Seq<ChunkFile>)
    requires
        b.len() <= usize::MAX,
        files.len() == chunk_count_of(b.len()),
        forall|j: int| 0 <= j < files.len() ==> (#[trigger] files[j]).state == FileState::File,
    ensures
        ({
            let es = index_entries_of(b);
            let pos = position_entries(es);
            let n = chunk_count_of(b.len()) as int;
            &&& digest_entry(es) == Some(hex_of(sha256_of(b)))
            &&& is_hex_text(hex_of(sha256_of(b)))
            &&& hex_bytes(hex_of(sha256_of(b))) == sha256_of(b)
            &&& pos.len() == n
            &&& n >= 1
            &&& forall|j: int| 0 <= j < n ==> sound_at(pos, files, j)
            &&& is_sequence(positions_of(pos))
            &&& forall|j: int| 0 <= j < n ==> #[trigger] positions_of(pos)[j] == j
            &&& forall|k: int|
                0 <= k < n ==> #[trigger] pos[k].1 == chunk_name(chunk_at(b, k)) && chunk_matches(
                    pos[k].1,
                    chunk_at(b, k),
                )
            &&& joined(chunks_of(b)) == b
        }),
{
    let es = index_entries_of(b);
    let n = chunk_count_of(b.len()) as int;
    lemma_chunk_count(b.len());
    assert(n <= usize::MAX + 1);
    reveal_strlit("sha256");
    assert forall|i: int| 1 <= i < es.len() implies (#[trigger] es[i]).0 != digest_key() by {
        lemma_key_round_trip((i - 1) as usize);
    }
    lemma_digest_first(es);
    let pos = position_entries(es);
    assert(pos =~= Seq::new(n as nat, |k: int| (key_text(k as nat), chunk_name(chunk_at(b, k)))));
    lemma_hex_name_plain(sha256_of(b));
    assert forall|j: int| 0 <= j < n implies #[trigger] positions_of(pos)[j] == j by {
        lemma_key_round_trip(j as usize);
    }
    assert forall|j: int| 0 <= j < n implies #[trigger] sound_at(pos, files, j) by {
        lemma_key_round_trip(j as usize);
        lemma_hex_name_plain(sha256_of(chunk_at(b, j)));
    }
    let ps = positions_of(pos);
    assert forall|k: int| 0 <= k < ps.len() implies #[trigger] count_of(ps, k) == 1 by {
        lemma_identity_counts(ps, k);
    }
    assert forall|k: int| 0 <= k < n implies #[trigger] pos[k].1 == chunk_name(chunk_at(b, k))
        && chunk_matches(pos[k].1, chunk_at(b, k)) by {
        lemma_hex_name_plain(sha256_of(chunk_at(b, k)));
    }
    lemma_chunks_join(b);
}

/// Unfolding is deterministic: whatever two unfolds of the same bytes
/// produce, they write the same chunk names and the same index text.
pub proof fn lemma_unfold_deterministic(
    b: Seq<u8>,
    first: Seq<UnfoldEffect>,
    second: Seq<UnfoldEffect>,
)
    requires
        unfold_effects_of(b, first),
        unfold_effects_of(b, second),
    ensures
        first.len() == second.len(),
        forall|k: int|
            0 <= k < chunk_count_of(b.len()) ==> written_name(#[trigger] first[2 * k + 2])
                == written_name(second[2 * k + 2]),
        written_text(first[2 * chunk_count_of(b.len()) as int + 1]) == written_text(
            second[2 * chunk_count_of(b.len()) as int + 1],
        ),
{
}

/// The name under which an effect writes a chunk.
pub open spec fn written_name(e: UnfoldEffect) -> Seq<char> {
    match e {
        UnfoldEffect::WriteChunk { name, .. } => name@,
        _ => Seq::empty(),
    }
}

/// The index text that an effect writes.
pub open spec fn written_text(e: UnfoldEffect) -> Seq<char> {
    match e {
        UnfoldEffect::WriteIndex(text) => text@,
        _ => Seq::empty(),
    }
}

/// A non-empty file of `len` bytes is cut into `ceil(len / 65535)` chunks.
pub proof fn lemma_chunk_count_formula(len: nat)
    requires
        len > 0,
    ensures
        chunk_count_of(len) == (len + MAX_CHUNK_SIZE - 1) as int / MAX_CHUNK_SIZE as int,
{
    let m = MAX_CHUNK_SIZE as int;
    if len <= m {
        assert((len + m - 1) / m == 1) by (nonlinear_arith)
            requires
                0 < len <= m,
        ;
    }
}

/// A chunk whose bytes were changed so that its digest changed no longer
/// matches the name it was written under, so folding rejects it.
pub proof fn lemma_tamper_detected(original: Seq<u8>, altered: Seq<u8>)
    requires
        sha256_of(altered) != sha256_of(original),
    ensures
        !chunk_matches(chunk_name(original), altered),
{
    lemma_hex_round_trip(sha256_of(original));
}

} // verus!

//! The index of a chunk directory: its text form, and the rules that the
//! entries must meet before any chunk is read.
use vstd::prelude::*;

use crate::codec::{decode_hex, hex_bytes, is_hex_text, key_position, parse_key};
use crate::errors::{Error, IndexFault, OutputFault, ReadFault, Result};
use crate::yaml::{entries_view, index_from_yaml, index_to_yaml, yaml_index_entries, yaml_of_index};

verus! {

/// The text of an index holding `entries`.
pub fn index_document(entries: &Vec<(String, String)>) -> (r: Result<String>)
    ensures
        r is Ok <==> yaml_of_index(entries_view(entries@)) is Some,
        r matches Ok(text) ==> yaml_of_index(entries_view(entries@)) == Some(text@),
        r matches Err(e) ==> e matches Error::FlattenFileOutputError(
            OutputFault::IndexNotSerialized { .. },
        ),
{
    match index_to_yaml(entries) {
        Ok(text) => Ok(text),
        Err(e) => Err(
            Error::FlattenFileOutputError(
                OutputFault::IndexNotSerialized { message: e },
            ),
        ),
    }
}

/// The key of the entry that holds the digest of the whole file.
pub open spec fn digest_key() -> Seq<char> {
    "sha256"@
}

/// The value under the digest key; the last one, were it listed twice.
pub open spec fn digest_entry(es: Seq<(Seq<char>, Seq<char>)>) -> Option<Seq<char>>
    decreases es.len(),
{
    if es.len() == 0 {
        None
    } else if es.last().0 == digest_key() {
        Some(es.last().1)
    } else {
        digest_entry(es.drop_last())
    }
}

/// The entries other than the digest, in order.
pub open spec fn position_entries(es: Seq<(Seq<char>, Seq<char>)>) -> Seq<(Seq<char>, Seq<char>)>
    decreases es.len(),
{
    if es.len() == 0 {
        Seq::empty()
    } else if es.last().0 == digest_key() {
        position_entries(es.drop_last())
    } else {
        position_entries(es.drop_last()).push(es.last())
    }
}

/// An index split into the digest text and the chunk entries.
pub struct IndexDocument {
    pub digest: String,
    pub positions: Vec<(String, String)>,
}

/// Takes the digest out of the entries of an index.
pub fn split_index(entries: Vec<(String, String)>) -> (r: Result<IndexDocument>)
    ensures
        digest_entry(entries_view(entries@)) is None ==> r == Err::<IndexDocument, Error>(
            Error::InvalidIndexError(IndexFault::MissingDigest),
        ),
        digest_entry(entries_view(entries@)) matches Some(d) ==> r matches Ok(doc) && doc.digest@
            == d && entries_view(doc.positions@) == position_entries(entries_view(entries@)),
{
    let ghost es = entries_view(entries@);
    let key = "sha256".to_owned();
    let mut digest: Option<String> = None;
    let mut positions: Vec<(String, String)> = Vec::new();
    let mut i: usize = 0;
    while i < entries.len()
        invariant
            i <= entries@.len(),
            es == entries_view(entries@),
            key@ == digest_key(),
            match digest {
                Some(d) => digest_entry(es.take(i as int)) == Some(d@),
                None => digest_entry(es.take(i as int)) is None,
            },
            entries_view(positions@) == position_entries(es.take(i as int)),
        decreases entries@.len() - i,
    {
        let ghost t = es.take(i as int + 1);
        assert(t.drop_last() =~= es.take(i as int));
        assert(t.last() == es[i as int]);
        let entry = &entries[i];
        if entry.0 == key {
            digest = Some(entry.1.clone());
        } else {
            let ghost before = positions@;
            positions.push((entry.0.clone(), entry.1.clone()));
            assert(entries_view(positions@) =~= entries_view(before).push(es[i as int]));
        }
        i = i + 1;
    }
    assert(es.take(i as int) =~= es);
    match digest {
        Some(d) => Ok(IndexDocument { digest: d, positions }),
        None => Err(Error::InvalidIndexError(IndexFault::MissingDigest)),
    }
}

/// Reads the text of an index into its digest text and chunk entries.
pub fn parse_index(text: &str) -> (r: Result<IndexDocument>)
    ensures
        yaml_index_entries(text@) is None ==> r matches Err(
            Error::UnreadableIndexError(ReadFault::Malformed { .. }),
        ),
        yaml_index_entries(text@) matches Some(es) ==> {
            &&& digest_entry(es) is None ==> r == Err::<IndexDocument, Error>(
                Error::InvalidIndexError(IndexFault::MissingDigest),
            )
            &&& digest_entry(es) matches Some(d) ==> r matches Ok(doc) && doc.digest@ == d
                && entries_view(doc.positions@) == position_entries(es)
        },
{
    match index_from_yaml(text) {
        Ok(entries) => split_index(entries),
        Err(e) => Err(
            Error::UnreadableIndexError(ReadFault::Malformed { message: e }),
        ),
    }
}

/// What the filesystem holds under the name of a chunk.
#[derive(Debug, Clone, Copy, PartialEq, Eq, Structural)]
pub enum FileState {
    Missing,
    NotAFile,
    File,
}

/// A chunk name that stays inside the index's own directory.
pub open spec fn is_plain_name(s: Seq<char>) -> bool {
    &&& s != "."@
    &&& s != ".."@
    &&& forall|i: int| 0 <= i < s.len() ==> #[trigger] s[i] != '/' && s[i] != '\\'
}

/// What the filesystem holds at the path of a chunk, with that path.
#[derive(Debug, Clone)]
pub struct ChunkFile {
    pub path: String,
    pub state: FileState,
}

/// An entry that names a position and a chunk file that is there.
pub open spec fn entry_sound(key: Seq<char>, name: Seq<char>, state: FileState) -> bool {
    &&& key_position(key) is Some
    &&& is_plain_name(name)
    &&& state == FileState::File
}

/// The fault reported for an entry that is not sound; the key is read
/// first, then the name, then what the name points at.
pub open spec fn entry_fault(
    f: IndexFault,
    key: Seq<char>,
    name: Seq<char>,
    state: FileState,
    path: Seq<char>,
) -> bool {
    if key_position(key) is None {
        f matches IndexFault::InvalidKey { key: k } && k@ == key
    } else if !is_plain_name(name) {
        f matches IndexFault::NestedName { key: k, name: v } && k@ == key && v@ == name
    } else if state == FileState::Missing {
        f matches IndexFault::MissingChunk { key: k, name: v, path: p } && k@ == key && v@ == name
            && p@ == path
    } else {
        f matches IndexFault::UnreadableChunk { key: k, name: v, path: p } && k@ == key && v@
            == name && p@ == path
    }
}

pub open spec fn sound_at(es: Seq<(Seq<char>, Seq<char>)>, files: Seq<ChunkFile>, j: int) -> bool {
    entry_sound(es[j].0, es[j].1, files[j].state)
}

/// The positions that the keys name.
pub open spec fn positions_of(es: Seq<(Seq<char>, Seq<char>)>) -> Seq<usize> {
    Seq::new(
        es.len(),
        |j: int|
            match key_position(es[j].0) {
                Some(p) => p,
                None => 0,
            },
    )
}

/// How many times `k` occurs in `ps`.
pub open spec fn count_of(ps: Seq<usize>, k: int) -> nat
    decreases ps.len(),
{
    if ps.len() == 0 {
        0
    } else {
        count_of(ps.drop_last(), k) + if ps.last() == k {
            1nat
        } else {
            0nat
        }
    }
}

/// The positions are `0, 1, ..., n - 1` in some order, each once.
pub open spec fn is_sequence(ps: Seq<usize>) -> bool {
    forall|k: int| 0 <= k < ps.len() ==> #[trigger] count_of(ps, k) == 1
}

/// The least `k` from `from` on that does not occur exactly once, or the
/// length where there is none.
pub open spec fn irregular_from(ps: Seq<usize>, from: int) -> int
    decreases ps.len() - from,
{
    if from < 0 || from >= ps.len() {
        ps.len() as int
    } else if count_of(ps, from) != 1 {
        from
    } else {
        irregular_from(ps, from + 1)
    }
}

/// The least position greater than `k`.
pub open spec fn least_above(ps: Seq<usize>, k: int) -> Option<usize>
    decreases ps.len(),
{
    if ps.len() == 0 {
        None
    } else {
        let m = least_above(ps.drop_last(), k);
        if ps.last() > k && (m is None || ps.last() < m->0) {
            Some(ps.last())
        } else {
            m
        }
    }
}

/// Where the sorted positions first leave `0, 1, 2, ...`: the position
/// expected there, and the one found.
pub open spec fn position_mismatch(ps: Seq<usize>) -> (int, int) {
    let k = irregular_from(ps, 0);
    if count_of(ps, k) == 0 {
        (
            k,
            match least_above(ps, k) {
                Some(p) => p as int,
                None => k,
            },
        )
    } else {
        (k + 1, k)
    }
}

proof fn lemma_count_positive(ps: Seq<usize>, a: int)
    requires
        0 <= a < ps.len(),
    ensures
        count_of(ps, ps[a] as int) >= 1,
    decreases ps.len(),
{
    if a < ps.len() - 1 {
        lemma_count_positive(ps.drop_last(), a);
    }
}

proof fn lemma_count_two(ps: Seq<usize>, a: int, b: int)
    requires
        0 <= a < b < ps.len(),
        ps[a] == ps[b],
    ensures
        count_of(ps, ps[a] as int) >= 2,
    decreases ps.len(),
{
    if b < ps.len() - 1 {
        lemma_count_two(ps.drop_last(), a, b);
    } else {
        lemma_count_positive(ps.drop_last(), a);
    }
}

/// How many of the positions are below `m`.
pub open spec fn count_below(ps: Seq<usize>, m: int) -> nat
    decreases ps.len(),
{
    if ps.len() == 0 {
        0
    } else {
        count_below(ps.drop_last(), m) + if ps.last() < m {
            1nat
        } else {
            0nat
        }
    }
}

proof fn lemma_count_below_step(ps: Seq<usize>, m: int)
    ensures
        count_below(ps, m + 1) == count_below(ps, m) + count_of(ps, m),
        count_below(ps, m) <= ps.len(),
    decreases ps.len(),
{
    if ps.len() > 0 {
        lemma_count_below_step(ps.drop_last(), m);
    }
}

proof fn lemma_count_below_sequence(ps: Seq<usize>, m: int)
    requires
        0 <= m <= ps.len(),
        forall|k: int| 0 <= k < m ==> #[trigger] count_of(ps, k) == 1,
    ensures
        count_below(ps, m) == m,
    decreases m,
{
    if m == 0 {
        lemma_count_below_zero(ps);
    } else {
        lemma_count_below_sequence(ps, m - 1);
        lemma_count_below_step(ps, m - 1);
    }
}

proof fn lemma_count_below_zero(ps: Seq<usize>)
    ensures
        count_below(ps, 0) == 0,
    decreases ps.len(),
{
    if ps.len() > 0 {
        lemma_count_below_zero(ps.drop_last());
    }
}

proof fn lemma_all_below(ps: Seq<usize>, m: int)
    requires
        count_below(ps, m) == ps.len(),
    ensures
        forall|j: int| 0 <= j < ps.len() ==> ps[j] < m,
    decreases ps.len(),
{
    if ps.len() > 0 {
        lemma_count_below_step(ps.drop_last(), m);
        lemma_all_below(ps.drop_last(), m);
        assert forall|j: int| 0 <= j < ps.len() implies ps[j] < m by {
            if j < ps.len() - 1 {
                assert(ps[j] == ps.drop_last()[j]);
            }
        }
    }
}

/// A sequence of positions holds each of `0..n` at exactly one place.
pub proof fn lemma_sequence_is_permutation(ps: Seq<usize>)
    requires
        is_sequence(ps),
    ensures
        forall|j: int| 0 <= j < ps.len() ==> ps[j] < ps.len(),
        forall|a: int, b: int| 0 <= a < ps.len() && 0 <= b < ps.len() && ps[a] == ps[b] ==> a == b,
{
    lemma_count_below_sequence(ps, ps.len() as int);
    lemma_all_below(ps, ps.len() as int);
    assert forall|a: int, b: int|
        0 <= a < ps.len() && 0 <= b < ps.len() && ps[a] == ps[b] implies a == b by {
        if a < b {
            lemma_count_two(ps, a, b);
            assert(count_of(ps, ps[a] as int) == 1);
        } else if b < a {
            lemma_count_two(ps, b, a);
            assert(count_of(ps, ps[b] as int) == 1);
        }
    }
}


/// The digest of the whole file and the chunk names in position order.
pub struct ChunkList {
    pub digest: Vec<u8>,
    pub names: Vec<String>,
}

/// Whether a chunk name stays inside the index's own directory.
pub fn plain_name(name: &String) -> (r: bool)
    ensures
        r == is_plain_name(name@),
{
    let s = name.as_str();
    let n = s.unicode_len();
    let dot = ".".to_owned();
    let dots = "..".to_owned();
    proof {
        reveal_strlit(".");
        reveal_strlit("..");
    }
    if *name == dot || *name == dots {
        return false;
    }
    let mut i: usize = 0;
    while i < n
        invariant
            i <= n,
            n == name@.len(),
            s@ == name@,
            forall|j: int| 0 <= j < i ==> #[trigger] name@[j] != '/' && name@[j] != '\\',
        decreases n - i,
    {
        let c = s.get_char(i);
        if c == '/' || c == '\\' {
            return false;
        }
        i = i + 1;
    }
    true
}

/// The fault of an entry that is not sound.
fn check_entry(key: &String, name: &String, file: &ChunkFile) -> (r: core::result::Result<
    usize,
    IndexFault,
>)
    ensures
        entry_sound(key@, name@, file.state) ==> r == Ok::<usize, IndexFault>(
            key_position(key@)->0,
        ),
        !entry_sound(key@, name@, file.state) ==> (r matches Err(f) && entry_fault(
            f,
            key@,
            name@,
            file.state,
            file.path@,
        )),
{
    let p = match parse_key(key.as_str()) {
        Some(p) => p,
        None => {
            return Err(IndexFault::InvalidKey { key: key.clone() });
        },
    };
    if !plain_name(name) {
        return Err(IndexFault::NestedName { key: key.clone(), name: name.clone() });
    }
    match file.state {
        FileState::Missing => Err(
            IndexFault::MissingChunk { key: key.clone(), name: name.clone(), path: file.path.clone() },
        ),
        FileState::NotAFile => Err(
            IndexFault::UnreadableChunk {
                key: key.clone(),
                name: name.clone(),
                path: file.path.clone(),
            },
        ),
        FileState::File => Ok(p),
    }
}

/// Checks an index against its rules, given what the filesystem holds
/// under each chunk name, and lists the chunks in position order.
pub fn validate_index(doc: &IndexDocument, files: &Vec<ChunkFile>) -> (r: Result<ChunkList>)
    requires
        files@.len() == doc.positions@.len(),
    ensures
        ({
            let es = entries_view(doc.positions@);
            let ps = positions_of(es);
            let n = es.len();
            let hex = is_hex_text(doc.digest@);
            let all_sound = forall|j: int| 0 <= j < n ==> sound_at(es, files@, j);
            &&& !hex ==> (r matches Err(
                Error::InvalidIndexError(IndexFault::InvalidDigest { digest }),
            ) && digest@ == doc.digest@)
            &&& hex && n == 0 ==> r == Err::<ChunkList, Error>(
                Error::InvalidIndexError(IndexFault::Empty),
            )
            &&& hex && n > 0 && !all_sound ==> exists|j: int|
                0 <= j < n && !sound_at(es, files@, j) && (forall|i: int|
                    0 <= i < j ==> sound_at(es, files@, i)) && (r matches Err(
                    Error::InvalidIndexError(f),
                ) && entry_fault(f, es[j].0, es[j].1, files@[j].state, files@[j].path@))
            &&& hex && n > 0 && all_sound && !is_sequence(ps) ==> (r matches Err(
                Error::InvalidIndexError(IndexFault::PositionMismatch { expected, found }),
            ) && (expected as int, found as int) == position_mismatch(ps))
            &&& hex && n > 0 && all_sound && is_sequence(ps) ==> (r matches Ok(list)
                && list.digest@ == hex_bytes(doc.digest@) && list.names@.len() == n && forall|
                j: int,
            |
                0 <= j < n ==> ps[j] < n && (#[trigger] list.names@[ps[j] as int])@ == es[j].1)
        }),
{
    let ghost es = entries_view(doc.positions@);
    let digest = match decode_hex(doc.digest.as_str()) {
        Ok(v) => v,
        Err(_) => {
            return Err(
                Error::InvalidIndexError(IndexFault::InvalidDigest { digest: doc.digest.clone() }),
            );
        },
    };
    let n = doc.positions.len();
    if n == 0 {
        return Err(Error::InvalidIndexError(IndexFault::Empty));
    }
    let ghost ps_all = positions_of(es);
    let mut ps: Vec<usize> = Vec::new();
    let mut j: usize = 0;
    while j < n
        invariant
            is_hex_text(doc.digest@),
            digest@ == hex_bytes(doc.digest@),
            j <= n,
            n == es.len(),
            es == entries_view(doc.positions@),
            files@.len() == n,
            ps_all == positions_of(es),
            ps@ == ps_all.take(j as int),
            forall|i: int| 0 <= i < j ==> sound_at(es, files@, i),
        decreases n - j,
    {
        let entry = &doc.positions[j];
        assert(es[j as int].0 == entry.0@ && es[j as int].1 == entry.1@);
        match check_entry(&entry.0, &entry.1, &files[j]) {
            Ok(p) => {
                ps.push(p);
                assert(ps@ =~= ps_all.take(j as int + 1));
            },
            Err(f) => {
                assert(!sound_at(es, files@, j as int));
                let ghost r = Err::<ChunkList, Error>(Error::InvalidIndexError(f));
                assert(0 <= j < n && !sound_at(es, files@, j as int) && (forall|i: int|
                    0 <= i < j ==> sound_at(es, files@, i)) && (r matches Err(
                    Error::InvalidIndexError(f),
                ) && entry_fault(
                    f,
                    es[j as int].0,
                    es[j as int].1,
                    files@[j as int].state,
                    files@[j as int].path@,
                )));
                return Err(Error::InvalidIndexError(f));
            },
        }
        j = j + 1;
    }
    assert(ps@ =~= ps_all);
    // how many times each of 0..n occurs
    let mut counts: Vec<usize> = Vec::new();
    let mut k: usize = 0;
    while k < n
        invariant
            is_hex_text(doc.digest@),
            digest@ == hex_bytes(doc.digest@),
            n == es.len(),
            es == entries_view(doc.positions@),
            ps@ == positions_of(es),
            forall|i: int| 0 <= i < n ==> sound_at(es, files@, i),
            k <= n,
            counts@.len() == k,
            forall|i: int| 0 <= i < k ==> #[trigger] counts@[i] == 0,
        decreases n - k,
    {
        counts.push(0);
        k = k + 1;
    }
    let mut j: usize = 0;
    while j < n
        invariant
            is_hex_text(doc.digest@),
            digest@ == hex_bytes(doc.digest@),
            n == es.len(),
            es == entries_view(doc.positions@),
            ps@ == positions_of(es),
            forall|i: int| 0 <= i < n ==> sound_at(es, files@, i),
            j <= n,
            ps@.len() == n,
            counts@.len() == n,
            forall|i: int| 0 <= i < n ==> #[trigger] counts@[i] == count_of(ps@.take(j as int), i),
            forall|i: int| 0 <= i < n ==> #[trigger] counts@[i] <= j,
        decreases n - j,
    {
        assert(ps@.take(j as int + 1).drop_last() =~= ps@.take(j as int));
        let p = ps[j];
        if p < n {
            let c = counts[p];
            counts.set(p, c + 1);
        }
        j = j + 1;
    }
    assert(ps@.take(n as int) =~= ps@);
    let mut k: usize = 0;
    while k < n && counts[k] == 1
        invariant
            is_hex_text(doc.digest@),
            digest@ == hex_bytes(doc.digest@),
            n == es.len(),
            es == entries_view(doc.positions@),
            ps@ == positions_of(es),
            forall|i: int| 0 <= i < n ==> sound_at(es, files@, i),
            k <= n,
            ps@.len() == n,
            counts@.len() == n,
            forall|i: int| 0 <= i < n ==> #[trigger] counts@[i] == count_of(ps@, i),
            forall|i: int| 0 <= i < k ==> #[trigger] count_of(ps@, i) == 1,
            irregular_from(ps@, 0) == irregular_from(ps@, k as int),
        decreases n - k,
    {
        k = k + 1;
    }
    if k < n {
        assert(irregular_from(ps@, k as int) == k);
        if counts[k] == 0 {
            let mut least: Option<usize> = None;
            let mut j: usize = 0;
            while j < n
                invariant
                    is_hex_text(doc.digest@),
                    digest@ == hex_bytes(doc.digest@),
                    n == es.len(),
                    es == entries_view(doc.positions@),
                    ps@ == positions_of(es),
                    forall|i: int| 0 <= i < n ==> sound_at(es, files@, i),
                    j <= n,
                    ps@.len() == n,
                    least == least_above(ps@.take(j as int), k as int),
                decreases n - j,
            {
                assert(ps@.take(j as int + 1).drop_last() =~= ps@.take(j as int));
                let p = ps[j];
                if p > k {
                    match least {
                        Some(m) => {
                            if p < m {
                                least = Some(p);
                            }
                        },
                        None => {
                            least = Some(p);
                        },
                    }
                }
                j = j + 1;
            }
            assert(ps@.take(n as int) =~= ps@);
            let found = match least {
                Some(p) => p,
                None => k,
            };
            return Err(
                Error::InvalidIndexError(IndexFault::PositionMismatch { expected: k, found }),
            );
        } else {
            return Err(
                Error::InvalidIndexError(IndexFault::PositionMismatch { expected: k + 1, found: k }),
            );
        }
    }
    assert(irregular_from(ps@, n as int) == n);
    proof {
        lemma_sequence_is_permutation(ps@);
    }
    let mut names: Vec<String> = Vec::new();
    let mut k: usize = 0;
    while k < n
        invariant
            is_hex_text(doc.digest@),
            digest@ == hex_bytes(doc.digest@),
            n == es.len(),
            es == entries_view(doc.positions@),
            ps@ == positions_of(es),
            forall|i: int| 0 <= i < n ==> sound_at(es, files@, i),
            k <= n,
            names@.len() == k,
        decreases n - k,
    {
        names.push(String::new());
        k = k + 1;
    }
    let mut j: usize = 0;
    while j < n
        invariant
            is_hex_text(doc.digest@),
            digest@ == hex_bytes(doc.digest@),
            n == es.len(),
            es == entries_view(doc.positions@),
            ps@ == positions_of(es),
            forall|i: int| 0 <= i < n ==> sound_at(es, files@, i),
            j <= n,
            names@.len() == n,
            forall|a: int| 0 <= a < n ==> ps@[a] < n,
            forall|a: int, b: int| 0 <= a < n && 0 <= b < n && ps@[a] == ps@[b] ==> a == b,
            forall|i: int| 0 <= i < j ==> (#[trigger] names@[ps@[i] as int])@ == es[i].1,
        decreases n - j,
    {
        let p = ps[j];
        names.set(p, doc.positions[j].1.clone());
        j = j + 1;
    }
    Ok(ChunkList { digest, names })
}

} // verus!

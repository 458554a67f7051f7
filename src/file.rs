//! Unfolding a file into chunks and an index, and folding them back.
//!
//! The filesystem stays with the caller: unfolding yields the list of
//! effects to carry out in order, and folding takes the index, what the
//! filesystem holds under each chunk name, and the chunks' bytes one by one.
use vstd::prelude::*;

use crate::checksum::{checksum, compare_digest, sha256_of};
use crate::codec::{encode_hex, hex_bytes, hex_of, is_hex_text, key_text, position_key};
use crate::errors::{Corruption, Error, InputFault, OutputFault, ReadFault, Result};
use crate::index::{digest_key, index_document, ChunkList};
use crate::text::{decimal_of, decimal_text};
use crate::yaml::{entries_view, yaml_of_index};

verus! {

#[derive(Debug, Clone, Copy, PartialEq, Eq, Structural, PartialOrd, Ord)]
pub enum Action {
    Fold,
    Unfold,
}

/// An event reported while a file is unfolded or folded; chunks count
/// from 1.
#[derive(Debug, Clone, Copy, PartialEq, Eq, Structural, PartialOrd, Ord)]
pub enum Progress {
    Start(Action),
    Chunk { index: usize, count: usize, action: Action },
    End(Action),
}

pub open spec fn action_text(a: Action) -> Seq<char> {
    match a {
        Action::Fold => "Fold"@,
        Action::Unfold => "Unfold"@,
    }
}

/// How a progress event reads: `Unfold start`, `Fold chunk 3/45`,
/// `Unfold end`.
pub open spec fn progress_text(p: Progress) -> Seq<char> {
    match p {
        Progress::Start(a) => action_text(a) + " start"@,
        Progress::End(a) => action_text(a) + " end"@,
        Progress::Chunk { index, count, action } => action_text(action) + " chunk "@ + decimal_of(
            index as nat,
        ) + "/"@ + decimal_of(count as nat),
    }
}

impl Action {
    pub fn text(&self) -> (r: String)
        ensures
            r@ == action_text(*self),
    {
        match self {
            Action::Fold => "Fold".to_owned(),
            Action::Unfold => "Unfold".to_owned(),
        }
    }
}

impl Progress {
    pub fn text(&self) -> (r: String)
        ensures
            r@ == progress_text(*self),
    {
        match self {
            Progress::Start(a) => {
                let mut r = a.text();
                r.append(" start");
                r
            },
            Progress::End(a) => {
                let mut r = a.text();
                r.append(" end");
                r
            },
            Progress::Chunk { index, count, action } => {
                let mut r = action.text();
                r.append(" chunk ");
                r.append(decimal_text(*index as u64).as_str());
                r.append("/");
                r.append(decimal_text(*count as u64).as_str());
                r
            },
        }
    }
}

/// The largest chunk: the largest length a 16-bit field holds.
pub const MAX_CHUNK_SIZE: usize = 65535;

/// The largest file that is unfolded.
pub const MAX_FILE_SIZE: u64 = 4294967295;

/// How many chunks a file of `len` bytes is cut into; an empty file still
/// has one, empty, chunk.
pub open spec fn chunk_count_of(len: nat) -> nat {
    if len <= MAX_CHUNK_SIZE {
        1
    } else {
        ((len + MAX_CHUNK_SIZE - 1) as int / MAX_CHUNK_SIZE as int) as nat
    }
}

pub open spec fn min(a: int, b: int) -> int {
    if a <= b {
        a
    } else {
        b
    }
}

/// The chunk at position `k`: the bytes from `k * 65535` on, at most 65535
/// of them.
pub open spec fn chunk_at(b: Seq<u8>, k: int) -> Seq<u8> {
    b.subrange(min(k * MAX_CHUNK_SIZE, b.len() as int), min((k + 1) * MAX_CHUNK_SIZE, b.len() as int))
}

pub open spec fn chunks_of(b: Seq<u8>) -> Seq<Seq<u8>> {
    Seq::new(chunk_count_of(b.len()), |k: int| chunk_at(b, k))
}

/// The file name of a chunk: the hex text of its digest.
pub open spec fn chunk_name(c: Seq<u8>) -> Seq<char> {
    hex_of(sha256_of(c))
}

/// The chunks one after the other.
pub open spec fn joined(cs: Seq<Seq<u8>>) -> Seq<u8>
    decreases cs.len(),
{
    if cs.len() == 0 {
        Seq::empty()
    } else {
        joined(cs.drop_last()) + cs.last()
    }
}

/// The entries of the index of a file: its digest, then the name of each
/// chunk under the key of its position.
pub open spec fn index_entries_of(b: Seq<u8>) -> Seq<(Seq<char>, Seq<char>)> {
    seq![(digest_key(), hex_of(sha256_of(b)))] + Seq::new(
        chunk_count_of(b.len()),
        |k: int| (key_text(k as nat), chunk_name(chunk_at(b, k))),
    )
}

pub proof fn lemma_chunk_count(len: nat)
    ensures
        chunk_count_of(len) >= 1,
        len <= chunk_count_of(len) * MAX_CHUNK_SIZE,
        len == 0 || (chunk_count_of(len) - 1) * MAX_CHUNK_SIZE < len,
{
    let m = MAX_CHUNK_SIZE as int;
    if len > m {
        let n = (len + m - 1) / m;
        assert(n * m <= len + m - 1 && len + m - 1 < n * m + m) by (nonlinear_arith)
            requires
                n == (len + m - 1) / m,
                m > 0,
        ;
        assert((n - 1) * m == n * m - m) by (nonlinear_arith);
    }
}

/// How many chunks a file of `len` bytes is cut into.
pub fn chunk_count(len: usize) -> (r: usize)
    ensures
        r == chunk_count_of(len as nat),
{
    if len <= MAX_CHUNK_SIZE {
        1
    } else {
        let q = len / MAX_CHUNK_SIZE;
        let r = len % MAX_CHUNK_SIZE;
        assert(((len + MAX_CHUNK_SIZE - 1) as int / MAX_CHUNK_SIZE as int) == q + if r == 0 {
            0int
        } else {
            1int
        }) by (nonlinear_arith)
            requires
                q == len as int / MAX_CHUNK_SIZE as int,
                r == len as int % MAX_CHUNK_SIZE as int,
                MAX_CHUNK_SIZE == 65535,
        ;
        if r == 0 {
            q
        } else {
            q + 1
        }
    }
}

/// One thing to do, in order, to unfold a file.
pub enum UnfoldEffect {
    Report(Progress),
    /// Write the file's bytes `start..end` under `name`.
    WriteChunk { name: String, start: usize, end: usize },
    /// Write the index text under the name `index`.
    WriteIndex(String),
}

/// The effects of unfolding `b`, whose chunks number `n`: the opening
/// event, two for each chunk (its event, then its write), the index, and
/// the closing event.
pub open spec fn unfold_effects_of(b: Seq<u8>, effects: Seq<UnfoldEffect>) -> bool {
    let n = chunk_count_of(b.len()) as int;
    &&& effects.len() == 2 * n + 3
    &&& effects[0] == UnfoldEffect::Report(Progress::Start(Action::Unfold))
    &&& forall|k: int|
        0 <= k < n ==> #[trigger] effects[2 * k + 1] == UnfoldEffect::Report(
            Progress::Chunk { index: (k + 1) as usize, count: n as usize, action: Action::Unfold },
        )
    &&& forall|k: int|
        0 <= k < n ==> (#[trigger] effects[2 * k + 2] matches UnfoldEffect::WriteChunk {
            name,
            start,
            end,
        } && start == min(k * MAX_CHUNK_SIZE, b.len() as int) && end == min(
            (k + 1) * MAX_CHUNK_SIZE,
            b.len() as int,
        ) && name@ == chunk_name(chunk_at(b, k)))
    &&& effects[2 * n + 1] matches UnfoldEffect::WriteIndex(text) && yaml_of_index(
        index_entries_of(b),
    ) == Some(text@)
    &&& effects[2 * n + 2] == UnfoldEffect::Report(Progress::End(Action::Unfold))
}

/// The effects that unfold `bytes`: `Start(Unfold)`; for each chunk in
/// order, its progress event and its write; then the index; then
/// `End(Unfold)`. Fails only where the index cannot be written as YAML.
pub fn unfold_effects(bytes: &[u8]) -> (r: Result<Vec<UnfoldEffect>>)
    ensures
        r is Ok <==> yaml_of_index(index_entries_of(bytes@)) is Some,
        r matches Ok(effects) ==> unfold_effects_of(bytes@, effects@),
        r matches Err(e) ==> e matches Error::FlattenFileOutputError(
            OutputFault::IndexNotSerialized { .. },
        ),
{
    let ghost b = bytes@;
    let len = bytes.len();
    let n = chunk_count(len);
    proof {
        lemma_chunk_count(len as nat);
    }
    let digest = checksum(bytes);
    let mut entries: Vec<(String, String)> = Vec::new();
    entries.push(("sha256".to_owned(), encode_hex(digest.as_slice())));
    let mut effects: Vec<UnfoldEffect> = Vec::new();
    effects.push(UnfoldEffect::Report(Progress::Start(Action::Unfold)));
    let mut k: usize = 0;
    let mut start: usize = 0;
    while k < n
        invariant
            b == bytes@,
            len == b.len(),
            n == chunk_count_of(len as nat),
            len == 0 || (n - 1) * MAX_CHUNK_SIZE < len,
            len <= n * MAX_CHUNK_SIZE,
            k <= n,
            start == min(k * MAX_CHUNK_SIZE, len as int),
            effects@.len() == 2 * k + 1,
            effects@[0] == UnfoldEffect::Report(Progress::Start(Action::Unfold)),
            entries@.len() == k + 1,
            entries@[0].0@ == digest_key(),
            entries@[0].1@ == hex_of(sha256_of(b)),
            forall|i: int|
                0 <= i < k ==> #[trigger] effects@[2 * i + 1] == UnfoldEffect::Report(
                    Progress::Chunk {
                        index: (i + 1) as usize,
                        count: n as usize,
                        action: Action::Unfold,
                    },
                ),
            forall|i: int|
                0 <= i < k ==> (#[trigger] effects@[2 * i + 2] matches UnfoldEffect::WriteChunk {
                    name,
                    start,
                    end,
                } && start == min(i * MAX_CHUNK_SIZE, len as int) && end == min(
                    (i + 1) * MAX_CHUNK_SIZE,
                    len as int,
                ) && name@ == chunk_name(chunk_at(b, i))),
            forall|i: int|
                0 <= i < k ==> (#[trigger] entries@[i + 1]).0@ == key_text(i as nat)
                    && entries@[i + 1].1@ == chunk_name(chunk_at(b, i)),
        decreases n - k,
    {
        let end = if len - start > MAX_CHUNK_SIZE {
            start + MAX_CHUNK_SIZE
        } else {
            len
        };
        assert(end == min((k + 1) * MAX_CHUNK_SIZE, len as int));
        let chunk = vstd::slice::slice_subrange(bytes, start, end);
        let name = encode_hex(checksum(chunk).as_slice());
        let ghost before = effects@;
        effects.push(
            UnfoldEffect::Report(
                Progress::Chunk { index: k + 1, count: n, action: Action::Unfold },
            ),
        );
        effects.push(UnfoldEffect::WriteChunk { name: name.clone(), start, end });
        entries.push((position_key(k), name));
        assert forall|i: int| 0 <= i < k + 1 implies #[trigger] effects@[2 * i + 1]
            == UnfoldEffect::Report(
            Progress::Chunk { index: (i + 1) as usize, count: n as usize, action: Action::Unfold },
        ) by {
            if i < k {
                assert(effects@[2 * i + 1] == before[2 * i + 1]);
            }
        }
        assert forall|i: int| 0 <= i < k + 1 implies (#[trigger] effects@[2 * i
            + 2] matches UnfoldEffect::WriteChunk { name, start, end } && start == min(
            i * MAX_CHUNK_SIZE,
            len as int,
        ) && end == min((i + 1) * MAX_CHUNK_SIZE, len as int) && name@ == chunk_name(
            chunk_at(b, i),
        )) by {
            if i < k {
                assert(effects@[2 * i + 2] == before[2 * i + 2]);
            }
        }
        k = k + 1;
        start = end;
    }
    assert(entries_view(entries@) =~= index_entries_of(b));
    let text = index_document(&entries)?;
    effects.push(UnfoldEffect::WriteIndex(text));
    effects.push(UnfoldEffect::Report(Progress::End(Action::Unfold)));
    Ok(effects)
}

/// The check of the source and destination paths of an unfold: the source
/// must be a regular file, the destination must not exist, and the file
/// must not be larger than `MAX_FILE_SIZE`, in that order.
pub fn check_unfold_paths(
    input: String,
    input_is_file: bool,
    output: String,
    output_exists: bool,
    size: u64,
) -> (r: Result<()>)
    ensures
        !input_is_file ==> (r matches Err(
            Error::FlattenFileInputError(InputFault::NotAFile { path }),
        ) && path == input),
        input_is_file && output_exists ==> (r matches Err(
            Error::FlattenFileOutputError(OutputFault::AlreadyExists { path }),
        ) && path == output),
        input_is_file && !output_exists && size > MAX_FILE_SIZE ==> (r matches Err(
            Error::FlattenFileInputError(InputFault::TooLarge { path, size: s }),
        ) && path == input && s == size),
        input_is_file && !output_exists && size <= MAX_FILE_SIZE ==> r is Ok,
{
    if !input_is_file {
        Err(Error::FlattenFileInputError(InputFault::NotAFile { path: input }))
    } else if output_exists {
        Err(Error::FlattenFileOutputError(OutputFault::AlreadyExists { path: output }))
    } else if size > MAX_FILE_SIZE {
        Err(Error::FlattenFileInputError(InputFault::TooLarge { path: input, size }))
    } else {
        Ok(())
    }
}

/// The check of the source and destination paths of a fold: the source
/// must be a directory and the destination must not exist. Hands out the
/// event that opens the fold.
pub fn check_fold_paths(input: String, input_is_dir: bool, output: String, output_exists: bool) -> (r:
    Result<Progress>)
    ensures
        !input_is_dir ==> (r matches Err(
            Error::UnflattenFileInputError(InputFault::NotADirectory { path }),
        ) && path == input),
        input_is_dir && output_exists ==> (r matches Err(
            Error::UnflattenFileOutputError(OutputFault::AlreadyExists { path }),
        ) && path == output),
        input_is_dir && !output_exists ==> r == Ok::<Progress, Error>(
            Progress::Start(Action::Fold),
        ),
{
    if !input_is_dir {
        Err(Error::UnflattenFileInputError(InputFault::NotADirectory { path: input }))
    } else if output_exists {
        Err(Error::UnflattenFileOutputError(OutputFault::AlreadyExists { path: output }))
    } else {
        Ok(Progress::Start(Action::Fold))
    }
}

/// The check of the index file of a chunk directory, before it is read.
pub fn check_index_file(path: String, exists: bool, is_file: bool) -> (r: Result<()>)
    ensures
        !exists ==> r == Err::<(), Error>(Error::MissingIndexError(path)),
        exists && !is_file ==> r == Err::<(), Error>(
            Error::UnreadableIndexError(ReadFault::NotAFile { path }),
        ),
        exists && is_file ==> r is Ok,
{
    if !exists {
        Err(Error::MissingIndexError(path))
    } else if !is_file {
        Err(Error::UnreadableIndexError(ReadFault::NotAFile { path }))
    } else {
        Ok(())
    }
}

/// A fold under way: the chunks checked and joined so far.
pub struct Assembly {
    pub digest: Vec<u8>,
    pub names: Vec<String>,
    pub next: usize,
    pub bytes: Vec<u8>,
}

/// The error for a chunk named `name` whose bytes are `data`, if any.
pub open spec fn chunk_error(e: Error, name: Seq<char>, path: Seq<char>, data: Seq<u8>) -> bool {
    if !is_hex_text(name) {
        e matches Error::CorruptedDataError(Corruption::InvalidChunkName { name: n, path: p })
            && n@ == name && p@ == path
    } else {
        &&& e matches Error::CorruptedDataError(Corruption::Chunk { name: n, path: p, mismatch })
        &&& n@ == name
        &&& p@ == path
        &&& mismatch.expected@ == hex_of(hex_bytes(name))
        &&& mismatch.actual@ == hex_of(sha256_of(data))
    }
}

/// A chunk whose name is the hex text of its own digest.
pub open spec fn chunk_matches(name: Seq<char>, data: Seq<u8>) -> bool {
    is_hex_text(name) && sha256_of(data) == hex_bytes(name)
}

impl Assembly {
    /// Starts a fold of the chunks of a checked index.
    pub fn new(list: ChunkList) -> (r: Assembly)
        ensures
            r.digest@ == list.digest@,
            r.names@ == list.names@,
            r.next == 0,
            r.bytes@ == Seq::<u8>::empty(),
    {
        Assembly { digest: list.digest, names: list.names, next: 0, bytes: Vec::new() }
    }

    /// How many chunks the fold takes.
    pub fn count(&self) -> (r: usize)
        ensures
            r == self.names@.len(),
    {
        self.names.len()
    }

    /// Checks that the name of the next chunk is hex text, before its bytes
    /// are read.
    pub fn check_next_name(&self, path: &String) -> (r: Result<()>)
        requires
            self.next < self.names@.len(),
        ensures
            r is Ok <==> is_hex_text(self.names@[self.next as int]@),
            r matches Err(e) ==> (e matches Error::CorruptedDataError(
                Corruption::InvalidChunkName { name, path: p },
            ) && name@ == self.names@[self.next as int]@ && p@ == path@),
    {
        let name = &self.names[self.next];
        match crate::codec::decode_hex(name.as_str()) {
            Ok(_) => Ok(()),
            Err(_) => Err(
                Error::CorruptedDataError(
                    Corruption::InvalidChunkName { name: name.clone(), path: path.clone() },
                ),
            ),
        }
    }

    /// Checks the bytes of the next chunk, read from `path`, against its
    /// name and appends them; returns the progress event to report.
    pub fn add_chunk(&mut self, path: &String, data: &[u8]) -> (r: Result<Progress>)
        requires
            old(self).next < old(self).names@.len(),
        ensures
            final(self).digest@ == old(self).digest@,
            final(self).names@ == old(self).names@,
            ({
                let name = old(self).names@[old(self).next as int]@;
                &&& chunk_matches(name, data@) ==> {
                    &&& r == Ok::<Progress, Error>(
                        Progress::Chunk {
                            index: (old(self).next + 1) as usize,
                            count: old(self).names@.len() as usize,
                            action: Action::Fold,
                        },
                    )
                    &&& final(self).next == old(self).next + 1
                    &&& final(self).bytes@ == old(self).bytes@ + data@
                }
                &&& !chunk_matches(name, data@) ==> {
                    &&& r matches Err(e) && chunk_error(e, name, path@, data@)
                    &&& final(self).next == old(self).next
                    &&& final(self).bytes@ == old(self).bytes@
                }
            }),
    {
        let next = self.next;
        let count = self.names.len();
        let name = &self.names[next];
        let expected = match crate::codec::decode_hex(name.as_str()) {
            Ok(v) => v,
            Err(_) => {
                return Err(
                    Error::CorruptedDataError(
                        Corruption::InvalidChunkName { name: name.clone(), path: path.clone() },
                    ),
                );
            },
        };
        let actual = checksum(data);
        match compare_digest(actual.as_slice(), expected.as_slice()) {
            Ok(()) => {},
            Err(Error::ChecksumMismatch(mismatch)) => {
                return Err(
                    Error::CorruptedDataError(
                        Corruption::Chunk { name: name.clone(), path: path.clone(), mismatch },
                    ),
                );
            },
            Err(e) => {
                return Err(e);
            },
        }
        self.bytes.extend_from_slice(data);
        self.next = next + 1;
        Ok(Progress::Chunk { index: next + 1, count, action: Action::Fold })
    }

    /// Checks the joined bytes against the digest of the whole file and
    /// hands them out, with the event that closes the fold.
    pub fn finish(self) -> (r: Result<(Vec<u8>, Progress)>)
        ensures
            sha256_of(self.bytes@) == self.digest@ ==> (r matches Ok((v, p)) && v@ == self.bytes@
                && p == Progress::End(Action::Fold)),
            sha256_of(self.bytes@) != self.digest@ ==> (r matches Err(
                Error::CorruptedDataError(Corruption::Whole { mismatch }),
            ) && mismatch.expected@ == hex_of(self.digest@) && mismatch.actual@ == hex_of(
                sha256_of(self.bytes@),
            )),
    {
        let actual = checksum(self.bytes.as_slice());
        match compare_digest(actual.as_slice(), self.digest.as_slice()) {
            Ok(()) => Ok((self.bytes, Progress::End(Action::Fold))),
            Err(Error::ChecksumMismatch(mismatch)) => Err(
                Error::CorruptedDataError(Corruption::Whole { mismatch }),
            ),
            Err(e) => Err(e),
        }
    }
}

} // verus!

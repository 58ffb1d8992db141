//! What an upload to S3 consists of: the object key of the archive and the parts of the
//! multipart upload.

use crate::config::{
    is_key_char, lemma_sanitized_is_clean, sanitize_filename, sanitized, MAX_FILENAME_CHARS,
};
use aws_sdk_s3::types::builders::CompletedMultipartUploadBuilder;
use aws_sdk_s3::types::{CompletedMultipartUpload, CompletedPart};
use vstd::prelude::*;

verus! {

/// In bytes, minimum chunk size of 5MB. Increase `CHUNK_SIZE` to send larger chunks.
pub const CHUNK_SIZE: u64 = 1024 * 1024 * 5;

/// AWS will not accept an upload with more chunks than this.
pub const MAX_CHUNKS: u64 = 10000;

/// The extension of every uploaded archive.
pub open spec fn archive_extension() -> Seq<char> {
    ".tar.gz"@
}

/// Whether `s` ends with `suffix`.
pub open spec fn ends_with(s: Seq<char>, suffix: Seq<char>) -> bool {
    suffix.len() <= s.len() && s.subrange(s.len() - suffix.len(), s.len() as int) == suffix
}

/// Whether the last characters of `name` are, one by one, those of `.tar.gz`.
pub open spec fn has_archive_extension_chars(name: Seq<char>) -> bool {
    let e = ".tar.gz"@;
    e.len() <= name.len() && forall|j: int|
        0 <= j < e.len() ==> #[trigger] name[name.len() - e.len() + j] == e[j]
}

/// A sequence ends with a suffix exactly when it is at least as long and its last characters
/// are those of the suffix, one by one.
pub proof fn lemma_ends_with_by_chars(s: Seq<char>, t: Seq<char>)
    ensures
        ends_with(s, t) == (t.len() <= s.len() && forall|j: int|
            0 <= j < t.len() ==> #[trigger] s[s.len() - t.len() + j] == t[j]),
{
    if t.len() <= s.len() {
        let tail = s.subrange(s.len() - t.len(), s.len() as int);
        if forall|j: int| 0 <= j < t.len() ==> #[trigger] s[s.len() - t.len() + j] == t[j] {
            assert forall|j: int| 0 <= j < t.len() implies tail[j] == t[j] by {
                assert(s[s.len() - t.len() + j] == t[j]);
            }
            assert(tail =~= t);
        }
        if tail == t {
            assert forall|j: int| 0 <= j < t.len() implies #[trigger] s[s.len() - t.len() + j]
                == t[j] by {
                assert(tail[j] == t[j]);
            }
        }
    }
}

/// The archive name keeps a name whose last characters are `.tar.gz` and appends `.tar.gz` to
/// every other name.
pub proof fn lemma_with_extension_by_chars(name: Seq<char>)
    ensures
        has_archive_extension_chars(name) ==> with_extension(name) == name,
        !has_archive_extension_chars(name) ==> with_extension(name) == name + ".tar.gz"@,
{
    lemma_ends_with_by_chars(name, ".tar.gz"@);
}

/// `name` with the archive extension appended, unless it already ends with it.
pub open spec fn with_extension(name: Seq<char>) -> Seq<char> {
    if ends_with(name, archive_extension()) {
        name
    } else {
        name + archive_extension()
    }
}

/// The key used when no archive name was asked for: `awsbck_`, the sanitized name of the
/// folder (`backup` when the folder has no name), and the archive extension.
pub open spec fn default_key(folder_name: Option<String>) -> Seq<char> {
    let base = match folder_name {
        Some(f) => sanitized(f@),
        None => "backup"@,
    };
    "awsbck_"@ + base + archive_extension()
}

/// The object key of the uploaded archive.
pub open spec fn object_key(filename: Option<String>, folder_name: Option<String>) -> Seq<char> {
    match filename {
        Some(f) => with_extension(f@),
        None => default_key(folder_name),
    }
}

/// Whether `s` ends with `suffix`.
pub fn str_ends_with(s: &str, suffix: &str) -> (res: bool)
    ensures
        res == ends_with(s@, suffix@),
        res == (suffix@.len() <= s@.len() && forall|j: int|
            0 <= j < suffix@.len() ==> #[trigger] s@[s@.len() - suffix@.len() + j] == suffix@[j]),
{
    proof {
        lemma_ends_with_by_chars(s@, suffix@);
    }
    let n: usize = s.unicode_len();
    let m: usize = suffix.unicode_len();
    if m > n {
        return false;
    }
    let start: usize = n - m;
    let mut i: usize = 0;
    while i < m
        invariant
            n == s@.len(),
            m == suffix@.len(),
            start == n - m,
            i <= m,
            forall|j: int| 0 <= j < i ==> s@[start + j] == suffix@[j],
        decreases m - i,
    {
        if s.get_char(start + i) != suffix.get_char(i) {
            assert(s@.subrange(start as int, n as int)[i as int] != suffix@[i as int]);
            return false;
        }
        i = i + 1;
    }
    assert(s@.subrange(start as int, n as int) =~= suffix@);
    true
}

/// Appends the archive extension to `name` if it is not already there.
pub fn with_archive_extension(name: String) -> (res: String)
    ensures
        res@ == with_extension(name@),
        has_archive_extension_chars(name@) ==> res@ == name@,
        !has_archive_extension_chars(name@) ==> res@ == name@ + ".tar.gz"@,
{
    proof {
        lemma_with_extension_by_chars(name@);
    }
    let ext = ".tar.gz";
    if str_ends_with(name.as_str(), ext) {
        name
    } else {
        let mut res = name;
        res.append(ext);
        res
    }
}

/// The default archive key: `awsbck_` + the sanitized folder name + `.tar.gz`.
pub fn default_archive_name(folder_name: Option<String>) -> (res: String)
    ensures
        res@ == default_key(folder_name),
{
    let base = match &folder_name {
        Some(f) => sanitize_filename(f.as_str()),
        None => String::from_str("backup"),
    };
    let mut res = String::from_str("awsbck_");
    res.append(base.as_str());
    res.append(".tar.gz");
    res
}

/// The object key of the archive: the archive name that was asked for, with the extension
/// appended in case it was not already provided, or else the default name built from the name
/// of the folder.
pub fn archive_key(filename: Option<String>, folder_name: Option<String>) -> (res: String)
    ensures
        res@ == object_key(filename, folder_name),
{
    match filename {
        Some(f) => with_archive_extension(f),
        None => default_archive_name(folder_name),
    }
}

/// Every object key ends with the archive extension.
pub proof fn lemma_key_has_extension(filename: Option<String>, folder_name: Option<String>)
    ensures
        ends_with(object_key(filename, folder_name), archive_extension()),
{
    let k = object_key(filename, folder_name);
    match filename {
        Some(f) => {
            if !ends_with(f@, archive_extension()) {
                assert(k.subrange(k.len() - archive_extension().len(), k.len() as int) =~= archive_extension());
            }
        },
        None => {
            assert(k.subrange(k.len() - archive_extension().len(), k.len() as int) =~= archive_extension());
        },
    }
}

/// Appending the extension a second time changes nothing.
pub proof fn lemma_with_extension_idempotent(name: Seq<char>)
    ensures
        with_extension(with_extension(name)) == with_extension(name),
{
    let w = with_extension(name);
    if !ends_with(name, archive_extension()) {
        assert(w.subrange(w.len() - archive_extension().len(), w.len() as int) =~= archive_extension());
    }
}


/// The number of chunks a file of `size` bytes is cut into.
pub open spec fn chunk_count_for(size: nat) -> nat {
    if size % (CHUNK_SIZE as nat) == 0 {
        size / (CHUNK_SIZE as nat)
    } else {
        size / (CHUNK_SIZE as nat) + 1
    }
}

/// The size of the last chunk of a file of `size` bytes: a whole chunk when the size is a
/// multiple of the chunk size, else what is left over.
pub open spec fn last_chunk_size_for(size: nat) -> nat {
    if size % (CHUNK_SIZE as nat) == 0 {
        CHUNK_SIZE as nat
    } else {
        size % (CHUNK_SIZE as nat)
    }
}

/// Where chunk `i` starts in the file.
pub open spec fn chunk_offset(i: nat) -> nat {
    i * (CHUNK_SIZE as nat)
}

/// How many bytes chunk `i` of a file of `size` bytes holds.
pub open spec fn chunk_length(size: nat, i: nat) -> nat {
    if i + 1 == chunk_count_for(size) {
        last_chunk_size_for(size)
    } else {
        CHUNK_SIZE as nat
    }
}

proof fn lemma_ceiling_facts(size: int, q: int, r: int, c: int, i: int)
    by (nonlinear_arith)
    requires
        c > 0,
        size > 0,
        size == c * q + r,
        0 <= r < c,
        0 <= i,
        r == 0 ==> i < q,
        r > 0 ==> i <= q,
    ensures
        i * c < size,
        (i + 1) * c == i * c + c,
        r == 0 ==> (i + 1 < q ==> (i + 1) * c < size) && (i + 1 == q ==> (i + 1) * c == size),
        r > 0 ==> (i < q ==> (i + 1) * c <= q * c) && (i == q ==> size < (i + 1) * c),
        q * c <= size,
{
}

/// The chunk count is the ceiling of the size over the chunk size: the chunks before the last
/// start inside the file, and all of them together reach its end.
pub proof fn lemma_chunk_count_is_ceiling(size: nat)
    requires
        0 < size,
    ensures
        (chunk_count_for(size) - 1) * CHUNK_SIZE < size,
        size <= chunk_count_for(size) * CHUNK_SIZE,
{
    let c: int = CHUNK_SIZE as int;
    vstd::arithmetic::div_mod::lemma_fundamental_div_mod(size as int, c);
    let q: int = size as int / c;
    let r: int = size as int % c;
    if r == 0 {
        assert(q >= 1) by (nonlinear_arith)
            requires
                size == c * q,
                size > 0,
                c > 0,
        ;
        lemma_ceiling_facts(size as int, q, r, c, q - 1);
    } else {
        lemma_ceiling_facts(size as int, q, r, c, q);
    }
}

/// Chunk `i` of a file is the slice of it that starts at `i * CHUNK_SIZE` and holds a whole
/// chunk when one fits before the end of the file, else the rest of the file; its part number
/// is `i + 1`.
pub proof fn lemma_chunk_is_slice_of_file(size: nat, i: nat, c: Chunk)
    requires
        0 < size,
        i < chunk_count_for(size),
        is_chunk(size, i, c),
    ensures
        c.index == i,
        c.part_number == i + 1,
        i * CHUNK_SIZE < size,
        c.offset == i * CHUNK_SIZE,
        (i + 1) * CHUNK_SIZE <= size ==> c.length == CHUNK_SIZE,
        size < (i + 1) * CHUNK_SIZE ==> c.length == size - i * CHUNK_SIZE,
{
    let cs: int = CHUNK_SIZE as int;
    vstd::arithmetic::div_mod::lemma_fundamental_div_mod(size as int, cs);
    let q: int = size as int / cs;
    let r: int = size as int % cs;
    lemma_ceiling_facts(size as int, q, r, cs, i as int);
}

/// Why a file cannot be uploaded in parts.
#[derive(Debug, Clone, Copy, PartialEq, Eq, Structural)]
pub enum UploadError {
    /// The file is empty: something went very wrong.
    EmptyFile,
    /// The file needs more than `MAX_CHUNKS` chunks.
    TooManyChunks,
}

impl UploadError {
    /// The message shown for this error.
    pub fn message(&self) -> (res: String)
        ensures
            res@ == (match *self {
                UploadError::EmptyFile => "file size is 0"@,
                UploadError::TooManyChunks => "too many chunks, try increasing the chunk size"@,
            }),
    {
        match self {
            UploadError::EmptyFile => String::from_str("file size is 0"),
            UploadError::TooManyChunks => String::from_str(
                "too many chunks, try increasing the chunk size",
            ),
        }
    }
}

/// How a non-empty file of at most `MAX_CHUNKS` chunks is cut into chunks.
pub struct ChunkPlan {
    file_size: u64,
    chunk_count: u64,
    last_chunk_size: u64,
}

impl View for ChunkPlan {
    /// The size of the file the plan cuts.
    type V = nat;

    closed spec fn view(&self) -> nat {
        self.file_size as nat
    }
}

/// One part of a multipart upload.
#[derive(Debug, Clone, Copy, PartialEq, Eq, Structural)]
pub struct Chunk {
    /// Its index, from 0.
    pub index: u64,
    /// Where it starts in the file.
    pub offset: u64,
    /// How many bytes it holds.
    pub length: u64,
    /// Its part number in the upload, from 1.
    pub part_number: i32,
}

/// `c` is chunk `i` of a file of `size` bytes.
pub open spec fn is_chunk(size: nat, i: nat, c: Chunk) -> bool {
    &&& c.index == i
    &&& c.offset == chunk_offset(i)
    &&& c.length == chunk_length(size, i)
    &&& c.part_number == i + 1
}

impl ChunkPlan {
    #[verifier::type_invariant]
    spec fn well_formed(self) -> bool {
        &&& 0 < self.file_size
        &&& self.chunk_count == chunk_count_for(self.file_size as nat)
        &&& self.last_chunk_size == last_chunk_size_for(self.file_size as nat)
        &&& self.chunk_count <= MAX_CHUNKS
    }

    /// The size of the file.
    pub fn file_size(&self) -> (res: u64)
        ensures
            res == self@,
            0 < res,
    {
        proof {
            use_type_invariant(self);
        }
        self.file_size
    }

    /// How many chunks the file is cut into.
    pub fn chunk_count(&self) -> (res: u64)
        ensures
            res == chunk_count_for(self@),
            1 <= res <= MAX_CHUNKS,
    {
        proof {
            use_type_invariant(self);
            lemma_chunks_tile_file(self@);
        }
        self.chunk_count
    }

    /// The size of the last chunk.
    pub fn last_chunk_size(&self) -> (res: u64)
        ensures
            res == last_chunk_size_for(self@),
    {
        proof {
            use_type_invariant(self);
        }
        self.last_chunk_size
    }

    /// Chunk `index` of the file: which part of it is sent, and under which part number.
    pub fn chunk(&self, index: u64) -> (res: Chunk)
        requires
            index < chunk_count_for(self@),
        ensures
            is_chunk(self@, index as nat, res),
            res.index == index,
            res.part_number == index + 1,
            res.offset == index * CHUNK_SIZE,
            (index + 1) * CHUNK_SIZE <= self@ ==> res.length == CHUNK_SIZE,
            self@ < (index + 1) * CHUNK_SIZE ==> res.length == self@ - index * CHUNK_SIZE,
    {
        proof {
            use_type_invariant(self);
        }
        let length: u64 = if index == self.chunk_count - 1 {
            self.last_chunk_size
        } else {
            CHUNK_SIZE
        };
        assert(index * CHUNK_SIZE <= MAX_CHUNKS * CHUNK_SIZE) by (nonlinear_arith)
            requires
                index < MAX_CHUNKS,
        ;
        let res = Chunk { index, offset: index * CHUNK_SIZE, length, part_number: index as i32 + 1 };
        proof {
            lemma_chunk_is_slice_of_file(self@, index as nat, res);
        }
        res
    }

    /// All chunks of the file, in order.
    pub fn chunks(&self) -> (res: Vec<Chunk>)
        ensures
            res.len() == chunk_count_for(self@),
            forall|i: int| 0 <= i < res.len() ==> is_chunk(self@, i as nat, #[trigger] res[i]),
            forall|i: int|
                0 <= i < res.len() ==> (#[trigger] res[i]).offset == i * CHUNK_SIZE && res[i].index
                    == i && res[i].part_number == i + 1 && ((i + 1) * CHUNK_SIZE <= self@
                    ==> res[i].length == CHUNK_SIZE) && (self@ < (i + 1) * CHUNK_SIZE
                    ==> res[i].length == self@ - i * CHUNK_SIZE),
    {
        let count: u64 = self.chunk_count();
        let mut res: Vec<Chunk> = Vec::new();
        let mut i: u64 = 0;
        while i < count
            invariant
                count == chunk_count_for(self@),
                i <= count,
                res.len() == i,
                forall|j: int| 0 <= j < res.len() ==> is_chunk(self@, j as nat, #[trigger] res[j]),
                forall|j: int|
                    0 <= j < res.len() ==> (#[trigger] res[j]).offset == j * CHUNK_SIZE
                        && res[j].index == j && res[j].part_number == j + 1 && ((j + 1)
                        * CHUNK_SIZE <= self@ ==> res[j].length == CHUNK_SIZE) && (self@ < (j
                        + 1) * CHUNK_SIZE ==> res[j].length == self@ - j * CHUNK_SIZE),
            decreases count - i,
        {
            let c = self.chunk(i);
            res.push(c);
            i = i + 1;
        }
        res
    }
}

/// Plans the multipart upload of a file of `file_size` bytes.
pub fn plan_chunks(file_size: u64) -> (res: Result<ChunkPlan, UploadError>)
    ensures
        file_size == 0 <==> res == Err::<ChunkPlan, UploadError>(UploadError::EmptyFile),
        file_size > 0 && chunk_count_for(file_size as nat) > MAX_CHUNKS <==> res == Err::<
            ChunkPlan,
            UploadError,
        >(UploadError::TooManyChunks),
        0 < file_size && chunk_count_for(file_size as nat) <= MAX_CHUNKS <==> res is Ok,
        res matches Ok(p) ==> p@ == file_size,
{
    assert(file_size / CHUNK_SIZE < u64::MAX) by (nonlinear_arith)
        requires
            CHUNK_SIZE > 1,
    ;
    let mut chunk_count: u64 = file_size / CHUNK_SIZE + 1;
    let mut size_of_last_chunk: u64 = file_size % CHUNK_SIZE;
    // if the file size is exactly a multiple of CHUNK_SIZE, we don't need the extra chunk
    if size_of_last_chunk == 0 {
        size_of_last_chunk = CHUNK_SIZE;
        chunk_count = chunk_count - 1;
    }
    // something went very wrong if we get a size of zero here
    if file_size == 0 {
        return Err(UploadError::EmptyFile);
    }
    // AWS will not accept an upload with too many chunks
    if chunk_count > MAX_CHUNKS {
        return Err(UploadError::TooManyChunks);
    }
    Ok(ChunkPlan { file_size, chunk_count, last_chunk_size: size_of_last_chunk })
}

/// The number of bytes in the first `n` chunks of a file of `size` bytes.
pub open spec fn covered_bytes(size: nat, n: nat) -> nat
    decreases n,
{
    if n == 0 {
        0
    } else {
        covered_bytes(size, (n - 1) as nat) + chunk_length(size, (n - 1) as nat)
    }
}

proof fn lemma_div_mod_chunk(size: nat)
    ensures
        size == (size / (CHUNK_SIZE as nat)) * (CHUNK_SIZE as nat) + size % (CHUNK_SIZE as nat),
        size % (CHUNK_SIZE as nat) < CHUNK_SIZE as nat,
{
    vstd::arithmetic::div_mod::lemma_fundamental_div_mod(size as int, CHUNK_SIZE as int);
}

/// The chunks of a non-empty file tile it: every chunk but the last is a whole chunk, the last
/// holds between one byte and a whole chunk, each starts where the one before it ends, and the
/// last ends at the end of the file.
pub proof fn lemma_chunks_tile_file(size: nat)
    requires
        0 < size,
    ensures
        chunk_count_for(size) >= 1,
        0 < last_chunk_size_for(size) <= CHUNK_SIZE,
        forall|i: nat| i + 1 < chunk_count_for(size) ==> #[trigger] chunk_length(size, i) == CHUNK_SIZE,
        forall|i: nat|
            i + 1 < chunk_count_for(size) ==> chunk_offset(i) + chunk_length(size, i)
                == #[trigger] chunk_offset(i + 1),
        chunk_offset((chunk_count_for(size) - 1) as nat) + chunk_length(
            size,
            (chunk_count_for(size) - 1) as nat,
        ) == size,
{
    lemma_div_mod_chunk(size);
    let c: nat = CHUNK_SIZE as nat;
    let q: nat = size / c;
    assert forall|i: nat| i + 1 < chunk_count_for(size) implies chunk_offset(i) + chunk_length(
        size,
        i,
    ) == #[trigger] chunk_offset(i + 1) by {
        assert((i + 1) * c == i * c + c) by (nonlinear_arith);
    }
    if size % c == 0 {
        assert(q >= 1) by (nonlinear_arith)
            requires
                size == q * c,
                0 < size,
                c > 0,
        ;
        assert(((q - 1) as nat) * c + c == q * c) by (nonlinear_arith)
            requires
                q >= 1,
        ;
    }
}

/// The first `n` chunks, `n` short of the last, cover exactly `n` whole chunks.
proof fn lemma_covered_whole_chunks(size: nat, n: nat)
    requires
        n < chunk_count_for(size),
    ensures
        covered_bytes(size, n) == chunk_offset(n),
    decreases n,
{
    if n > 0 {
        lemma_covered_whole_chunks(size, (n - 1) as nat);
        assert(n * (CHUNK_SIZE as nat) == ((n - 1) as nat) * (CHUNK_SIZE as nat) + CHUNK_SIZE)
            by (nonlinear_arith)
            requires
                n > 0,
        ;
    }
}

/// All chunks of a non-empty file together hold exactly its bytes.
pub proof fn lemma_chunks_cover_file(size: nat)
    requires
        0 < size,
    ensures
        covered_bytes(size, chunk_count_for(size)) == size,
{
    lemma_chunks_tile_file(size);
    let n: nat = (chunk_count_for(size) - 1) as nat;
    lemma_covered_whole_chunks(size, n);
    assert(chunk_count_for(size) == n + 1);
}

proof fn lemma_scaled_bound(q: int, r: int, c: int, m: int)
    requires
        c > 0,
        0 <= r < c,
        q >= 0,
        m >= 0,
    ensures
        r == 0 ==> (q <= m <==> q * c + r <= m * c),
        r > 0 ==> (q + 1 <= m <==> q * c + r <= m * c),
{
    if q <= m {
        assert(q * c <= m * c) by (nonlinear_arith)
            requires
                q <= m,
                c > 0,
        ;
    } else {
        assert(q * c >= (m + 1) * c) by (nonlinear_arith)
            requires
                q >= m + 1,
                c > 0,
        ;
        assert((m + 1) * c == m * c + c) by (nonlinear_arith);
    }
    if q + 1 <= m {
        assert((q + 1) * c <= m * c) by (nonlinear_arith)
            requires
                q + 1 <= m,
                c > 0,
        ;
        assert((q + 1) * c == q * c + c) by (nonlinear_arith);
    }
}

/// A file fits in `MAX_CHUNKS` chunks exactly when it holds at most
/// `MAX_CHUNKS * CHUNK_SIZE` bytes.
pub proof fn lemma_chunk_limit(size: nat)
    ensures
        chunk_count_for(size) <= MAX_CHUNKS <==> size <= MAX_CHUNKS * CHUNK_SIZE,
{
    lemma_div_mod_chunk(size);
    let c: nat = CHUNK_SIZE as nat;
    lemma_scaled_bound((size / c) as int, (size % c) as int, c as int, MAX_CHUNKS as int);
}


/// The longest object key S3 accepts, in bytes.
pub const MAX_KEY_BYTES: usize = 1024;

/// A character of an object key is a key character, which is ASCII, so the key's length in
/// characters is its length in bytes.
pub open spec fn is_clean_key(k: Seq<char>) -> bool {
    forall|i: int| 0 <= i < k.len() ==> is_key_char(#[trigger] k[i])
}

/// Keys built from a cleaned archive name (as `clean_filename` gives) or from the folder name
/// are made of key characters only and fit in the S3 limit of 1024 bytes.
pub proof fn lemma_object_key_is_valid(filename: Option<String>, folder_name: Option<String>)
    requires
        filename matches Some(f) ==> f@.len() <= MAX_FILENAME_CHARS && is_clean_key(f@),
    ensures
        is_clean_key(object_key(filename, folder_name)),
        object_key(filename, folder_name).len() <= MAX_KEY_BYTES,
{
    reveal_strlit(".tar.gz");
    reveal_strlit("awsbck_");
    reveal_strlit("backup");
    let k = object_key(filename, folder_name);
    let ext = archive_extension();
    assert(is_clean_key(ext));
    match filename {
        Some(f) => {
            if !ends_with(f@, ext) {
                assert forall|i: int| 0 <= i < k.len() implies is_key_char(#[trigger] k[i]) by {
                    if i < f@.len() {
                        assert(k[i] == f@[i]);
                    } else {
                        assert(k[i] == ext[i - f@.len()]);
                    }
                }
            }
        },
        None => {
            let base = match folder_name {
                Some(f) => sanitized(f@),
                None => "backup"@,
            };
            match folder_name {
                Some(f) => lemma_sanitized_is_clean(f@),
                None => {},
            }
            let prefix = "awsbck_"@;
            assert(is_clean_key(prefix));
            assert(is_clean_key(base));
            assert(k == prefix + base + ext);
            assert forall|i: int| 0 <= i < k.len() implies is_key_char(#[trigger] k[i]) by {
                if i < prefix.len() {
                    assert(k[i] == prefix[i]);
                } else if i < prefix.len() + base.len() {
                    assert(k[i] == base[i - prefix.len()]);
                } else {
                    assert(k[i] == ext[i - prefix.len() - base.len()]);
                }
            }
        },
    }
}


#[verifier::external_type_specification]
#[verifier::external_body]
pub struct ExCompletedMultipartUpload(aws_sdk_s3::types::CompletedMultipartUpload);

#[verifier::external_type_specification]
#[verifier::external_body]
pub struct ExCompletedMultipartUploadBuilder(
    aws_sdk_s3::types::builders::CompletedMultipartUploadBuilder,
);

/// The parts a completion request body lists, in order: the ETag and the part number of each.
pub uninterp spec fn completion_parts(body: CompletedMultipartUpload) -> Seq<
    (Option<Seq<char>>, Option<i32>),
>;

/// The parts a completion request builder holds so far, in order: the ETag and the part number
/// of each.
pub uninterp spec fn builder_parts(builder: CompletedMultipartUploadBuilder) -> Seq<
    (Option<Seq<char>>, Option<i32>),
>;

/// A fresh `CompletedMultipartUpload::builder()`.
/// Trusted: it holds no parts (its `parts` field starts out as `None`).
#[verifier::external_body]
fn new_completion_builder() -> (res: CompletedMultipartUploadBuilder)
    ensures
        builder_parts(res) == Seq::<(Option<Seq<char>>, Option<i32>)>::empty(),
{
    CompletedMultipartUpload::builder()
}

/// `CompletedMultipartUploadBuilder::parts`, appending the part built by
/// `CompletedPart::builder().e_tag(e_tag).part_number(part_number).build()`.
/// Trusted: the builder's parts are the former ones followed by that part, whose ETag and part
/// number are the given ones.
#[verifier::external_body]
fn add_completed_part(
    builder: CompletedMultipartUploadBuilder,
    e_tag: String,
    part_number: i32,
) -> (res: CompletedMultipartUploadBuilder)
    ensures
        builder_parts(res) == builder_parts(builder).push((Some(e_tag@), Some(part_number))),
{
    builder.parts(CompletedPart::builder().e_tag(e_tag).part_number(part_number).build())
}

/// `CompletedMultipartUploadBuilder::build`.
/// Trusted: the request body lists the builder's parts, in their order.
#[verifier::external_body]
fn build_completion(builder: CompletedMultipartUploadBuilder) -> (res: CompletedMultipartUpload)
    ensures
        completion_parts(res) == builder_parts(builder),
{
    builder.build()
}

/// The parts that complete an upload for which `e_tags` were received: part `i + 1` with the
/// ETag received for chunk `i`.
pub open spec fn completion_entries(e_tags: Seq<String>) -> Seq<(Option<Seq<char>>, Option<i32>)> {
    Seq::new(e_tags.len(), |i: int| (Some(e_tags[i]@), Some((i + 1) as i32)))
}

/// The completion for a list of ETags has one part per ETag, in order: part `i + 1` with the
/// `i`-th ETag.
pub proof fn lemma_completion_lists_every_part(e_tags: Seq<String>)
    ensures
        completion_entries(e_tags).len() == e_tags.len(),
        forall|i: int|
            0 <= i < e_tags.len() ==> #[trigger] completion_entries(e_tags)[i] == (
            Some(e_tags[i]@),
            Some((i + 1) as i32),
        ),
{
}

/// What to do next in a multipart upload.
#[derive(Debug, Clone, Copy, PartialEq, Eq, Structural)]
pub enum UploadStep {
    /// Send this chunk of the file.
    Send(Chunk),
    /// Every chunk was sent: complete the upload.
    Complete,
}

/// The progress of the multipart upload of a file: which chunks were sent, and the ETag S3
/// answered for each.
pub struct MultipartUpload {
    plan: ChunkPlan,
    e_tags: Vec<String>,
}

impl MultipartUpload {
    #[verifier::type_invariant]
    spec fn sent_at_most_all(self) -> bool {
        self.e_tags.len() <= chunk_count_for(self.plan@)
    }

    /// The size of the file being uploaded.
    pub closed spec fn file_size(self) -> nat {
        self.plan@
    }

    /// The ETags received so far; the one at `i` answers chunk `i`, part number `i + 1`.
    pub closed spec fn received(self) -> Seq<String> {
        self.e_tags@
    }

    /// Starts the upload of the file that `plan` cuts: nothing sent yet.
    pub fn start(plan: ChunkPlan) -> (res: Self)
        ensures
            res.file_size() == plan@,
            res.received().len() == 0,
    {
        MultipartUpload { plan, e_tags: Vec::new() }
    }

    /// What to do next: send the first chunk not sent yet, or complete when all were sent.
    pub fn next_step(&self) -> (res: UploadStep)
        ensures
            self.received().len() <= chunk_count_for(self.file_size()),
            self.received().len() < chunk_count_for(self.file_size()) ==> (res matches UploadStep::Send(
                c,
            ) && is_chunk(self.file_size(), self.received().len(), c)),
            self.received().len() == chunk_count_for(self.file_size()) ==> res is Complete,
    {
        proof {
            use_type_invariant(self);
        }
        let sent: u64 = self.e_tags.len() as u64;
        if sent < self.plan.chunk_count() {
            UploadStep::Send(self.plan.chunk(sent))
        } else {
            UploadStep::Complete
        }
    }

    /// Records that the next chunk was sent and S3 answered with `e_tag` (an empty ETag when it
    /// answered none).
    pub fn record_sent(&mut self, e_tag: Option<String>)
        requires
            old(self).received().len() < chunk_count_for(old(self).file_size()),
        ensures
            final(self).file_size() == old(self).file_size(),
            final(self).received().len() == old(self).received().len() + 1,
            final(self).received().drop_last() == old(self).received(),
            final(self).received().last()@ == (match e_tag {
                Some(t) => t@,
                None => Seq::<char>::empty(),
            }),
    {
        let tag = match e_tag {
            Some(t) => t,
            None => String::new(),
        };
        let mut e_tags = Vec::new();
        std::mem::swap(&mut e_tags, &mut self.e_tags);
        e_tags.push(tag);
        self.e_tags = e_tags;
        proof {
            assert(self.e_tags@.drop_last() =~= old(self).e_tags@);
        }
    }

    /// Whether every chunk was sent.
    pub fn is_complete(&self) -> (res: bool)
        ensures
            res == (self.received().len() == chunk_count_for(self.file_size())),
    {
        proof {
            use_type_invariant(self);
        }
        self.e_tags.len() as u64 == self.plan.chunk_count()
    }

    /// The ETags received so far, in the order of the chunks.
    pub fn e_tags(&self) -> (res: &Vec<String>)
        ensures
            res@ == self.received(),
    {
        &self.e_tags
    }

    /// The body of the request that completes the upload: part `i + 1` with the ETag received
    /// for chunk `i`, for every chunk, in order.
    pub fn completion(&self) -> (res: CompletedMultipartUpload)
        requires
            self.received().len() == chunk_count_for(self.file_size()),
        ensures
            completion_parts(res) == completion_entries(self.received()),
            completion_parts(res).len() == self.received().len(),
            forall|i: int|
                0 <= i < self.received().len() ==> #[trigger] completion_parts(res)[i] == (
                Some(self.received()[i]@),
                Some((i + 1) as i32),
            ),
    {
        proof {
            use_type_invariant(self);
            use_type_invariant(&self.plan);
        }
        let count: usize = self.e_tags.len();
        let mut builder = new_completion_builder();
        let mut i: usize = 0;
        while i < count
            invariant
                count == self.e_tags.len(),
                count <= MAX_CHUNKS,
                i <= count,
                builder_parts(builder) == completion_entries(self.e_tags@.take(i as int)),
            decreases count - i,
        {
            let part_number: i32 = i as i32 + 1;
            builder = add_completed_part(builder, self.e_tags[i].clone(), part_number);
            proof {
                assert(completion_entries(self.e_tags@.take(i + 1)) =~= completion_entries(
                    self.e_tags@.take(i as int),
                ).push((Some(self.e_tags@[i as int]@), Some(part_number))));
            }
            i = i + 1;
        }
        proof {
            assert(self.e_tags@.take(count as int) =~= self.e_tags@);
            lemma_completion_lists_every_part(self.e_tags@);
        }
        build_completion(builder)
    }
}

} // verus!

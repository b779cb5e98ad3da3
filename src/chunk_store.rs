use vstd::prelude::*;

verus! {

/// `base` joined with the relative component `name`, as a file system path.
pub open spec fn join_spec(base: Seq<char>, name: Seq<char>) -> Seq<char> {
    if base.len() == 0 {
        name
    } else if base.last() == '/' {
        base + name
    } else {
        base + seq!['/'] + name
    }
}

/// Join `name` under `base`, with one separator between them.
pub fn join_path(base: &str, name: &str) -> (r: String)
    ensures
        r@ == join_spec(base@, name@),
{
    let n = base.unicode_len();
    if n == 0 {
        return String::from_str(name);
    }
    let out = String::from_str(base);
    if base.get_char(n - 1) == '/' {
        out.concat(name)
    } else {
        proof {
            reveal_strlit("/");
        }
        let with_sep = out.concat("/");
        with_sep.concat(name)
    }
}

/// Directory that holds the chunks of one blob under a store's root.
pub open spec fn blob_chunks_dir_spec(base: Seq<char>, blob_id: Seq<char>) -> Seq<char> {
    join_spec(join_spec(join_spec(base, seq!['b', 'l', 'o', 'b', 's']), blob_id), seq!['c', 'h', 'u', 'n', 'k', 's'])
}

/// Chunks kept per blob, each under the blob's own directory:
/// `<base>/blobs/<blob_id>/chunks/<chunk_id>`.
#[derive(Debug)]
pub struct ChunkStore {
    base_path: String,
}

impl ChunkStore {
    /// A store rooted at `base_path`; the caller creates the directory.
    pub fn new(base_path: String) -> (r: ChunkStore)
        ensures
            r.base_path_spec() == base_path@,
    {
        ChunkStore { base_path }
    }

    /// The root of the store.
    pub closed spec fn base_path_spec(&self) -> Seq<char> {
        self.base_path@
    }

    /// The root of the store.
    pub fn base_path(&self) -> (r: &String)
        ensures
            r@ == self.base_path_spec(),
    {
        &self.base_path
    }

    /// The directory of a blob's chunks.
    pub fn blob_chunks_dir(&self, blob_id: &str) -> (r: String)
        ensures
            r@ == blob_chunks_dir_spec(self.base_path_spec(), blob_id@),
    {
        proof {
            reveal_strlit("blobs");
            reveal_strlit("chunks");
        }
        let blobs = join_path(self.base_path.as_str(), "blobs");
        let blob = join_path(blobs.as_str(), blob_id);
        join_path(blob.as_str(), "chunks")
    }

    /// The file of one chunk of a blob.
    pub fn chunk_path(&self, blob_id: &str, chunk_id: &str) -> (r: String)
        ensures
            r@ == join_spec(blob_chunks_dir_spec(self.base_path_spec(), blob_id@), chunk_id@),
    {
        let dir = self.blob_chunks_dir(blob_id);
        join_path(dir.as_str(), chunk_id)
    }
}

/// The first two characters of a hash, or all of it when shorter.
pub open spec fn hash_prefix(hash: Seq<char>) -> Seq<char> {
    if hash.len() < 2 { hash } else { hash.subrange(0, 2) }
}

/// Chunks kept by content in one shared tree:
/// `<base>/chunks/<first two characters of the hash>/<hash>`.
#[derive(Debug)]
pub struct LegacyChunkStore {
    base_path: String,
}

impl LegacyChunkStore {
    /// A store rooted at `base_path`; the caller creates the directory.
    pub fn new(base_path: String) -> (r: LegacyChunkStore)
        ensures
            r.base_path_spec() == base_path@,
    {
        LegacyChunkStore { base_path }
    }

    /// The root of the store.
    pub closed spec fn base_path_spec(&self) -> Seq<char> {
        self.base_path@
    }

    /// The file of the chunk with hash `hash`.
    pub fn chunk_path(&self, hash: &str) -> (r: String)
        ensures
            r@ == join_spec(join_spec(join_spec(self.base_path_spec(), seq!['c', 'h', 'u', 'n', 'k', 's']), hash_prefix(hash@)), hash@),
    {
        proof {
            reveal_strlit("chunks");
        }
        let n = hash.unicode_len();
        let cut: usize = if n < 2 { n } else { 2 };
        let prefix = hash.substring_char(0, cut);
        proof {
            if n < 2 {
                assert(hash@.subrange(0, n as int) =~= hash@);
            }
        }
        let chunks = join_path(self.base_path.as_str(), "chunks");
        let sub = join_path(chunks.as_str(), prefix);
        join_path(sub.as_str(), hash)
    }
}

} // verus!

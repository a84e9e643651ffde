//! Content-addressed artifact storage: files under a storage root,
//! read whole into memory, written idempotently under a path derived
//! from the content digest.

use vstd::prelude::*;
use crate::strutil::clone_bytes;
use crate::strutil::str_eq;

verus! {

/// One stored artifact.
pub struct StoredFile {
    pub path: String,
    pub bytes: Vec<u8>,
}

/// Mathematical model of a stored artifact.
pub struct FileModel {
    pub path: Seq<char>,
    pub bytes: Seq<u8>,
}

impl View for StoredFile {
    type V = FileModel;

    open spec fn view(&self) -> FileModel {
        FileModel { path: self.path@, bytes: self.bytes@ }
    }
}

/// The artifact store, keyed by storage-relative path.
pub struct Storage {
    pub files: Vec<StoredFile>,
}

impl View for Storage {
    type V = Seq<FileModel>;

    open spec fn view(&self) -> Seq<FileModel> {
        self.files@.map_values(|f: StoredFile| f@)
    }
}

/// The first file under the path, if any.
pub open spec fn find_file_model(fs: Seq<FileModel>, path: Seq<char>) -> Option<int>
    decreases fs.len(),
{
    if fs.len() == 0 {
        None
    } else if fs[0].path == path {
        Some(0)
    } else {
        match find_file_model(fs.drop_first(), path) {
            Some(i) => Some(i + 1),
            None => None,
        }
    }
}

/// An idempotent write: replaces the bytes under an existing path, or
/// stores a new file. Rewriting the same content-addressed path is
/// harmless.
pub open spec fn write_file_model(fs: Seq<FileModel>, path: Seq<char>, bytes: Seq<u8>) -> Seq<
    FileModel,
> {
    match find_file_model(fs, path) {
        Some(i) => fs.update(i, FileModel { path: path, bytes: bytes }),
        None => fs.push(FileModel { path: path, bytes: bytes }),
    }
}

/// No file below `from` has the path.
pub open spec fn no_file_before(fs: Seq<FileModel>, path: Seq<char>, from: int) -> bool {
    forall|j: int| 0 <= j < from ==> #[trigger] fs[j].path != path
}

/// When nothing before `at` matches and `at` does, the model find
/// returns `at`.
proof fn lemma_file_first_from(fs: Seq<FileModel>, path: Seq<char>, at: int)
    requires
        0 <= at < fs.len(),
        fs[at].path == path,
        no_file_before(fs, path, at),
    ensures
        find_file_model(fs, path) == Some(at),
    decreases fs.len(),
{
    if at == 0 {
    } else {
        assert(fs.drop_first()[at - 1] == fs[at]);
        assert forall|j: int| 0 <= j < at - 1 implies #[trigger] fs.drop_first()[j].path != path by {
            assert(fs.drop_first()[j] == fs[j + 1]);
        }
        lemma_file_first_from(fs.drop_first(), path, at - 1);
    }
}

/// When no file matches, the model find returns nothing.
proof fn lemma_file_none(fs: Seq<FileModel>, path: Seq<char>)
    requires
        no_file_before(fs, path, fs.len() as int),
    ensures
        find_file_model(fs, path) is None,
    decreases fs.len(),
{
    if fs.len() > 0 {
        assert forall|j: int| 0 <= j < fs.drop_first().len() implies #[trigger] fs.drop_first()[j].path
            != path by {
            assert(fs.drop_first()[j] == fs[j + 1]);
        }
        lemma_file_none(fs.drop_first(), path);
    }
}

impl Storage {
    /// An empty store.
    pub fn new() -> (r: Storage)
        ensures
            r@ == Seq::<FileModel>::empty(),
    {
        let r = Storage { files: Vec::new() };
        proof {
            assert(r@ =~= Seq::<FileModel>::empty());
        }
        r
    }

    /// The index of the file under the path, if any.
    fn find(&self, path: &str) -> (r: Option<usize>)
        ensures
            match r {
                Some(i) => i < self.files.len() && find_file_model(self@, path@) == Some(i as int),
                None => find_file_model(self@, path@) is None,
            },
    {
        let mut i: usize = 0;
        while i < self.files.len()
            invariant
                0 <= i <= self.files.len(),
                self@.len() == self.files.len(),
                no_file_before(self@, path@, i as int),
            decreases self.files.len() - i,
        {
            proof {
                assert(self@[i as int] == self.files[i as int]@);
            }
            if str_eq(self.files[i].path.as_str(), path) {
                proof {
                    lemma_file_first_from(self@, path@, i as int);
                }
                return Some(i);
            }
            i = i + 1;
        }
        proof {
            lemma_file_none(self@, path@);
        }
        None
    }

    /// Reads the full artifact under the path, or signals absence; the
    /// caller substitutes the default artifact.
    pub fn read(&self, path: &str) -> (r: Option<Vec<u8>>)
        ensures
            match find_file_model(self@, path@) {
                Some(i) => r matches Some(b) && b@ == self@[i].bytes,
                None => r is None,
            },
    {
        match self.find(path) {
            Some(i) => {
                proof {
                    assert(self@[i as int] == self.files[i as int]@);
                }
                Some(clone_bytes(&self.files[i].bytes))
            },
            None => None,
        }
    }

    /// Writes the artifact under the path, idempotently.
    pub fn write(&mut self, path: &String, bytes: &Vec<u8>)
        ensures
            final(self)@ == write_file_model(old(self)@, path@, bytes@),
    {
        let f = StoredFile { path: path.clone(), bytes: clone_bytes(bytes) };
        let ghost fm = f@;
        match self.find(path.as_str()) {
            Some(i) => {
                let ghost prev = self@;
                self.files[i] = f;
                proof {
                    assert forall|j: int| 0 <= j < prev.len() implies self@[j] == (if j == i as int {
                        fm
                    } else {
                        prev[j]
                    }) by {
                        assert(self@[j] == self.files@[j]@);
                    }
                    assert(self@ =~= write_file_model(prev, path@, bytes@));
                }
            },
            None => {
                let ghost prev = self@;
                self.files.push(f);
                proof {
                    assert(self@ =~= prev.push(fm));
                }
            },
        }
    }
}

} // verus!

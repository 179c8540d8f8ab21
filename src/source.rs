//! Loading of source files, at most once per canonical path.
use crate::FileId;
use std::sync::Arc;
use vstd::prelude::*;

verus! {

/// The files loaded so far. File `k` is the `k`-th distinct canonical path
/// that was loaded, together with the text that was read from it.
#[derive(Debug, Default)]
pub struct SourceManager {
    files: Vec<Arc<String>>,
    paths: Vec<String>,
}

impl SourceManager {
    /// Canonical path of each loaded file, by file identity.
    pub closed spec fn path_table(&self) -> Seq<Seq<char>> {
        self.paths@.map_values(|p: String| p@)
    }

    /// Text of each loaded file, by file identity.
    pub closed spec fn text_table(&self) -> Seq<Seq<char>> {
        self.files@.map_values(|t: Arc<String>| t@)
    }

    /// Each file has one path and one text, and no path is loaded twice.
    pub open spec fn wf(&self) -> bool {
        &&& self.path_table().len() == self.text_table().len()
        &&& self.path_table().no_duplicates()
    }

    /// Number of files loaded.
    pub open spec fn spec_len(&self) -> nat {
        self.path_table().len()
    }

    /// The two managers hold the same files.
    pub open spec fn same_files(&self, other: &Self) -> bool {
        &&& self.path_table() == other.path_table()
        &&& self.text_table() == other.text_table()
    }

    pub fn new() -> (r: Self)
        ensures
            r.wf(),
            r.spec_len() == 0,
            r.text_table().len() == 0,
    {
        let r = SourceManager { files: Vec::new(), paths: Vec::new() };
        proof {
            assert(r.path_table() =~= Seq::<Seq<char>>::empty());
            assert(r.text_table() =~= Seq::<Seq<char>>::empty());
        }
        r
    }

    /// Number of files loaded so far.
    pub fn len(&self) -> (r: usize)
        requires
            self.wf(),
        ensures
            r == self.spec_len(),
    {
        self.paths.len()
    }

    /// Identity of the file loaded from `canonical`, if any.
    pub fn file_id_of(&self, canonical: &String) -> (r: Option<FileId>)
        requires
            self.wf(),
        ensures
            match r {
                Some(id) => id < self.spec_len() && self.path_table()[id as int] == canonical@,
                None => !self.path_table().contains(canonical@),
            },
    {
        let mut i: usize = 0;
        while i < self.paths.len()
            invariant
                i <= self.paths@.len(),
                self.path_table().len() == self.paths@.len(),
                forall|j: int| 0 <= j < i ==> self.path_table()[j] != canonical@,
            decreases self.paths@.len() - i,
        {
            if self.paths[i] == *canonical {
                return Some(i);
            }
            i = i + 1;
        }
        None
    }

    /// What loading the canonical path `c`, with `read` as the way to read a
    /// file, did to `old` to give `new` and the result `r`. A path already
    /// loaded gives its identity back and nothing is read; a new one is read,
    /// and on success gets the next identity.
    pub open spec fn load_canonical_post<R: FnOnce(&String) -> Result<String, E>, E>(
        old: &Self,
        new: &Self,
        c: &String,
        read: R,
        r: Result<FileId, E>,
    ) -> bool {
        &&& new.wf()
        &&& if old.path_table().contains(c@) {
            &&& new.same_files(old)
            &&& match r {
                Ok(id) => id < old.spec_len() && old.path_table()[id as int] == c@,
                Err(_) => false,
            }
        } else {
            match r {
                Ok(id) => {
                    &&& id == old.spec_len()
                    &&& new.path_table() == old.path_table().push(c@)
                    &&& exists|t: String|
                        #[trigger] read.ensures((c,), Ok::<String, E>(t)) && new.text_table()
                            == old.text_table().push(t@)
                },
                Err(e) => new.same_files(old) && read.ensures((c,), Err::<String, E>(e)),
            }
        }
    }

    /// Loads the file whose canonical path is `canonical`: a path seen before
    /// gives its identity without a read, a new one is read once with `read`.
    pub fn load_canonical<R, E>(&mut self, canonical: &String, read: R) -> (r: Result<FileId, E>)
        where
            R: FnOnce(&String) -> Result<String, E>,
        requires
            old(self).wf(),
            read.requires((canonical,)),
        ensures
            Self::load_canonical_post(old(self), final(self), canonical, read, r),
    {
        match self.file_id_of(canonical) {
            Some(id) => Ok(id),
            None => {
                match read(canonical) {
                    Ok(text) => {
                        let id = self.paths.len();
                        let ghost t = text;
                        self.files.push(Arc::new(text));
                        self.paths.push(canonical.clone());
                        proof {
                            assert(self.path_table() =~= old(self).path_table().push(canonical@));
                            assert(self.text_table() =~= old(self).text_table().push(t@));
                            assert(read.ensures((canonical,), Ok::<String, E>(t)));
                            let pt = self.path_table();
                            assert forall|a: int, b: int|
                                0 <= a < b < pt.len() implies pt[a] != pt[b] by {
                                if b == id {
                                    assert(old(self).path_table()[a] == pt[a]);
                                } else {
                                    assert(old(self).path_table()[a] != old(self).path_table()[b]);
                                }
                            }
                        }
                        Ok(id)
                    },
                    Err(e) => Err(e),
                }
            },
        }
    }

    /// What loading `path` did to `old` to give `new` and the result `r`:
    /// either `canonicalize` gave a canonical path and loading that path did
    /// the rest, or it failed, and its error came back with nothing changed.
    pub open spec fn load_post<
        C: FnOnce(&str) -> Result<String, E>,
        R: FnOnce(&String) -> Result<String, E>,
        E,
    >(old: &Self, new: &Self, path: &str, canonicalize: C, read: R, r: Result<FileId, E>) -> bool {
        &&& new.wf()
        &&& old.path_table().is_prefix_of(new.path_table())
        &&& old.text_table().is_prefix_of(new.text_table())
        &&& {
            ||| exists|c: String|
                #[trigger] canonicalize.ensures((path,), Ok::<String, E>(c))
                    && Self::load_canonical_post(old, new, &c, read, r)
            ||| match r {
                Ok(_) => false,
                Err(e) => canonicalize.ensures((path,), Err::<String, E>(e)) && new.same_files(old),
            }
        }
    }

    /// Loads the file at `path`: `canonicalize` turns it into the canonical
    /// path that identifies the file, then `load_canonical` does the rest.
    /// A failure of either step comes back as the error and changes nothing.
    pub fn load<C, R, E>(&mut self, path: &str, canonicalize: C, read: R) -> (r: Result<
        FileId,
        E,
    >)
        where
            C: FnOnce(&str) -> Result<String, E>,
            R: FnOnce(&String) -> Result<String, E>,
        requires
            old(self).wf(),
            canonicalize.requires((path,)),
            forall|c: &String| #[trigger] read.requires((c,)),
        ensures
            Self::load_post(old(self), final(self), path, canonicalize, read, r),
    {
        match canonicalize(path) {
            Ok(c) => {
                let r = self.load_canonical(&c, read);
                assert(canonicalize.ensures((path,), Ok::<String, E>(c)));
                proof {
                    let (o, n) = (old(self).path_table(), self.path_table());
                    let (ot, nt) = (old(self).text_table(), self.text_table());
                    if !o.contains(c@) && r is Ok {
                        assert(n.take(o.len() as int) =~= o);
                        let t = choose|t: String|
                            #[trigger] read.ensures((&c,), Ok::<String, E>(t)) && nt == ot.push(t@);
                        assert(nt.take(ot.len() as int) =~= ot);
                    } else {
                        assert(n.take(o.len() as int) =~= o);
                        assert(nt.take(ot.len() as int) =~= ot);
                    }
                }
                r
            },
            Err(e) => {
                proof {
                    assert(self.path_table().take(old(self).spec_len() as int) =~= old(self).path_table());
                    assert(self.text_table().take(old(self).text_table().len() as int) =~= old(self).text_table());
                }
                Err(e)
            },
        }
    }

    /// Text of a loaded file, shared rather than copied.
    pub fn source_text(&self, file_id: FileId) -> (r: Arc<String>)
        requires
            self.wf(),
            file_id < self.spec_len(),
        ensures
            r@ == self.text_table()[file_id as int],
    {
        self.files[file_id].clone()
    }

    /// Canonical path of a file, or `None` for an identity that no load gave.
    pub fn path(&self, file_id: FileId) -> (r: Option<&String>)
        requires
            self.wf(),
        ensures
            match r {
                Some(p) => file_id < self.spec_len() && p@ == self.path_table()[file_id as int],
                None => file_id >= self.spec_len(),
            },
    {
        if file_id < self.paths.len() {
            Some(&self.paths[file_id])
        } else {
            None
        }
    }
}

/// Once a canonical path is loaded, loading it again gives the same identity
/// and keeps the files as they were: nothing is read a second time.
pub proof fn lemma_load_canonical_again<R1, R2, E>(
    m0: SourceManager,
    m1: SourceManager,
    m2: SourceManager,
    c1: String,
    c2: String,
    read1: R1,
    read2: R2,
    id1: FileId,
    r2: Result<FileId, E>,
)
    where
        R1: FnOnce(&String) -> Result<String, E>,
        R2: FnOnce(&String) -> Result<String, E>,
    requires
        SourceManager::load_canonical_post(&m0, &m1, &c1, read1, Ok::<FileId, E>(id1)),
        SourceManager::load_canonical_post(&m1, &m2, &c2, read2, r2),
        c1@ == c2@,
    ensures
        r2 == Ok::<FileId, E>(id1),
        m2.same_files(&m1),
{
    assert(m1.path_table()[id1 as int] == c1@);
    assert(m1.path_table().contains(c2@));
}

/// Two paths that canonicalize to the same file load as one: the second load
/// gives the identity of the first and keeps the files as they were.
pub proof fn lemma_load_same_file<C1, C2, R1, R2, E>(
    m0: SourceManager,
    m1: SourceManager,
    m2: SourceManager,
    p1: &str,
    p2: &str,
    canonicalize1: C1,
    canonicalize2: C2,
    read1: R1,
    read2: R2,
    id1: FileId,
    r2: Result<FileId, E>,
)
    where
        C1: FnOnce(&str) -> Result<String, E>,
        C2: FnOnce(&str) -> Result<String, E>,
        R1: FnOnce(&String) -> Result<String, E>,
        R2: FnOnce(&String) -> Result<String, E>,
    requires
        SourceManager::load_post(&m0, &m1, p1, canonicalize1, read1, Ok::<FileId, E>(id1)),
        SourceManager::load_post(&m1, &m2, p2, canonicalize2, read2, r2),
        forall|e: E| !canonicalize2.ensures((p2,), Err::<String, E>(e)),
        forall|x: String, y: String|
            canonicalize1.ensures((p1,), Ok::<String, E>(x)) && canonicalize2.ensures(
                (p2,),
                Ok::<String, E>(y),
            ) ==> x@ == y@,
    ensures
        r2 == Ok::<FileId, E>(id1),
        m2.same_files(&m1),
{
    let x = choose|x: String|
        #[trigger] canonicalize1.ensures((p1,), Ok::<String, E>(x))
            && SourceManager::load_canonical_post(&m0, &m1, &x, read1, Ok::<FileId, E>(id1));
    if r2 is Err {
        assert(!canonicalize2.ensures((p2,), Err::<String, E>(r2->Err_0)));
    }
    let y = choose|y: String|
        #[trigger] canonicalize2.ensures((p2,), Ok::<String, E>(y))
            && SourceManager::load_canonical_post(&m1, &m2, &y, read2, r2);
    lemma_load_canonical_again(m0, m1, m2, x, y, read1, read2, id1, r2);
}

} // verus!

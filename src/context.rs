//! The compilation database: the one object of a session that owns the
//! interner, the loaded sources and the memoized syntax trees, and answers
//! the queries of the later stages.
use crate::interner::{Interner, Symbol};
use crate::modules::{candidate_path, joined, module_candidate, with_source_extension};
use crate::source::SourceManager;
use crate::FileId;
use std::collections::HashMap;
use std::sync::Arc;
use vstd::prelude::*;

verus! {

broadcast use vstd::std_specs::hash::group_hash_axioms;

/// The database of one compilation session, over a diagnostics sink `D`, a
/// type map `T`, a syntax arena `A` and the identity `N` of a module's root
/// node inside its arena.
pub struct CompilationContext<D, T, A, N> {
    pub diagnostics: D,
    pub interner: Interner,
    pub type_map: T,
    pub source_manager: SourceManager,
    pub ast_cache: HashMap<FileId, (Arc<A>, N)>,
}

impl<D, T, A, N: Copy> CompilationContext<D, T, A, N> {
    /// The parsed files: each file's arena and the root of its module.
    pub open spec fn cache(&self) -> Map<FileId, (Arc<A>, N)> {
        self.ast_cache@
    }

    /// The tables are well formed and only loaded files have been parsed.
    pub open spec fn wf(&self) -> bool {
        &&& self.interner.wf()
        &&& self.source_manager.wf()
        &&& forall|f: FileId| #[trigger]
            self.cache().contains_key(f) ==> f < self.source_manager.spec_len()
    }

    /// A fresh session: nothing interned, loaded or parsed.
    pub fn new(diagnostics: D, type_map: T) -> (r: Self)
        ensures
            r.wf(),
            r.diagnostics == diagnostics,
            r.type_map == type_map,
            r.interner@.len() == 0,
            r.source_manager.spec_len() == 0,
            r.cache().is_empty(),
    {
        CompilationContext {
            diagnostics,
            interner: Interner::new(),
            type_map,
            source_manager: SourceManager::new(),
            ast_cache: HashMap::new(),
        }
    }

    /// What the query `ast(file_id)` did to `old` to give `new` and `r`. A
    /// file parsed before gives the cached pair and changes nothing; any other
    /// is parsed once by `parse`, from its source text, and the pair is
    /// cached. Sources, symbols and the type map are left as they were; the
    /// diagnostics sink is the parser's to report to.
    pub open spec fn ast_post<F: FnOnce(Arc<String>, FileId, &D) -> (A, N)>(
        old: &Self,
        new: &Self,
        file_id: FileId,
        parse: F,
        r: (Arc<A>, N),
    ) -> bool {
        &&& new.wf()
        &&& new.source_manager == old.source_manager
        &&& new.interner == old.interner
        &&& new.type_map == old.type_map
        &&& if old.cache().contains_key(file_id) {
            &&& r == old.cache()[file_id]
            &&& new.cache() == old.cache()
        } else {
            &&& new.cache() == old.cache().insert(file_id, r)
            &&& exists|t: Arc<String>|
                t@ == old.source_manager.text_table()[file_id as int] && #[trigger] parse.ensures(
                    (t, file_id, &old.diagnostics),
                    (*r.0, r.1),
                )
        }
    }

    /// The syntax tree of a loaded file: its arena and the root of its
    /// module. The first query parses the file with `parse`, which gets the
    /// file's text, its identity and the diagnostics sink; every later query
    /// gives back the very same arena and root.
    pub fn ast<F>(&mut self, file_id: FileId, parse: F) -> (r: (Arc<A>, N))
        where
            F: FnOnce(Arc<String>, FileId, &D) -> (A, N),
        requires
            old(self).wf(),
            file_id < old(self).source_manager.spec_len(),
            forall|t: Arc<String>| #[trigger] parse.requires((t, file_id, &old(self).diagnostics)),
        ensures
            Self::ast_post(old(self), final(self), file_id, parse, r),
    {
        match self.ast_cache.get(&file_id) {
            Some(cached) => {
                return (cached.0.clone(), cached.1);
            },
            None => {},
        }
        let text = self.source_manager.source_text(file_id);
        let ghost t = text;
        let (arena, root) = parse(text, file_id, &self.diagnostics);
        let shared = Arc::new(arena);
        self.ast_cache.insert(file_id, (shared.clone(), root));
        proof {
            assert(self.cache() == old(self).cache().insert(file_id, (shared, root)));
            assert(parse.ensures((t, file_id, &old(self).diagnostics), (*shared, root)));
        }
        (shared, root)
    }

    /// The file that the module path `segments`, written in file `anchor`,
    /// names: nothing where `anchor` is not a loaded file or its path has no
    /// parent directory.
    pub open spec fn module_target(&self, anchor: FileId, segments: Seq<Seq<char>>) -> Option<
        Seq<char>,
    > {
        if anchor < self.source_manager.spec_len() {
            candidate_path(self.source_manager.path_table()[anchor as int], segments)
        } else {
            None
        }
    }

    /// Resolves the module path `segments`, written in file `anchor`, to a
    /// loaded file: the segments are joined onto the directory of `anchor`,
    /// the source extension is set, and the resulting path is loaded with
    /// `canonicalize` and `read`. A failure of any step gives `None`. The file
    /// found is loaded but not parsed: no syntax tree is built or changed.
    pub fn resolve_module<C, R, E>(
        &mut self,
        anchor: FileId,
        segments: &Vec<String>,
        canonicalize: C,
        read: R,
    ) -> (r: Option<FileId>)
        where
            C: FnOnce(&str) -> Result<String, E>,
            R: FnOnce(&String) -> Result<String, E>,
        requires
            old(self).wf(),
            forall|p: &str| #[trigger] canonicalize.requires((p,)),
            forall|c: &String| #[trigger] read.requires((c,)),
        ensures
            final(self).wf(),
            final(self).cache() == old(self).cache(),
            final(self).interner == old(self).interner,
            final(self).diagnostics == old(self).diagnostics,
            final(self).type_map == old(self).type_map,
            match old(self).module_target(anchor, segments@.map_values(|s: String| s@)) {
                None => r is None && final(self).source_manager == old(self).source_manager,
                Some(target) => exists|p: &str, loaded: Result<FileId, E>|
                    p@ == target && #[trigger] SourceManager::load_post(
                        &old(self).source_manager,
                        &final(self).source_manager,
                        p,
                        canonicalize,
                        read,
                        loaded,
                    ) && match loaded {
                        Ok(id) => r == Some(id),
                        Err(_) => r is None,
                    },
            },
    {
        let anchor_path = match self.source_manager.path(anchor) {
            Some(p) => p,
            None => return None,
        };
        let candidate = match module_candidate(anchor_path, segments) {
            Some(c) => c,
            None => return None,
        };
        let target: &str = candidate.as_str();
        let loaded = self.source_manager.load(target, canonicalize, read);
        proof {
            assert(SourceManager::load_post(
                &old(self).source_manager,
                &self.source_manager,
                target,
                canonicalize,
                read,
                loaded,
            ));
            assert(self.cache() == old(self).cache());
            assert(old(self).source_manager.spec_len() <= self.source_manager.spec_len());
        }
        match loaded {
            Ok(id) => Some(id),
            Err(_) => None,
        }
    }

    /// Interns `s` in the session's interner.
    pub fn intern_string(&mut self, s: &str) -> (r: Symbol)
        requires
            old(self).wf(),
            old(self).interner@.contains(s@) || old(self).interner@.len() <= u32::MAX,
        ensures
            final(self).wf(),
            final(self).source_manager == old(self).source_manager,
            final(self).cache() == old(self).cache(),
            final(self).diagnostics == old(self).diagnostics,
            final(self).type_map == old(self).type_map,
            Interner::intern_post(&old(self).interner, &final(self).interner, s@, r),
    {
        let r = self.interner.intern(s);
        assert(self.cache() == old(self).cache());
        r
    }

    /// The session's diagnostics sink.
    pub fn diagnostics(&self) -> (r: &D)
        ensures
            *r == self.diagnostics,
    {
        &self.diagnostics
    }
}

/// Asking twice for the syntax tree of one file gives the same arena and the
/// same root both times, and the second query changes nothing.
pub proof fn lemma_ast_memoized<D, T, A, N: Copy, F1, F2>(
    c0: CompilationContext<D, T, A, N>,
    c1: CompilationContext<D, T, A, N>,
    c2: CompilationContext<D, T, A, N>,
    file_id: FileId,
    parse1: F1,
    parse2: F2,
    r1: (Arc<A>, N),
    r2: (Arc<A>, N),
)
    where
        F1: FnOnce(Arc<String>, FileId, &D) -> (A, N),
        F2: FnOnce(Arc<String>, FileId, &D) -> (A, N),
    requires
        CompilationContext::ast_post(&c0, &c1, file_id, parse1, r1),
        CompilationContext::ast_post(&c1, &c2, file_id, parse2, r2),
    ensures
        r2 == r1,
        c2.cache() == c1.cache(),
        c2.source_manager == c1.source_manager,
{
}

/// A module path `a::b` written in a loaded file whose directory is `dir`
/// names the file `dir/a/b` followed by the source extension.
pub proof fn lemma_two_segment_target<D, T, A, N: Copy>(
    c: CompilationContext<D, T, A, N>,
    anchor: FileId,
    dir: Seq<char>,
    a: Seq<char>,
    b: Seq<char>,
)
    requires
        anchor < c.source_manager.spec_len(),
        crate::modules::parent_of(c.source_manager.path_table()[anchor as int]) == Some(dir),
    ensures
        c.module_target(anchor, seq![a, b]) == Some(
            with_source_extension(joined(joined(dir, a), b)),
        ),
{
    let segs = seq![a, b];
    assert(segs.drop_last() =~= seq![a]);
    assert(seq![a].drop_last() =~= Seq::<Seq<char>>::empty());
    assert(crate::modules::joined_all(dir, Seq::<Seq<char>>::empty()) == dir);
    assert(crate::modules::joined_all(dir, seq![a]) == joined(dir, a));
    assert(crate::modules::joined_all(dir, segs) == joined(joined(dir, a), b));
}

} // verus!

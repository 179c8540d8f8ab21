use nyanc::context::CompilationContext;
use nyanc::interner::Symbol;
use nyanc::FileId;
use std::cell::{Cell, RefCell};
use std::collections::HashMap;
use std::sync::Arc;

type Sink = RefCell<Vec<String>>;
type Ctx = CompilationContext<Sink, (), Vec<String>, usize>;

fn new_ctx() -> Ctx {
    CompilationContext::new(RefCell::new(Vec::new()), ())
}

struct Disk {
    files: HashMap<String, String>,
    reads: Cell<usize>,
}

impl Disk {
    fn new(files: &[(&str, &str)]) -> Disk {
        Disk {
            files: files.iter().map(|(p, t)| (p.to_string(), t.to_string())).collect(),
            reads: Cell::new(0),
        }
    }

    fn canonicalize(&self, p: &str) -> Result<String, String> {
        let clean = p.replace("/./", "/");
        if self.files.contains_key(&clean) {
            Ok(clean)
        } else {
            Err(format!("no such file: {}", p))
        }
    }

    fn read(&self, p: &String) -> Result<String, String> {
        self.reads.set(self.reads.get() + 1);
        self.files.get(p).cloned().ok_or_else(|| "unreadable".to_string())
    }
}

/// Stand-in for lexer and parser: one node per word, the root last; a word
/// `@` is a syntax error, reported and skipped.
fn toy_parse(text: Arc<String>, file: FileId, sink: &Sink, calls: &Cell<usize>) -> (Vec<String>, usize) {
    calls.set(calls.get() + 1);
    let mut arena = Vec::new();
    for w in text.split_whitespace() {
        if w == "@" {
            sink.borrow_mut().push(format!("file {}: unexpected @", file));
        } else {
            arena.push(w.to_string());
        }
    }
    arena.push("module".to_string());
    let root = arena.len() - 1;
    (arena, root)
}

fn load(ctx: &mut Ctx, disk: &Disk, p: &str) -> FileId {
    ctx.source_manager
        .load(p, |q: &str| disk.canonicalize(q), |c: &String| disk.read(c))
        .unwrap()
}

#[test]
fn ast_is_parsed_once_and_shared() {
    let disk = Disk::new(&[("/p/main.ny", "fn main")]);
    let mut ctx = new_ctx();
    let f = load(&mut ctx, &disk, "/p/main.ny");
    let calls = Cell::new(0usize);
    let (a1, r1) = ctx.ast(f, |t: Arc<String>, id: FileId, d: &Sink| toy_parse(t, id, d, &calls));
    let (a2, r2) = ctx.ast(f, |t: Arc<String>, id: FileId, d: &Sink| toy_parse(t, id, d, &calls));
    assert_eq!(calls.get(), 1);
    assert!(Arc::ptr_eq(&a1, &a2));
    assert_eq!(r1, r2);
    assert_eq!(*a1, vec!["fn".to_string(), "main".to_string(), "module".to_string()]);
    assert_eq!(r1, 2);
}

#[test]
fn ast_of_each_file_is_its_own() {
    let disk = Disk::new(&[("/p/a.ny", "x"), ("/p/b.ny", "y z")]);
    let mut ctx = new_ctx();
    let a = load(&mut ctx, &disk, "/p/a.ny");
    let b = load(&mut ctx, &disk, "/p/b.ny");
    let calls = Cell::new(0usize);
    let (aa, _) = ctx.ast(a, |t: Arc<String>, id: FileId, d: &Sink| toy_parse(t, id, d, &calls));
    let (ab, rb) = ctx.ast(b, |t: Arc<String>, id: FileId, d: &Sink| toy_parse(t, id, d, &calls));
    assert_eq!(calls.get(), 2);
    assert!(!Arc::ptr_eq(&aa, &ab));
    assert_eq!(rb, 2);
}

#[test]
fn syntax_error_still_gives_arena_and_diagnostic() {
    let disk = Disk::new(&[("/p/bad.ny", "let @ x")]);
    let mut ctx = new_ctx();
    let f = load(&mut ctx, &disk, "/p/bad.ny");
    let calls = Cell::new(0usize);
    let (arena, root) = ctx.ast(f, |t: Arc<String>, id: FileId, d: &Sink| toy_parse(t, id, d, &calls));
    assert!(!arena.is_empty());
    assert_eq!(arena[root], "module");
    assert_eq!(ctx.diagnostics().borrow().len(), 1);
}

#[test]
fn resolve_module_finds_nested_file() {
    let disk = Disk::new(&[("/p/main.ny", ""), ("/p/a/b.ny", "")]);
    let mut ctx = new_ctx();
    let main = load(&mut ctx, &disk, "/p/main.ny");
    let segs = vec!["a".to_string(), "b".to_string()];
    let r = ctx.resolve_module(main, &segs, |q: &str| disk.canonicalize(q), |c: &String| disk.read(c));
    assert_eq!(r, Some(1));
    assert_eq!(ctx.source_manager.path(1).unwrap(), "/p/a/b.ny");
}

#[test]
fn resolve_module_of_missing_file_is_none() {
    let disk = Disk::new(&[("/p/main.ny", "")]);
    let mut ctx = new_ctx();
    let main = load(&mut ctx, &disk, "/p/main.ny");
    let segs = vec!["a".to_string(), "b".to_string()];
    let r = ctx.resolve_module(main, &segs, |q: &str| disk.canonicalize(q), |c: &String| disk.read(c));
    assert_eq!(r, None);
    assert_eq!(ctx.source_manager.len(), 1);
}

#[test]
fn resolve_module_from_unknown_anchor_is_none() {
    let disk = Disk::new(&[("/p/a.ny", "")]);
    let mut ctx = new_ctx();
    let segs = vec!["a".to_string()];
    let r = ctx.resolve_module(7, &segs, |q: &str| disk.canonicalize(q), |c: &String| disk.read(c));
    assert_eq!(r, None);
    assert_eq!(disk.reads.get(), 0);
}

#[test]
fn resolve_module_reuses_loaded_file() {
    let disk = Disk::new(&[("/p/main.ny", ""), ("/p/util.ny", "")]);
    let mut ctx = new_ctx();
    let main = load(&mut ctx, &disk, "/p/main.ny");
    let util = load(&mut ctx, &disk, "/p/./util.ny");
    let segs = vec!["util".to_string()];
    let r = ctx.resolve_module(main, &segs, |q: &str| disk.canonicalize(q), |c: &String| disk.read(c));
    assert_eq!(r, Some(util));
    assert_eq!(disk.reads.get(), 2);
}

#[test]
fn cyclic_imports_resolve_without_parsing() {
    let disk = Disk::new(&[("/p/a.ny", "use b"), ("/p/b.ny", "use a")]);
    let mut ctx = new_ctx();
    let a = load(&mut ctx, &disk, "/p/a.ny");
    let to_b = ctx.resolve_module(a, &vec!["b".to_string()], |q: &str| disk.canonicalize(q), |c: &String| disk.read(c));
    let b = to_b.unwrap();
    let to_a = ctx.resolve_module(b, &vec!["a".to_string()], |q: &str| disk.canonicalize(q), |c: &String| disk.read(c));
    assert_eq!(to_a, Some(a));
    assert_eq!(ctx.ast_cache.len(), 0);
    assert!(ctx.diagnostics().borrow().is_empty());
}

#[test]
fn intern_string_goes_to_the_interner() {
    let mut ctx = new_ctx();
    let s = ctx.intern_string("ident");
    let t = ctx.intern_string("other");
    assert_eq!(s, Symbol(0));
    assert_eq!(t, Symbol(1));
    assert_eq!(ctx.intern_string("ident"), s);
    assert_eq!(ctx.interner.lookup(t), "other");
}

//! Import resolution as a sequence of file requests: the resolver says which
//! file it needs next, the caller reads it and reports what it found, and the
//! resolver parses and analyzes each module once its own imports are done.
use vstd::prelude::*;

use crate::driver::paths::{candidates, module_candidate_paths, names_of};
use crate::driver::{DriverError, entry_imports};
use crate::frontend::analyze::analyze;
use crate::frontend::ast::Ast;
use crate::frontend::lexer::{lex, lexed, tokens_view};
use crate::frontend::parser::{Parser, simple_reach, without_comments};
use crate::frontend::tokens::{Identifier, Token};
use crate::frontend::typed_ast::{TypedModule, clone_decls, str_eq};
use crate::text::{push_str, str_to_string};

verus! {

/// What reading a requested file gave.
pub enum FileEvent {
    /// The file's text, and its canonical path (the same file reached by two
    /// import spellings has one canonical path).
    Read { content: String, canonical: String },
    /// No such file.
    NotFound { message: String },
    /// The file exists but could not be read.
    Failed { message: String },
}

/// The candidates of one import being probed.
pub struct Load {
    pub key: Vec<String>,
    pub candidates: Vec<String>,
    pub next: usize,
    /// The first failed candidate: its path, whether it was missing, and the reason.
    pub first_failure: Option<(String, bool, String)>,
}

/// A module whose own imports are being resolved.
pub struct Frame {
    pub key: Vec<String>,
    pub canonical: String,
    pub ast: Ast,
    pub pending: Vec<Vec<String>>,
}

/// The state of import resolution.
pub struct ImportResolver {
    roots: Vec<String>,
    resolved: Vec<(Vec<String>, TypedModule)>,
    interned: Vec<(String, Vec<String>)>,
    frames: Vec<Frame>,
    top: Vec<Vec<String>>,
    load: Option<Load>,
}

pub open spec fn key_names(k: Vec<String>) -> Seq<Seq<char>> {
    names_of(k@)
}

/// Two import paths name the same module.
pub fn same_key(a: &Vec<String>, b: &Vec<String>) -> (r: bool)
    ensures
        r == (key_names(*a) == key_names(*b)),
{
    if a.len() != b.len() {
        proof { assert(key_names(*a).len() != key_names(*b).len()); }
        return false;
    }
    let mut i: usize = 0;
    while i < a.len()
        invariant
            a.len() == b.len(),
            0 <= i <= a.len(),
            forall|j: int| 0 <= j < i ==> a@[j]@ == b@[j]@,
        decreases a.len() - i,
    {
        if !str_eq(a[i].as_str(), b[i].as_str()) {
            proof { assert(key_names(*a)[i as int] != key_names(*b)[i as int]); }
            return false;
        }
        i = i + 1;
    }
    proof { assert(key_names(*a) =~= key_names(*b)); }
    true
}

/// `a::b` for an import path.
fn module_text(key: &Vec<String>) -> (s: String)
    ensures
        s@ == crate::driver::joined_text(key_names(*key), "::"@),
{
    crate::driver::joined(key, "::")
}

/// Every module resolved `before` is still resolved `after`, under the same
/// import path and with the same contents, in the same place.
pub open spec fn still_resolved(before: Seq<(Vec<String>, TypedModule)>, after: Seq<(Vec<String>, TypedModule)>) -> bool {
    &&& before.len() <= after.len()
    &&& forall|i: int| 0 <= i < before.len() ==> #[trigger] after[i] == before[i]
}

pub open spec fn pending_total(frames: Seq<Frame>) -> nat
    decreases frames.len(),
{
    if frames.len() == 0 {
        0
    } else {
        pending_total(frames.drop_last()) + frames.last().pending@.len()
    }
}

impl ImportResolver {
    /// The modules resolved so far, by import path.
    pub closed spec fn resolved(&self) -> Seq<(Vec<String>, TypedModule)> {
        self.resolved@
    }

    /// A module is resolved under `key`.
    pub open spec fn has(&self, key: Seq<Seq<char>>) -> bool {
        exists|i: int| 0 <= i < self.resolved().len() && key_names(#[trigger] self.resolved()[i].0) == key
    }

    /// No import path is resolved twice.
    pub closed spec fn wf(&self) -> bool {
        &&& forall|i: int, j: int| 0 <= i < j < self.resolved@.len() ==> key_names(#[trigger] self.resolved@[i].0)
            != key_names(#[trigger] self.resolved@[j].0)
        &&& self.load matches Some(l) ==> l.next < l.candidates.len()
    }

    /// Nothing is under way: every import reached has been resolved.
    pub closed spec fn done(&self) -> bool {
        self.frames@.len() == 0 && self.top@.len() == 0 && self.load is None
    }

    /// A file has been requested and not yet reported on.
    pub open spec fn awaiting_file(&self) -> bool {
        self.requested() is Some
    }

    /// The imports of the entry program still to be taken up, in order.
    pub closed spec fn to_take_up(&self) -> Seq<Seq<Seq<char>>> {
        Seq::new(self.top@.len(), |k: int| key_names(self.top@[k]))
    }

    /// How many imported modules are being read, their own imports still
    /// being resolved.
    pub closed spec fn modules_open(&self) -> nat {
        self.frames@.len()
    }

    /// A module resolved before stays resolved while the resolved list only
    /// grows.
    pub proof fn lemma_has_kept(&self, later: &Self, key: Seq<Seq<char>>)
        requires
            self.has(key),
            still_resolved(self.resolved(), later.resolved()),
        ensures
            later.has(key),
    {
        let i = choose|i: int| 0 <= i < self.resolved().len() && key_names(#[trigger] self.resolved()[i].0) == key;
        assert(later.resolved()[i] == self.resolved()[i]);
    }

    /// A module read from the file `canonical` is being resolved.
    pub closed spec fn reading(&self, canonical: Seq<char>) -> bool {
        exists|f: int| 0 <= f < self.frames@.len() && #[trigger] self.frames@[f].canonical@ == canonical
    }

    /// The file `canonical` has been read before.
    pub closed spec fn seen_file(&self, canonical: Seq<char>) -> bool {
        exists|i: int| 0 <= i < self.interned@.len() && #[trigger] self.interned@[i].0@ == canonical
    }

    /// The import path of the module read last, when all of its own imports
    /// are resolved and it is next to be analysed.
    pub closed spec fn ready_module(&self) -> Option<Seq<Seq<char>>> {
        if self.frames@.len() > 0 && self.frames@.last().pending.len() == 0 {
            Some(key_names(self.frames@.last().key))
        } else {
            None
        }
    }

    /// The import at `k` of the entry program is the first one not yet
    /// resolved.
    pub open spec fn first_unresolved(&self, k: int) -> bool {
        &&& 0 <= k < self.to_take_up().len()
        &&& !self.has(self.to_take_up()[k])
        &&& forall|j: int| 0 <= j < k ==> self.has(#[trigger] self.to_take_up()[j])
    }

    /// The directories searched for imported modules.
    pub closed spec fn search_roots(&self) -> Seq<Seq<char>> {
        names_of(self.roots@)
    }

    /// The file asked for and not yet reported on.
    pub closed spec fn requested(&self) -> Option<Seq<char>> {
        match self.load {
            Some(l) => Some(l.candidates@[l.next as int]@),
            None => None,
        }
    }

    /// The candidate file to be asked for if the requested one cannot be read.
    pub closed spec fn fallback(&self) -> Option<Seq<char>> {
        match self.load {
            Some(l) => if l.next + 1 < l.candidates.len() {
                Some(l.candidates@[l.next + 1]@)
            } else {
                None
            },
            None => None,
        }
    }

    closed spec fn work(&self) -> nat {
        self.top@.len() + self.frames@.len() + pending_total(self.frames@)
    }

    /// Start resolving the imports of the entry program, searched for under `roots`.
    pub fn new(entry: &Ast, roots: Vec<String>) -> (r: Result<ImportResolver, DriverError>)
        ensures
            r matches Ok(s) ==> s.wf() && s.resolved().len() == 0 && s.modules_open() == 0,
            r matches Err(e) ==> e is EmptyImportPath,
            crate::driver::has_empty_import(entry.declarations@) ==> r is Err,
            !crate::driver::has_empty_import(entry.declarations@) ==> (r matches Ok(s) && s.to_take_up()
                == crate::driver::import_paths(entry.declarations@) && s.search_roots() == names_of(roots@)
                && !s.awaiting_file()),
    {
        let top = entry_imports(entry)?;
        Ok(ImportResolver {
            roots,
            resolved: Vec::new(),
            interned: Vec::new(),
            frames: Vec::new(),
            top,
            load: None,
        })
    }

    fn is_resolved(&self, key: &Vec<String>) -> (r: Option<usize>)
        ensures
            r matches Some(i) ==> i < self.resolved@.len() && key_names(self.resolved@[i as int].0) == key_names(*key),
            r is None ==> !self.has(key_names(*key)),
            r is None ==> forall|j: int| 0 <= j < self.resolved@.len() ==> key_names(#[trigger] self.resolved@[j].0) != key_names(*key),
    {
        let mut i: usize = 0;
        while i < self.resolved.len()
            invariant
                0 <= i <= self.resolved.len(),
                forall|j: int| 0 <= j < i ==> key_names(#[trigger] self.resolved@[j].0) != key_names(*key),
            decreases self.resolved.len() - i,
        {
            if same_key(&self.resolved[i].0, key) {
                return Some(i);
            }
            i = i + 1;
        }
        None
    }

    fn under_way(&self, key: &Vec<String>) -> (r: bool)
        ensures
            r == exists|f: int| 0 <= f < self.frames@.len() && key_names(#[trigger] self.frames@[f].key) == key_names(*key),
    {
        let mut i: usize = 0;
        while i < self.frames.len()
            invariant
                0 <= i <= self.frames.len(),
                forall|j: int| 0 <= j < i ==> key_names(#[trigger] self.frames@[j].key) != key_names(*key),
            decreases self.frames.len() - i,
        {
            if same_key(&self.frames[i].key, key) {
                return true;
            }
            i = i + 1;
        }
        false
    }

    fn cycle(&self, key: &Vec<String>) -> (e: DriverError)
        ensures
            e is CircularImport,
    {
        let mut stack: Vec<String> = Vec::new();
        let mut i: usize = 0;
        while i < self.frames.len()
            decreases self.frames.len() - i,
        {
            stack.push(module_text(&self.frames[i].key));
            i = i + 1;
        }
        stack.push(module_text(key));
        DriverError::CircularImport { stack }
    }

    /// Take up one import: nothing to do when it is resolved, a cycle when it
    /// is under way, otherwise start probing its candidate files.
    fn take_up(&mut self, key: Vec<String>) -> (r: Result<(), DriverError>)
        requires
            old(self).wf(),
            old(self).load is None,
        ensures
            final(self).wf(),
            final(self).resolved@ == old(self).resolved@,
            final(self).frames@ == old(self).frames@,
            final(self).top@ == old(self).top@,
            final(self).roots@ == old(self).roots@,
            old(self).has(key_names(key)) ==> r is Ok && final(self).load is None,
            !old(self).has(key_names(key)) && (exists|f: int| 0 <= f < old(self).frames@.len()
                && key_names(#[trigger] old(self).frames@[f].key) == key_names(key)) ==> (r matches Err(e) && e is CircularImport),
            !old(self).has(key_names(key)) && !(exists|f: int| 0 <= f < old(self).frames@.len()
                && key_names(#[trigger] old(self).frames@[f].key) == key_names(key)) ==> if candidates(key_names(key), names_of(old(self).roots@)).len() == 0 {
                r matches Err(e) && e is ImportNotFound
            } else {
                r is Ok && (final(self).load matches Some(l) && key_names(l.key) == key_names(key) && l.next == 0
                    && names_of(l.candidates@) == candidates(key_names(key), names_of(old(self).roots@)))
            },
    {
        match self.is_resolved(&key) {
            Some(i) => {
                proof {
                    assert(key_names(self.resolved()[i as int].0) == key_names(key));
                    assert(self.has(key_names(key)));
                }
                return Ok(());
            },
            None => {},
        }
        if self.under_way(&key) {
            return Err(self.cycle(&key));
        }
        let candidates = module_candidate_paths(&key, &self.roots);
        if candidates.len() == 0 {
            return Err(DriverError::ImportNotFound { module: module_text(&key), searched: self.roots.clone() });
        }
        self.load = Some(Load { key, candidates, next: 0, first_failure: None });
        Ok(())
    }

    /// Analyze the innermost module under way, whose imports are all resolved.
    fn finish_frame(&mut self) -> (r: Result<(), DriverError>)
        requires
            old(self).wf(),
            old(self).load is None,
            old(self).frames@.len() > 0,
        ensures
            final(self).wf(),
            final(self).load is None,
            final(self).top@ == old(self).top@,
            final(self).frames@ == old(self).frames@.drop_last(),
            still_resolved(old(self).resolved@, final(self).resolved@),
            r matches Err(e) ==> e is ModuleAnalysis,
            r is Ok ==> final(self).has(key_names(old(self).frames@.last().key)),
    {
        let frame = self.frames.pop().unwrap();
        let program = match analyze(frame.ast, &self.resolved) {
            Ok(p) => p,
            Err(e) => {
                return Err(DriverError::ModuleAnalysis { module: module_text(&frame.key), source: e });
            },
        };
        let name = if frame.key.len() > 0 {
            frame.key[frame.key.len() - 1].clone()
        } else {
            String::new()
        };
        let mut path: Vec<Identifier> = Vec::new();
        let mut i: usize = 0;
        while i < frame.key.len()
            decreases frame.key.len() - i,
        {
            path.push(Identifier { value: frame.key[i].clone() });
            i = i + 1;
        }
        let exports = if program.symbol_table.scopes.len() > 0 {
            let g = program.symbol_table.global_symbols();
            let mut out: Vec<(Identifier, crate::frontend::typed_ast::TypedSymbol)> = Vec::new();
            let mut k: usize = 0;
            while k < g.len()
                decreases g.len() - k,
            {
                out.push((g[k].0.clone(), g[k].1.clone()));
                k = k + 1;
            }
            out
        } else {
            Vec::new()
        };
        let mut declarations = program.declarations;
        let mut imported = program.imported_declarations;
        declarations.append(&mut imported);
        let module = TypedModule { name, path, exports, declarations };
        let key2 = frame.key.clone();
        let ghost fk = key_names(frame.key);
        self.add_resolved(frame.key, module);
        let ghost mid = *self;
        self.interned.push((frame.canonical, key2));
        proof {
            assert(fk == key_names(old(self).frames@.last().key));
            assert(mid.has(fk));
            assert(self.resolved() == mid.resolved());
        }
        Ok(())
    }

    /// The file to read next, or `None` once every import is resolved.
    pub fn request(&mut self) -> (r: Result<Option<String>, DriverError>)
        requires
            old(self).wf(),
        ensures
            final(self).wf(),
            r matches Ok(None) ==> final(self).done(),
            r matches Ok(Some(p)) ==> final(self).awaiting_file() && final(self).requested() == Some(p@),
            old(self).awaiting_file() ==> (r matches Ok(Some(p)) && Some(p@) == old(self).requested() && *final(self) == *old(self)),
            still_resolved(old(self).resolved(), final(self).resolved()),
            r matches Err(e) ==> e is CircularImport || e is ImportNotFound || e is ModuleAnalysis,
            !old(self).awaiting_file() && old(self).modules_open() == 0 ==> forall|k: int| #[trigger] old(self).first_unresolved(k)
                ==> (if candidates(old(self).to_take_up()[k], old(self).search_roots()).len() > 0 {
                    r matches Ok(Some(p)) && p@ == candidates(old(self).to_take_up()[k], old(self).search_roots())[0]
                } else {
                    r matches Err(e) && e is ImportNotFound
                }),
            !old(self).awaiting_file() && old(self).modules_open() == 0 && (forall|j: int| 0 <= j < old(self).to_take_up().len()
                ==> old(self).has(#[trigger] old(self).to_take_up()[j])) ==> r matches Ok(None),
            !old(self).awaiting_file() ==> (old(self).ready_module() matches Some(key) ==> (r is Ok ==> final(self).has(key))),
    {
        let ghost clean = !self.awaiting_file() && self.modules_open() == 0;
        let ghost ready = self.ready_module();
        let ghost mut ready_done = false;
        let ghost top0 = self.to_take_up();
        let ghost mut c: int = 0;
        loop
            invariant
                self.wf(),
                still_resolved(old(self).resolved(), self.resolved()),
                old(self).awaiting_file() ==> *self == *old(self),
                clean == (!old(self).awaiting_file() && old(self).modules_open() == 0),
                ready == old(self).ready_module(),
                !old(self).awaiting_file() && ready is Some && !ready_done ==> *self == *old(self),
                ready_done ==> (ready matches Some(key) && self.has(key)),
                top0 == old(self).to_take_up(),
                clean ==> self.frames@.len() == 0 && self.resolved@ == old(self).resolved@ && self.roots@ == old(self).roots@,
                clean ==> 0 <= c <= top0.len() && self.to_take_up() == top0.subrange(c, top0.len() as int),
                clean ==> forall|j: int| 0 <= j < c && !(self.load is Some && j == c - 1) ==> old(self).has(#[trigger] top0[j]),
                clean && self.load is Some ==> c >= 1 && !old(self).has(top0[c - 1])
                    && self.requested() == Some(candidates(top0[c - 1], old(self).search_roots())[0])
                    && candidates(top0[c - 1], old(self).search_roots()).len() > 0,
            decreases self.work(),
        {
            match &self.load {
                Some(l) => {
                    let p = l.candidates[l.next].clone();
                    proof {
                        if clean {
                            assert(Some(p@) == self.requested());
                            assert forall|k: int| #[trigger] old(self).first_unresolved(k) implies k == c - 1 by {
                                if k < c - 1 {
                                    assert(old(self).has(top0[k]));
                                } else if k > c - 1 {
                                    assert(old(self).has(old(self).to_take_up()[c - 1]));
                                }
                            }
                        }
                    }
                    return Ok(Some(p));
                },
                None => {},
            }
            if self.frames.len() > 0 {
                let n = self.frames.len();
                if self.frames[n - 1].pending.len() > 0 {
                    let ghost old_frames = self.frames@;
                    let mut frame = self.frames.pop().unwrap();
                    let key = frame.pending.remove(0);
                    self.frames.push(frame);
                    proof {
                        assert(self.frames@.drop_last() =~= old_frames.drop_last());
                        assert forall|f: int| 0 <= f < self.frames@.len() implies key_names(#[trigger] self.frames@[f].key)
                            == key_names(old_frames[f].key) by {}
                    }
                    let ghost pre = *self;
                    self.take_up(key)?;
                    proof {
                        if ready_done {
                            pre.lemma_has_kept(self, ready->Some_0);
                        }
                    }
                } else {
                    proof {
                        assert(self.frames@.drop_last() =~= self.frames@.subrange(0, n - 1));
                    }
                    let ghost pre = *self;
                    self.finish_frame()?;
                    proof {
                        if ready_done {
                            pre.lemma_has_kept(self, ready->Some_0);
                        } else if ready is Some {
                            ready_done = true;
                        }
                    }
                }
            } else if self.top.len() > 0 {
                let ghost before = self.to_take_up();
                let key = self.top.remove(0);
                proof {
                    if clean {
                        assert(key_names(key) == before[0]);
                        assert(self.to_take_up() =~= before.subrange(1, before.len() as int));
                        assert(before[0] == top0[c]);
                        assert(top0.subrange(c, top0.len() as int).subrange(1, top0.len() - c) =~= top0.subrange(c + 1, top0.len() as int));
                        assert(self.resolved() == old(self).resolved());
                        if old(self).has(top0[c]) {
                            assert(self.has(key_names(key)));
                        }
                    }
                }
                let ghost pre = *self;
                let taken = self.take_up(key);
                proof {
                    if clean {
                        c = c + 1;
                    }
                    if ready_done {
                        pre.lemma_has_kept(self, ready->Some_0);
                    }
                }
                taken?;
            } else {
                return Ok(None);
            }
        }
    }

    /// Report what reading the requested file gave.
    #[verifier::loop_isolation(false)]
    pub fn supply(&mut self, event: FileEvent) -> (r: Result<(), DriverError>)
        requires
            old(self).wf(),
        ensures
            final(self).wf(),
            still_resolved(old(self).resolved(), final(self).resolved()),
            !old(self).awaiting_file() ==> r is Ok && *final(self) == *old(self),
            old(self).awaiting_file() && !(event is Read) ==> match old(self).fallback() {
                Some(p) => r is Ok && final(self).requested() == Some(p),
                None => (r matches Err(e) && (e is ImportNotFound || e is ImportRead)),
            },
            r is Ok && old(self).awaiting_file() && event is Read ==> !final(self).awaiting_file(),
            old(self).awaiting_file() ==> (event matches FileEvent::Read { content, canonical } ==> (!old(self).seen_file(canonical@)
                && old(self).reading(canonical@) ==> (r matches Err(e) && e is CircularImport))),
            old(self).awaiting_file() ==> (event matches FileEvent::Read { content, canonical } ==> (!old(self).seen_file(canonical@)
                && !old(self).reading(canonical@) && (forall|toks: Seq<Token>| #[trigger] tokens_view(toks) == lexed(content@)
                ==> simple_reach(without_comments(toks), 0, without_comments(toks).len() as int)) ==> (r is Ok
                && final(self).modules_open() == old(self).modules_open() + 1 && final(self).reading(canonical@)))),
    {
        let l = match self.load.take() {
            Some(l) => l,
            None => {
                return Ok(());
            },
        };
        match event {
            FileEvent::Read { content, canonical } => {
                let mut i: usize = 0;
                while i < self.interned.len()
                    invariant
                        self.wf(),
                        self.load is None,
                        l.next < l.candidates.len(),
                        self.resolved@ == old(self).resolved@,
                        self.frames@ == old(self).frames@,
                        self.interned@ == old(self).interned@,
                    decreases self.interned.len() - i,
                {
                    if str_eq(self.interned[i].0.as_str(), canonical.as_str()) {
                        proof {
                            assert(old(self).interned@[i as int].0@ == canonical@);
                            assert(old(self).seen_file(canonical@));
                        }
                        match self.is_resolved(&self.interned[i].1) {
                            Some(k) => {
                                let module = self.resolved[k].1.clone();
                                self.add_resolved(l.key, module);
                                return Ok(());
                            },
                            None => {},
                        }
                    }
                    i = i + 1;
                }
                let mut f: usize = 0;
                while f < self.frames.len()
                    invariant
                        self.wf(),
                        self.load is None,
                        l.next < l.candidates.len(),
                        self.resolved@ == old(self).resolved@,
                        self.frames@ == old(self).frames@,
                        forall|g: int| 0 <= g < f ==> (#[trigger] self.frames@[g]).canonical@ != canonical@,
                    decreases self.frames.len() - f,
                {
                    if str_eq(self.frames[f].canonical.as_str(), canonical.as_str()) {
                        proof {
                            assert(self.frames@[f as int].canonical@ == canonical@);
                            assert(old(self).reading(canonical@));
                        }
                        return Err(self.cycle(&l.key));
                    }
                    f = f + 1;
                }
                let tokens = lex(content.as_str());
                proof {
                    assert(tokens_view(tokens@) == lexed(content@));
                }
                let path = l.candidates[l.next].clone();
                let mut parser = Parser::new(tokens, path.as_str(), content);
                let ast = match parser.parse() {
                    Ok(a) => a,
                    Err(e) => {
                        return Err(DriverError::Parse(e));
                    },
                };
                proof {
                    if !crate::driver::has_empty_import(ast.declarations@) {
                    } else {
                        let i = choose|i: int| 0 <= i < ast.declarations@.len() && crate::driver::empty_import(#[trigger] ast.declarations@[i]);
                        assert(ast.declarations@[i] matches crate::frontend::ast::DeclarationNode::ImportDeclaration(imp) ==> imp.path.len() > 0);
                    }
                }
                let pending = entry_imports(&ast)?;
                let ghost canon = canonical@;
                self.frames.push(Frame { key: l.key, canonical, ast, pending });
                proof {
                    assert(self.frames@.last().canonical@ == canon);
                    assert(self.reading(canon));
                }
                Ok(())
            },
            FileEvent::NotFound { message } => self.failed(l, true, message),
            FileEvent::Failed { message } => self.failed(l, false, message),
        }
    }

    fn failed(&mut self, l: Load, missing: bool, message: String) -> (r: Result<(), DriverError>)
        requires
            old(self).wf(),
            old(self).load is None,
            l.next < l.candidates.len(),
        ensures
            final(self).wf(),
            final(self).resolved@ == old(self).resolved@,
            l.next + 1 < l.candidates.len() ==> r is Ok && final(self).requested() == Some(l.candidates@[l.next + 1]@),
            l.next + 1 >= l.candidates.len() ==> (r matches Err(e) && (e is ImportNotFound || e is ImportRead)),
    {
        let first = match l.first_failure {
            Some(x) => x,
            None => (l.candidates[l.next].clone(), missing, message),
        };
        let next = l.next + 1;
        if next < l.candidates.len() {
            self.load = Some(Load { key: l.key, candidates: l.candidates, next, first_failure: Some(first) });
            return Ok(());
        }
        let module = module_text(&l.key);
        let (path, was_missing, reason) = first;
        if !was_missing {
            Err(DriverError::ImportRead { module, path, message: reason })
        } else {
            Err(DriverError::ImportNotFound { module, searched: self.roots.clone() })
        }
    }

    /// Record `module` under `key`, unless a module is already recorded there.
    fn add_resolved(&mut self, key: Vec<String>, module: TypedModule)
        requires
            old(self).wf(),
        ensures
            final(self).wf(),
            final(self).load == old(self).load,
            final(self).frames@ == old(self).frames@,
            final(self).top@ == old(self).top@,
            final(self).has(key_names(key)),
            still_resolved(old(self).resolved@, final(self).resolved@),
    {
        match self.is_resolved(&key) {
            Some(i) => {
                proof {
                    assert(key_names(self.resolved()[i as int].0) == key_names(key));
                }
            },
            None => {
                let ghost before = self.resolved@;
                let ghost k = key;
                self.resolved.push((key, module));
                proof {
                    assert forall|i: int, j: int| 0 <= i < j < self.resolved@.len() implies key_names(
                        #[trigger] self.resolved@[i].0,
                    ) != key_names(#[trigger] self.resolved@[j].0) by {
                        assert(self.resolved@[i] == before[i]);
                        if j < before.len() {
                            assert(self.resolved@[j] == before[j]);
                        } else {
                            assert(key_names(before[i].0) != key_names(k));
                        }
                    }
                    assert(key_names(self.resolved@[before.len() as int].0) == key_names(k));
                    assert(key_names(self.resolved()[before.len() as int].0) == key_names(k));
                }
            },
        }
    }

    /// The resolved modules, by import path.
    pub fn into_resolved(self) -> (r: Vec<(Vec<String>, TypedModule)>)
        ensures
            r@ == self.resolved(),
    {
        self.resolved
    }
}

} // verus!

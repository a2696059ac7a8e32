//! Project shape validation, source-file discovery over a directory tree,
//! and the structuring phase that collects every file's top-level
//! declarations into the project-wide resource table.

use vstd::prelude::*;

use crate::diagnostics::{CompileException, ExceptionModel, ProjectStructureException};
use crate::lexer::{spec_tokenize, token_views, tokenize};
use crate::location::FireLocation;
use crate::strutil::string_eq_text;
use crate::table::{ResourceModel, StructuredFireProject, UncompiledFireResource, UncompiledResourceType};
use crate::token::{Token, TokenModel};
use vstd::string::*;

verus! {

/// What the storage medium reports about a candidate project directory;
/// whoever owns the real directory gathers these four facts and hands them
/// in as plain values.
#[derive(Clone, Copy, Debug)]
pub struct ProjectShape {
    /// The project path names a directory.
    pub is_dir: bool,
    /// The project directory has a `src` subdirectory.
    pub has_src_dir: bool,
    /// How many entries the `src` subdirectory holds.
    pub src_entry_count: usize,
    /// The project directory has a `target` subdirectory.
    pub has_target_dir: bool,
}

/// The verdict the required project shape gives: the first violation in the
/// fixed order not-a-directory, missing `src`, empty `src`, missing `target`.
pub open spec fn spec_verify_project_format(shape: ProjectShape) -> Result<
    (),
    ProjectStructureException,
> {
    if !shape.is_dir {
        Err(ProjectStructureException::NotDir)
    } else if !shape.has_src_dir {
        Err(ProjectStructureException::NoSrc)
    } else if shape.src_entry_count == 0 {
        Err(ProjectStructureException::EmptySrc)
    } else if !shape.has_target_dir {
        Err(ProjectStructureException::NoTarget)
    } else {
        Ok(())
    }
}

/// Checks the required project shape before any file is read: the project
/// must be a directory holding a non-empty `src` subdirectory and a `target`
/// subdirectory.
pub fn verify_project_format(shape: &ProjectShape) -> (r: Result<(), ProjectStructureException>)
    ensures
        r == spec_verify_project_format(*shape),
{
    if !shape.is_dir {
        Err(ProjectStructureException::NotDir)
    } else if !shape.has_src_dir {
        Err(ProjectStructureException::NoSrc)
    } else if shape.src_entry_count == 0 {
        Err(ProjectStructureException::EmptySrc)
    } else if !shape.has_target_dir {
        Err(ProjectStructureException::NoTarget)
    } else {
        Ok(())
    }
}

/// One entry of a directory tree, as handed to file discovery: a file with
/// its name, or a directory with its name and its own entries.
#[derive(Debug)]
pub enum FsEntry {
    /// A file, with its full name (extension included).
    File(String),
    /// A directory, with its name and contents.
    Dir(String, Vec<FsEntry>),
}

/// Whether a file name marks a Fire source file: a non-empty stem followed
/// by the `.fire` extension.
pub open spec fn is_fire_name(name: Seq<char>) -> bool {
    name.len() > 5 && name.subrange(name.len() - 5, name.len() as int) == ".fire"@
}

/// The file name with its `.fire` extension stripped.
pub open spec fn stem_of(name: Seq<char>) -> Seq<char> {
    name.subrange(0, name.len() - 5)
}

/// Mathematical model of a discovered source file: its resource location
/// and the path text naming it on the storage medium.
pub struct FileModel {
    pub location: Seq<Seq<char>>,
    pub file_location: Seq<char>,
}

/// The source files one tree entry yields: a `.fire` file becomes one
/// discovery at the location of its directory nesting extended by its stem;
/// any other file yields nothing; a directory adds one location segment and
/// one path segment and yields whatever lies beneath it.
pub open spec fn spec_discover(e: FsEntry, loc: Seq<Seq<char>>, path: Seq<char>) -> Seq<FileModel>
    decreases e, 0int,
{
    match e {
        FsEntry::File(name) => if is_fire_name(name@) {
            seq![
                FileModel {
                    location: loc.push(stem_of(name@)),
                    file_location: path + "/"@ + name@,
                },
            ]
        } else {
            Seq::empty()
        },
        FsEntry::Dir(name, entries) => spec_discover_list(
            entries@,
            0,
            loc.push(name@),
            path + "/"@ + name@,
        ),
    }
}

/// The source files the entries from index `i` on yield, in order.
pub open spec fn spec_discover_list(
    es: Seq<FsEntry>,
    i: int,
    loc: Seq<Seq<char>>,
    path: Seq<char>,
) -> Seq<FileModel>
    decreases es, es.len() - i,
{
    if i < 0 || i >= es.len() {
        Seq::empty()
    } else {
        spec_discover(es[i], loc, path) + spec_discover_list(es, i + 1, loc, path)
    }
}

/// A Fire source file awaiting compilation: its resource location and where
/// its text lives.
#[derive(Debug)]
pub struct UncompiledFireFile {
    /// The location its declarations nest under.
    pub location: FireLocation,
    /// The path text naming the file on the storage medium.
    pub file_location: String,
}

impl View for UncompiledFireFile {
    type V = FileModel;

    open spec fn view(&self) -> FileModel {
        FileModel { location: self.location@, file_location: self.file_location@ }
    }
}

/// The models of a sequence of discovered files.
pub open spec fn file_views(fs: Seq<UncompiledFireFile>) -> Seq<FileModel> {
    fs.map_values(|f: UncompiledFireFile| f@)
}

impl UncompiledFireFile {
    /// Pairs a resource location with the file path it came from.
    pub fn new(location: FireLocation, file_location: String) -> (r: UncompiledFireFile)
        ensures
            r.location@ == location@,
            r.file_location@ == file_location@,
    {
        UncompiledFireFile { location, file_location }
    }
}

/// Whether this file name marks a Fire source file; if so, also returns the
/// stem.
fn fire_stem(name: &String) -> (r: Option<String>)
    ensures
        match r {
            Some(st) => is_fire_name(name@) && st@ == stem_of(name@),
            None => !is_fire_name(name@),
        },
{
    let n = name.as_str().unicode_len();
    if n <= 5 {
        return None;
    }
    let ext = name.as_str().substring_char(n - 5, n).to_owned();
    if string_eq_text(&ext, ".fire") {
        Some(name.as_str().substring_char(0, n - 5).to_owned())
    } else {
        None
    }
}

/// Walks one directory's entries depth-first, appending one discovered file
/// per `.fire` file beneath them, with the location formed by the directory
/// nesting extended by the file's stem.
pub fn scan_load_files(
    files: &mut Vec<UncompiledFireFile>,
    path: &str,
    entries: &Vec<FsEntry>,
    loc: &FireLocation,
)
    ensures
        file_views(final(files)@) == file_views(old(files)@) + spec_discover_list(
            entries@,
            0,
            loc@,
            path@,
        ),
    decreases *entries,
{
    let ghost es = entries@;
    let ghost base = file_views(files@);
    let n = entries.len();
    let mut i: usize = 0;
    proof {
        assert(base + Seq::<FileModel>::empty() =~= base);
    }
    while i < n
        invariant
            es == entries@,
            n == es.len(),
            0 <= i <= n,
            file_views(files@) + spec_discover_list(es, i as int, loc@, path@) == base
                + spec_discover_list(es, 0, loc@, path@),
        decreases n - i,
    {
        let ghost mid = file_views(files@);
        match &entries[i] {
            FsEntry::File(name) => {
                match fire_stem(name) {
                    Some(st) => {
                        let mut p = String::from_str(path);
                        p.append("/");
                        p.append(name.as_str());
                        let f = UncompiledFireFile::new(loc.with(st), p);
                        let ghost fm = f@;
                        files.push(f);
                        proof {
                            assert(file_views(files@) =~= mid.push(fm));
                            assert(spec_discover(es[i as int], loc@, path@) =~= Seq::empty().push(
                                fm,
                            ));
                            assert(mid.push(fm) + spec_discover_list(es, i + 1, loc@, path@) =~= mid
                                + spec_discover_list(es, i as int, loc@, path@));
                        }
                    },
                    None => {
                        proof {
                            assert(spec_discover(es[i as int], loc@, path@) =~= Seq::<
                                FileModel,
                            >::empty());
                            assert(mid + spec_discover_list(es, i + 1, loc@, path@) =~= mid
                                + spec_discover_list(es, i as int, loc@, path@));
                        }
                    },
                }
            },
            FsEntry::Dir(dname, dentries) => {
                let mut p = String::from_str(path);
                p.append("/");
                p.append(dname.as_str());
                let sub = loc.with(dname.clone());
                scan_load_files(files, p.as_str(), dentries, &sub);
                proof {
                    assert(file_views(files@) =~= mid + spec_discover(es[i as int], loc@, path@));
                    assert((mid + spec_discover(es[i as int], loc@, path@)) + spec_discover_list(
                        es,
                        i + 1,
                        loc@,
                        path@,
                    ) =~= mid + spec_discover_list(es, i as int, loc@, path@));
                }
            },
        }
        i += 1;
    }
    proof {
        assert(file_views(files@) + Seq::<FileModel>::empty() =~= file_views(files@));
    }
}

/// Discovers every Fire source file under a project's `src` directory,
/// given that directory's path text and its entries; the location of a file
/// has one segment per directory level and ends with the file's stem.
pub fn get_all_project_files(src_path: &str, entries: &Vec<FsEntry>) -> (r: Vec<
    UncompiledFireFile,
>)
    ensures
        file_views(r@) == spec_discover_list(entries@, 0, Seq::empty(), src_path@),
{
    let mut out: Vec<UncompiledFireFile> = Vec::new();
    let root = FireLocation::new();
    scan_load_files(&mut out, src_path, entries, &root);
    proof {
        assert(file_views(Seq::<UncompiledFireFile>::empty()) =~= Seq::<FileModel>::empty());
        assert(Seq::<FileModel>::empty() + spec_discover_list(
            entries@,
            0,
            Seq::empty(),
            src_path@,
        ) =~= spec_discover_list(entries@, 0, Seq::empty(), src_path@));
    }
    out
}

/// The declaration kind a keyword token opens, if any.
pub open spec fn decl_kind(t: TokenModel) -> Option<UncompiledResourceType> {
    match t {
        TokenModel::FuncDef => Some(UncompiledResourceType::Function),
        TokenModel::ProcDef => Some(UncompiledResourceType::Process),
        TokenModel::StructDef => Some(UncompiledResourceType::Struct),
        TokenModel::TraitDef => Some(UncompiledResourceType::Trait),
        TokenModel::EnumDef => Some(UncompiledResourceType::Enum),
        TokenModel::Let => Some(UncompiledResourceType::Var),
        _ => None,
    }
}

/// The declared name a token carries, if it can name a declaration.
pub open spec fn header_name(t: TokenModel) -> Option<Seq<char>> {
    match t {
        TokenModel::Identifier(w) => Some(w),
        TokenModel::Type(w) => Some(w),
        _ => None,
    }
}

/// The top-level declaration headers of a token sequence, from index `i` at
/// brace depth `depth`: at depth zero, a declaration keyword followed by a
/// name yields one (name, kind) header; braces raise and lower the depth, so
/// declarations inside bodies are passed over.
pub open spec fn spec_headers(ts: Seq<TokenModel>, depth: int, i: int) -> Seq<
    (Seq<char>, UncompiledResourceType),
>
    decreases ts.len() - i,
{
    if i < 0 || i >= ts.len() {
        Seq::empty()
    } else if ts[i] == TokenModel::OpenBrace {
        spec_headers(ts, depth + 1, i + 1)
    } else if ts[i] == TokenModel::CloseBrace {
        spec_headers(ts, depth - 1, i + 1)
    } else if depth == 0 && decl_kind(ts[i]) is Some {
        if i + 1 < ts.len() && header_name(ts[i + 1]) is Some {
            Seq::empty().push(
                (header_name(ts[i + 1]).unwrap(), decl_kind(ts[i]).unwrap()),
            ) + spec_headers(ts, depth, i + 2)
        } else {
            spec_headers(ts, depth, i + 1)
        }
    } else {
        spec_headers(ts, depth, i + 1)
    }
}

/// The models of a collected header list.
pub open spec fn header_views(hs: Seq<(String, UncompiledResourceType)>) -> Seq<
    (Seq<char>, UncompiledResourceType),
> {
    hs.map_values(|p: (String, UncompiledResourceType)| (p.0@, p.1))
}

/// Collects the top-level declaration headers of a token sequence, exactly
/// as [`spec_headers`] describes.
pub fn scan_headers(tokens: &Vec<Token>) -> (hs: Vec<(String, UncompiledResourceType)>)
    ensures
        header_views(hs@) == spec_headers(token_views(tokens@), 0, 0),
{
    let ghost ts = token_views(tokens@);
    let n = tokens.len();
    let mut out: Vec<(String, UncompiledResourceType)> = Vec::new();
    let mut i: usize = 0;
    let mut depth: i128 = 0;
    proof {
        assert(header_views(out@) =~= Seq::<(Seq<char>, UncompiledResourceType)>::empty());
        assert(header_views(out@) + spec_headers(ts, 0, 0) =~= spec_headers(ts, 0, 0));
    }
    while i < n
        invariant
            ts == token_views(tokens@),
            n == tokens@.len(),
            0 <= i <= n,
            -(i as int) <= depth as int <= i as int,
            header_views(out@) + spec_headers(ts, depth as int, i as int) == spec_headers(
                ts,
                0,
                0,
            ),
        decreases n - i,
    {
        let ghost mid = header_views(out@);
        proof {
            assert(ts[i as int] == tokens@[i as int]@);
        }
        let kind: Option<UncompiledResourceType> = match &tokens[i] {
            Token::FuncDef => Some(UncompiledResourceType::Function),
            Token::ProcDef => Some(UncompiledResourceType::Process),
            Token::StructDef => Some(UncompiledResourceType::Struct),
            Token::TraitDef => Some(UncompiledResourceType::Trait),
            Token::EnumDef => Some(UncompiledResourceType::Enum),
            Token::Let => Some(UncompiledResourceType::Var),
            _ => None,
        };
        let is_open = match &tokens[i] {
            Token::OpenBrace => true,
            _ => false,
        };
        let is_close = match &tokens[i] {
            Token::CloseBrace => true,
            _ => false,
        };
        if is_open {
            depth += 1;
            i += 1;
        } else if is_close {
            depth -= 1;
            i += 1;
        } else if depth == 0 && kind.is_some() {
            let k = match kind {
                Some(k) => k,
                None => UncompiledResourceType::Function,
            };
            let name: Option<String> = if i + 1 < n {
                match &tokens[i + 1] {
                    Token::Identifier(w) => Some(w.clone()),
                    Token::Type(w) => Some(w.clone()),
                    _ => None,
                }
            } else {
                None
            };
            proof {
                if i + 1 < n {
                    assert(ts[i as int + 1] == tokens@[i as int + 1]@);
                }
            }
            match name {
                Some(w) => {
                    let ghost wm = w@;
                    out.push((w, k));
                    proof {
                        assert(header_views(out@) =~= mid.push((wm, k)));
                        assert(mid.push((wm, k)) + spec_headers(ts, depth as int, i + 2) =~= mid + (
                        Seq::empty().push((wm, k)) + spec_headers(ts, depth as int, i + 2)));
                    }
                    i += 2;
                },
                None => {
                    i += 1;
                },
            }
        } else {
            i += 1;
        }
    }
    proof {
        assert(header_views(out@) + Seq::<(Seq<char>, UncompiledResourceType)>::empty()
            =~= header_views(out@));
    }
    out
}

/// The table that inserting the headers from index `k` on, each at the
/// file's location extended by its name, leaves behind: the grown mapping,
/// or — at the first name whose full location is already taken — that
/// location together with the mapping built so far.
pub open spec fn insert_all(
    m: Map<Seq<Seq<char>>, ResourceModel>,
    loc: Seq<Seq<char>>,
    hs: Seq<(Seq<char>, UncompiledResourceType)>,
    k: int,
) -> Result<Map<Seq<Seq<char>>, ResourceModel>, (Seq<Seq<char>>, Map<Seq<Seq<char>>, ResourceModel>)>
    decreases hs.len() - k,
{
    if k < 0 || k >= hs.len() {
        Ok(m)
    } else {
        let full = loc.push(hs[k].0);
        if m.contains_key(full) {
            Err((full, m))
        } else {
            insert_all(
                m.insert(full, ResourceModel { loc: full, resource_type: hs[k].1 }),
                loc,
                hs,
                k + 1,
            )
        }
    }
}

/// A Fire file whose top-level declaration headers stand in the project's
/// resource table.
#[derive(Debug)]
pub struct StructuredFireFile {
    /// The location the file's declarations nest under.
    pub location: FireLocation,
}

impl UncompiledFireFile {
    /// Structures one file into the project: lexes its text, collects its
    /// top-level declaration headers, and inserts each into the table at
    /// this file's location extended by the declared name. A lexical
    /// diagnostic leaves the table untouched; a namespace collision stops at
    /// the first duplicate, keeping everything inserted before it.
    pub fn structure_into(self, text: &str, proj: &mut StructuredFireProject) -> (r: Result<
        StructuredFireFile,
        CompileException,
    >)
        requires
            old(proj).inv(),
            text@.len() < usize::MAX,
        ensures
            final(proj).inv(),
            match spec_tokenize(text@) {
                Err(le) => r matches Err(e) && e@ == le && final(proj)@ == old(proj)@,
                Ok(ts) => match insert_all(old(proj)@, self.location@, spec_headers(ts, 0, 0), 0) {
                    Ok(m) => r matches Ok(sf) && sf.location@ == self.location@ && final(proj)@
                        == m,
                    Err(pm) => r matches Err(e) && e@ == ExceptionModel::DuplicateResource(pm.0)
                        && final(proj)@ == pm.1,
                },
            },
    {
        let tokens = match tokenize(text) {
            Ok(v) => v,
            Err(e) => {
                return Err(e);
            },
        };
        let hs = scan_headers(&tokens);
        let ghost hm = header_views(hs@);
        let ghost start = proj@;
        let n = hs.len();
        let mut k: usize = 0;
        while k < n
            invariant
                proj.inv(),
                n == hs@.len(),
                hm == header_views(hs@),
                spec_tokenize(text@) == Ok::<Seq<TokenModel>, ExceptionModel>(
                    token_views(tokens@),
                ),
                hm == spec_headers(token_views(tokens@), 0, 0),
                start == old(proj)@,
                0 <= k <= n,
                insert_all(proj@, self.location@, hm, k as int) == insert_all(
                    start,
                    self.location@,
                    hm,
                    0,
                ),
            decreases n - k,
        {
            let full = self.location.with(hs[k].0.clone());
            let stub = UncompiledFireResource {
                loc: full.clone(),
                resource_type: hs[k].1,
            };
            proof {
                assert(hm[k as int] == (hs@[k as int].0@, hs@[k as int].1));
            }
            let ghost before = proj@;
            match proj.add_resource(&full, stub) {
                Ok(()) => {
                    proof {
                        assert(insert_all(before, self.location@, hm, k as int) == insert_all(
                            proj@,
                            self.location@,
                            hm,
                            k as int + 1,
                        ));
                    }
                },
                Err(e) => {
                    proof {
                        assert(proj@.contains_key(self.location@.push(hm[k as int].0)));
                        assert(insert_all(proj@, self.location@, hm, k as int) matches Err(pm)
                            && pm.0 == self.location@.push(hm[k as int].0) && pm.1 == proj@);
                    }
                    return Err(e);
                },
            }
            k += 1;
        }
        Ok(StructuredFireFile { location: self.location })
    }
}

} // verus!

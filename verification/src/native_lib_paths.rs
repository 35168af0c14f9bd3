//! Where a bundled native library lives, relative to the running executable.
//!
//! CEF and pdfium ship as loose shared libraries, so an application that
//! embeds them has to find the distribution at startup. The answer depends on
//! how the application was installed: below the install prefix on an FHS
//! system, in a store path on Nix, wherever `LD_LIBRARY_PATH` points in a
//! development build.
//!
//! The search is for Unix systems: paths are those of [`crate::path`], and the
//! entries of a search path are separated by colons.

use vstd::prelude::*;

use crate::path::{copy_bytes, same_bytes, str_bytes, UnixPath};

verus! {

/// Where the `cef-libs` package puts the distribution on FHS systems.
pub const CEF_FHS_DIR: &'static str = "/usr/lib/cef";

/// Environment variable that names the distribution directory.
pub const CEF_PATH_ENV: &'static str = "CEF_PATH";

/// Library directories to try under an install prefix, in order.
///
/// Debian-family systems and Nix use `lib`, Fedora-family systems use `lib64`.
pub const LIB_SUBDIRS: [&'static str; 2] = ["lib", "lib64"];

/// Where a CEF distribution sits under an install prefix.
pub const CEF_SUBDIR: &'static str = "lib/cef";

/// The data directories that an empty `XDG_DATA_DIRS` stands for.
pub const DEFAULT_XDG_DATA_DIRS: &'static str = "/usr/local/share:/usr/share";

/// The byte between the entries of a search path.
pub const COLON: u8 = 58;

/// The text of a string constant, as bytes.
pub open spec fn text_bytes(text: &str) -> Seq<u8> {
    vstd::utf8::encode_utf8(text@)
}

/// The `<prefix>` of an executable at `<prefix>/bin/<name>`.
pub open spec fn prefix_of(exe: Seq<u8>) -> Option<Seq<u8>> {
    match crate::path::parent_of(exe) {
        Some(bin) => if crate::path::file_name_of(bin) == Some(text_bytes("bin")) {
            crate::path::parent_of(bin)
        } else {
            None
        },
        None => None,
    }
}

/// Whether `path` is, component by component, one of `paths`.
pub open spec fn holds_path(paths: Seq<Seq<u8>>, path: Seq<u8>) -> bool {
    exists|k: int|
        0 <= k < paths.len() && crate::path::components(#[trigger] paths[k])
            == crate::path::components(path)
}

/// The list without the paths that repeat an earlier one.
pub open spec fn first_occurrences(paths: Seq<Seq<u8>>) -> Seq<Seq<u8>>
    decreases paths.len(),
{
    if paths.len() == 0 {
        Seq::empty()
    } else {
        let before = first_occurrences(paths.drop_last());
        if holds_path(before, paths.last()) {
            before
        } else {
            before.push(paths.last())
        }
    }
}

/// The list without the paths that have no text.
pub open spec fn nonempty_paths(paths: Seq<Seq<u8>>) -> Seq<Seq<u8>>
    decreases paths.len(),
{
    if paths.len() == 0 {
        Seq::empty()
    } else {
        let before = nonempty_paths(paths.drop_last());
        if paths.last().len() == 0 {
            before
        } else {
            before.push(paths.last())
        }
    }
}

/// The CEF directory in the prefix of each data directory. Entries that are
/// relative, or that have no prefix, are left out.
pub open spec fn data_dir_candidates(dirs: Seq<Seq<u8>>) -> Seq<Seq<u8>>
    decreases dirs.len(),
{
    if dirs.len() == 0 {
        Seq::empty()
    } else {
        let before = data_dir_candidates(dirs.drop_last());
        match crate::path::parent_of(dirs.last()) {
            Some(prefix) => if crate::path::has_root(dirs.last()) {
                before.push(crate::path::joined(prefix, text_bytes(CEF_SUBDIR)))
            } else {
                before
            },
            None => before,
        }
    }
}

/// The install prefix of `exe`, that is the `<prefix>` of `<prefix>/bin/<name>`.
///
/// `None` when the executable is not in a `bin` directory: a build tree has no
/// sibling `lib`, and guessing one would find the wrong thing.
pub fn install_prefix(exe: &UnixPath) -> (prefix: Option<UnixPath>)
    ensures
        crate::path::opt_path(prefix) == prefix_of(exe@),
{
    match exe.parent() {
        None => None,
        Some(bin) => match bin.file_name() {
            None => None,
            Some(name) => {
                let wanted: Vec<u8> = str_bytes("bin");
                if same_bytes(name.as_slice(), wanted.as_slice()) {
                    bin.parent()
                } else {
                    None
                }
            },
        },
    }
}

/// The entries of a search path.
fn split_paths(list: &[u8]) -> (paths: Vec<UnixPath>)
    ensures
        crate::path::path_texts(paths@) == crate::text::split_on(list@, COLON),
{
    let mut paths: Vec<UnixPath> = Vec::new();
    let mut entry: Vec<u8> = Vec::new();
    let mut i: usize = 0;
    proof {
        assert(list@.take(0) =~= Seq::empty());
        let pieces = crate::text::split_on(list@.take(0), COLON);
        assert(pieces.drop_last() =~= crate::path::path_texts(paths@));
        assert(pieces.last() =~= entry@);
    }
    while i < list.len()
        invariant
            i <= list.len(),
            crate::text::split_on(list@.take(i as int), COLON)
                == crate::path::path_texts(paths@).push(entry@),
        decreases list.len() - i,
    {
        let byte: u8 = list[i];
        let ghost seen = list@.take(i as int);
        let ghost done = crate::path::path_texts(paths@);
        proof {
            assert(list@.take(i as int + 1) =~= seen.push(byte));
            assert(seen.push(byte).drop_last() =~= seen);
        }
        if byte == COLON {
            paths.push(UnixPath::new(entry.as_slice()));
            proof {
                assert(crate::path::path_texts(paths@) =~= done.push(entry@));
            }
            entry = Vec::new();
            proof {
                assert(entry@ =~= Seq::empty());
            }
        } else {
            let ghost old_entry = entry@;
            entry.push(byte);
            proof {
                assert(done.push(old_entry).update(done.len() as int, entry@) =~= done.push(entry@));
                assert(done.push(old_entry).last() == old_entry);
            }
        }
        i = i + 1;
    }
    let ghost done = crate::path::path_texts(paths@);
    paths.push(UnixPath::new(entry.as_slice()));
    proof {
        assert(list@.take(list@.len() as int) =~= list@);
        assert(crate::path::path_texts(paths@) =~= done.push(entry@));
    }
    paths
}

/// Drop repeats while keeping the first occurrence, so precedence is preserved.
pub fn dedup_preserving_order(paths: Vec<UnixPath>) -> (seen: Vec<UnixPath>)
    ensures
        crate::path::path_texts(seen@) == first_occurrences(crate::path::path_texts(paths@)),
{
    let ghost texts = crate::path::path_texts(paths@);
    let mut seen: Vec<UnixPath> = Vec::new();
    let mut i: usize = 0;
    proof {
        assert(texts.take(0) =~= Seq::empty());
        assert(crate::path::path_texts(seen@) =~= Seq::empty());
    }
    while i < paths.len()
        invariant
            i <= paths.len(),
            texts == crate::path::path_texts(paths@),
            crate::path::path_texts(seen@) == first_occurrences(texts.take(i as int)),
        decreases paths.len() - i,
    {
        let ghost before = crate::path::path_texts(seen@);
        let mut known: bool = false;
        let mut k: usize = 0;
        while k < seen.len()
            invariant
                i < paths.len(),
                k <= seen.len(),
                before == crate::path::path_texts(seen@),
                known == (exists|j: int|
                    0 <= j < k && crate::path::components(#[trigger] before[j])
                        == crate::path::components(paths@[i as int]@)),
            decreases seen.len() - k,
        {
            assert(before[k as int] == seen@[k as int]@);
            if seen[k].same_path(&paths[i]) {
                known = true;
            }
            k = k + 1;
        }
        proof {
            assert(texts[i as int] == paths@[i as int]@);
            assert(texts.take(i as int + 1).drop_last() =~= texts.take(i as int));
            assert(known == holds_path(before, texts[i as int]));
        }
        if !known {
            seen.push(paths[i].duplicate());
            proof {
                assert(crate::path::path_texts(seen@) =~= before.push(texts[i as int]));
            }
        }
        i = i + 1;
    }
    assert(texts.take(texts.len() as int) =~= texts);
    seen
}

/// The environment a CEF lookup depends on.
///
/// Every field is optional and an absent one contributes no candidates.
#[derive(Debug)]
pub struct CefSearch {
    /// The running executable, used to derive the install prefix.
    pub exe: Option<UnixPath>,
    /// `$CEF_PATH`, an explicit override, tried first.
    pub cef_path: Option<Vec<u8>>,
    /// `$XDG_DATA_DIRS`, for a CEF that lives in a prefix of its own.
    pub xdg_data_dirs: Option<Vec<u8>>,
    /// `$LD_LIBRARY_PATH`, how a development run points at a build tree.
    pub ld_library_path: Option<Vec<u8>>,
}

impl Default for CefSearch {
    fn default() -> (search: Self)
        ensures
            search == (CefSearch {
                exe: None,
                cef_path: None,
                xdg_data_dirs: None,
                ld_library_path: None,
            }),
    {
        CefSearch { exe: None, cef_path: None, xdg_data_dirs: None, ld_library_path: None }
    }
}

fn copy_value(value: &Option<Vec<u8>>) -> (copy: Option<Vec<u8>>)
    ensures
        crate::path::opt_bytes(copy) == crate::path::opt_bytes(*value),
{
    match value {
        Some(bytes) => Some(crate::path::copy_bytes(bytes.as_slice())),
        None => None,
    }
}

impl Clone for CefSearch {
    fn clone(&self) -> (copy: CefSearch)
        ensures
            crate::path::opt_path(copy.exe) == crate::path::opt_path(self.exe),
            crate::path::opt_bytes(copy.cef_path) == crate::path::opt_bytes(self.cef_path),
            crate::path::opt_bytes(copy.xdg_data_dirs) == crate::path::opt_bytes(
                self.xdg_data_dirs,
            ),
            crate::path::opt_bytes(copy.ld_library_path) == crate::path::opt_bytes(
                self.ld_library_path,
            ),
    {
        CefSearch {
            exe: match &self.exe {
                Some(path) => Some(path.duplicate()),
                None => None,
            },
            cef_path: copy_value(&self.cef_path),
            xdg_data_dirs: copy_value(&self.xdg_data_dirs),
            ld_library_path: copy_value(&self.ld_library_path),
        }
    }
}

/// Whether `tried` are the paths that were probed, in order, up to and with
/// the first one that was found good. `answers` relates a path to what its
/// probe can have said.
pub open spec fn probed(
    answers: spec_fn(UnixPath, bool) -> bool,
    tried: Seq<UnixPath>,
    found: Option<UnixPath>,
) -> bool {
    match found {
        Some(path) => {
            &&& tried.len() > 0
            &&& tried.last() == path
            &&& answers(path, true)
            &&& forall|k: int| 0 <= k < tried.len() - 1 ==> answers(#[trigger] tried[k], false)
        },
        None => forall|k: int| 0 <= k < tried.len() ==> answers(#[trigger] tried[k], false),
    }
}

/// Whether `found` is the first good one of `candidates`: every candidate
/// before it was probed and turned down, and `None` means that all were.
pub open spec fn is_first_hit(
    answers: spec_fn(UnixPath, bool) -> bool,
    candidates: Seq<Seq<u8>>,
    found: Option<UnixPath>,
) -> bool {
    exists|tried: Seq<UnixPath>|
        {
            &&& #[trigger] probed(answers, tried, found)
            &&& crate::path::path_texts(tried).is_prefix_of(candidates)
            &&& found is None ==> tried.len() == candidates.len()
        }
}

/// What a call of `test` on a path can have returned.
pub open spec fn test_answers<F: Fn(&UnixPath) -> bool>(test: F) -> spec_fn(
    UnixPath,
    bool,
) -> bool {
    |path: UnixPath, good: bool| call_ensures(test, (&path,), good)
}

/// What a call of `is_file` on the file `name` below a directory can have
/// returned.
pub open spec fn file_answers<F: Fn(&UnixPath) -> bool>(is_file: F, name: Seq<char>) -> spec_fn(
    UnixPath,
    bool,
) -> bool {
    |dir: UnixPath, good: bool|
        exists|file: UnixPath|
            file@ == crate::path::joined(dir@, vstd::utf8::encode_utf8(name)) && #[trigger] call_ensures(
                is_file,
                (&file,),
                good,
            )
}

/// The first of `candidates` for which `test` says yes.
fn first_hit<F: Fn(&UnixPath) -> bool>(candidates: Vec<UnixPath>, test: &F) -> (found: Option<
    UnixPath,
>)
    requires
        forall|path: &UnixPath| call_requires(*test, (path,)),
    ensures
        is_first_hit(test_answers(*test), crate::path::path_texts(candidates@), found),
{
    let ghost texts = crate::path::path_texts(candidates@);
    let mut i: usize = 0;
    while i < candidates.len()
        invariant
            i <= candidates.len(),
            texts == crate::path::path_texts(candidates@),
            forall|path: &UnixPath| call_requires(*test, (path,)),
            forall|k: int|
                0 <= k < i ==> call_ensures(*test, (&#[trigger] candidates@[k],), false),
        decreases candidates.len() - i,
    {
        if test(&candidates[i]) {
            let mut rest: Vec<UnixPath> = candidates;
            let ghost all = rest@;
            let path: UnixPath = rest.swap_remove(i);
            proof {
                let tried = all.take(i as int + 1);
                assert(tried.last() == path);
                assert(crate::path::path_texts(tried) =~= texts.take(i as int + 1));
                assert(crate::path::path_texts(tried).is_prefix_of(texts));
                assert(probed(test_answers(*test), tried, Some(path)));
            }
            return Some(path);
        }
        i = i + 1;
    }
    proof {
        assert(probed(test_answers(*test), candidates@, None));
        assert(crate::path::path_texts(candidates@).is_prefix_of(texts));
    }
    None
}

/// What to do about the CEF directory at startup.
#[derive(Debug)]
pub struct CefPath {
    /// The directory that holds the distribution.
    pub dir: UnixPath,
    /// Whether `CEF_PATH` has to be set to it. A value that already names this
    /// directory is left untouched.
    pub export: bool,
}

impl CefSearch {
    /// The directories the explicit override contributes.
    pub open spec fn explicit_dirs(&self) -> Seq<Seq<u8>> {
        match self.cef_path {
            Some(path) => if path@.len() > 0 {
                seq![path@]
            } else {
                Seq::empty()
            },
            None => Seq::empty(),
        }
    }

    /// The directories the install prefix contributes.
    pub open spec fn prefix_dirs(&self) -> Seq<Seq<u8>> {
        match self.exe {
            Some(exe) => match prefix_of(exe@) {
                Some(prefix) => seq![crate::path::joined(prefix, text_bytes(CEF_SUBDIR))],
                None => Seq::empty(),
            },
            None => Seq::empty(),
        }
    }

    /// The directories the data directories contribute. An empty list stands
    /// for the default one.
    pub open spec fn data_dirs(&self) -> Seq<Seq<u8>> {
        match self.xdg_data_dirs {
            Some(list) => data_dir_candidates(
                crate::text::split_on(
                    if list@.len() > 0 {
                        list@
                    } else {
                        text_bytes(DEFAULT_XDG_DATA_DIRS)
                    },
                    COLON,
                ),
            ),
            None => Seq::empty(),
        }
    }

    /// The directories the loader's search path contributes.
    pub open spec fn loader_dirs(&self) -> Seq<Seq<u8>> {
        match self.ld_library_path {
            Some(list) => nonempty_paths(crate::text::split_on(list@, COLON)),
            None => Seq::empty(),
        }
    }

    /// Every directory to try, in order, before repeats are dropped.
    pub open spec fn all_dirs(&self) -> Seq<Seq<u8>> {
        self.explicit_dirs() + self.prefix_dirs() + self.data_dirs() + self.loader_dirs()
            + seq![text_bytes(CEF_FHS_DIR)]
    }

    /// Directories that may hold a CEF distribution, most specific first.
    ///
    /// An explicit `CEF_PATH` wins, then the prefix the binary was installed
    /// into, then the prefix of each `XDG_DATA_DIRS` entry, then
    /// `LD_LIBRARY_PATH`, and finally the FHS location.
    pub fn candidates(&self) -> (dirs: Vec<UnixPath>)
        ensures
            crate::path::path_texts(dirs@) == first_occurrences(self.all_dirs()),
    {
        let subdir: Vec<u8> = str_bytes(CEF_SUBDIR);
        let mut dirs: Vec<UnixPath> = Vec::new();
        if let Some(path) = &self.cef_path {
            if path.len() > 0 {
                dirs.push(UnixPath::new(path.as_slice()));
            }
        }
        assert(crate::path::path_texts(dirs@) =~= self.explicit_dirs());
        if let Some(exe) = &self.exe {
            if let Some(prefix) = install_prefix(exe) {
                dirs.push(prefix.join(subdir.as_slice()));
            }
        }
        assert(crate::path::path_texts(dirs@) =~= self.explicit_dirs() + self.prefix_dirs());
        let ghost start = crate::path::path_texts(dirs@);
        if let Some(list) = &self.xdg_data_dirs {
            let list: Vec<u8> = if list.len() > 0 {
                copy_bytes(list.as_slice())
            } else {
                str_bytes(DEFAULT_XDG_DATA_DIRS)
            };
            let entries: Vec<UnixPath> = split_paths(list.as_slice());
            let ghost texts = crate::path::path_texts(entries@);
            let mut i: usize = 0;
            assert(texts.take(0) =~= Seq::empty());
            assert(start + data_dir_candidates(texts.take(0)) =~= start);
            while i < entries.len()
                invariant
                    i <= entries.len(),
                    subdir@ == text_bytes(CEF_SUBDIR),
                    texts == crate::path::path_texts(entries@),
                    crate::path::path_texts(dirs@) == start + data_dir_candidates(
                        texts.take(i as int),
                    ),
                decreases entries.len() - i,
            {
                let ghost before = crate::path::path_texts(dirs@);
                proof {
                    assert(texts.take(i as int + 1).drop_last() =~= texts.take(i as int));
                    assert(texts[i as int] == entries@[i as int]@);
                }
                if entries[i].is_absolute() {
                    if let Some(prefix) = entries[i].parent() {
                        let dir: UnixPath = prefix.join(subdir.as_slice());
                        let ghost added = dir@;
                        dirs.push(dir);
                        proof {
                            assert(crate::path::path_texts(dirs@) =~= before.push(added));
                            assert(start + data_dir_candidates(texts.take(i as int)).push(added)
                                =~= (start + data_dir_candidates(texts.take(i as int))).push(
                                added,
                            ));
                        }
                    }
                }
                i = i + 1;
            }
            assert(texts.take(texts.len() as int) =~= texts);
        }
        assert(crate::path::path_texts(dirs@) =~= start + self.data_dirs());
        let ghost middle = crate::path::path_texts(dirs@);
        if let Some(list) = &self.ld_library_path {
            let entries: Vec<UnixPath> = split_paths(list.as_slice());
            let ghost texts = crate::path::path_texts(entries@);
            let mut i: usize = 0;
            assert(texts.take(0) =~= Seq::empty());
            assert(middle + nonempty_paths(texts.take(0)) =~= middle);
            while i < entries.len()
                invariant
                    i <= entries.len(),
                    texts == crate::path::path_texts(entries@),
                    crate::path::path_texts(dirs@) == middle + nonempty_paths(texts.take(i as int)),
                decreases entries.len() - i,
            {
                let ghost before = crate::path::path_texts(dirs@);
                proof {
                    assert(texts.take(i as int + 1).drop_last() =~= texts.take(i as int));
                    assert(texts[i as int] == entries@[i as int]@);
                }
                if !entries[i].is_empty() {
                    dirs.push(entries[i].duplicate());
                    proof {
                        let added = texts[i as int];
                        assert(crate::path::path_texts(dirs@) =~= before.push(added));
                        assert(middle + nonempty_paths(texts.take(i as int)).push(added) =~= (middle
                            + nonempty_paths(texts.take(i as int))).push(added));
                    }
                }
                i = i + 1;
            }
            assert(texts.take(texts.len() as int) =~= texts);
        }
        assert(crate::path::path_texts(dirs@) =~= middle + self.loader_dirs());
        let ghost before = crate::path::path_texts(dirs@);
        dirs.push(UnixPath::from_text(CEF_FHS_DIR));
        proof {
            assert(crate::path::path_texts(dirs@) =~= before.push(text_bytes(CEF_FHS_DIR)));
            assert(crate::path::path_texts(dirs@) =~= self.all_dirs());
        }
        dedup_preserving_order(dirs)
    }

    /// The first candidate that holds a CEF distribution, by the test given.
    pub fn find_with<F: Fn(&UnixPath) -> bool>(&self, is_cef_dir: &F) -> (found: Option<UnixPath>)
        requires
            forall|path: &UnixPath| call_requires(*is_cef_dir, (path,)),
        ensures
            is_first_hit(test_answers(*is_cef_dir), first_occurrences(self.all_dirs()), found),
    {
        first_hit(self.candidates(), is_cef_dir)
    }

    /// The first candidate that holds a file called `cef_lib`.
    pub fn find<F: Fn(&UnixPath) -> bool>(&self, cef_lib: &str, is_file: &F) -> (found: Option<
        UnixPath,
    >)
        requires
            forall|path: &UnixPath| call_requires(*is_file, (path,)),
        ensures
            is_first_hit(
                file_answers(*is_file, cef_lib@),
                first_occurrences(self.all_dirs()),
                found,
            ),
    {
        let name: Vec<u8> = str_bytes(cef_lib);
        let test = |dir: &UnixPath| -> (good: bool)
            ensures
                file_answers(*is_file, cef_lib@)(*dir, good),
            {
                let file: UnixPath = dir.join(name.as_slice());
                is_file(&file)
            };
        let found: Option<UnixPath> = self.find_with(&test);
        proof {
            let dirs = first_occurrences(self.all_dirs());
            let tried = choose|tried: Seq<UnixPath>|
                {
                    &&& #[trigger] probed(test_answers(test), tried, found)
                    &&& crate::path::path_texts(tried).is_prefix_of(dirs)
                    &&& found is None ==> tried.len() == dirs.len()
                };
            assert(probed(file_answers(*is_file, cef_lib@), tried, found));
        }
        found
    }
}

/// The first directory that holds a CEF distribution, for a captured
/// environment.
pub fn find_cef_dir<F: Fn(&UnixPath) -> bool>(
    search: &CefSearch,
    cef_lib: &str,
    is_file: &F,
) -> (found: Option<UnixPath>)
    requires
        forall|path: &UnixPath| call_requires(*is_file, (path,)),
    ensures
        is_first_hit(
            file_answers(*is_file, cef_lib@),
            first_occurrences(search.all_dirs()),
            found,
        ),
{
    search.find(cef_lib, is_file)
}

/// Locate CEF, and say whether `CEF_PATH` has to change to match.
///
/// `None` when nothing was found, in which case the environment is to be left
/// alone: a binary run out of a build tree has a copy of its own to fall back
/// to. A `CEF_PATH` that points at nothing does not stop the search.
pub fn ensure_cef_path<F: Fn(&UnixPath) -> bool>(
    search: &CefSearch,
    cef_lib: &str,
    is_file: &F,
) -> (resolved: Option<CefPath>)
    requires
        forall|path: &UnixPath| call_requires(*is_file, (path,)),
    ensures
        is_first_hit(
            file_answers(*is_file, cef_lib@),
            first_occurrences(search.all_dirs()),
            match resolved {
                Some(r) => Some(r.dir),
                None => None,
            },
        ),
        resolved matches Some(r) ==> r.export == (crate::path::opt_bytes(search.cef_path) != Some(
            r.dir@,
        )),
{
    match search.find(cef_lib, is_file) {
        None => None,
        Some(dir) => {
            let export: bool = match &search.cef_path {
                Some(path) => !same_bytes(path.as_slice(), dir.as_bytes()),
                None => true,
            };
            Some(CefPath { dir, export })
        },
    }
}

/// The path an override contributes: the override itself where it names the
/// library file, the file in it where it names a directory.
pub open spec fn override_paths(lib_name: Seq<u8>, override_path: Option<Seq<u8>>) -> Seq<Seq<u8>> {
    match override_path {
        Some(path) => if path.len() == 0 {
            Seq::empty()
        } else if crate::path::file_name_of(path) == Some(lib_name) {
            seq![path]
        } else {
            seq![crate::path::joined(path, lib_name)]
        },
        None => Seq::empty(),
    }
}

/// The library in one of the library directories of a prefix.
pub open spec fn in_lib_dir(prefix: Seq<u8>, subdir: Seq<u8>, lib_name: Seq<u8>) -> Seq<u8> {
    crate::path::joined(crate::path::joined(prefix, subdir), lib_name)
}

/// The paths an install prefix contributes.
pub open spec fn prefix_libs(lib_name: Seq<u8>, exe: Option<Seq<u8>>) -> Seq<Seq<u8>> {
    match exe {
        Some(exe) => match prefix_of(exe) {
            Some(prefix) => seq![
                in_lib_dir(prefix, text_bytes(LIB_SUBDIRS[0]), lib_name),
                in_lib_dir(prefix, text_bytes(LIB_SUBDIRS[1]), lib_name),
            ],
            None => Seq::empty(),
        },
        None => Seq::empty(),
    }
}

/// Every path to try for a library, in order, before repeats are dropped.
pub open spec fn all_library_paths(
    lib_name: Seq<u8>,
    override_path: Option<Seq<u8>>,
    exe: Option<Seq<u8>>,
) -> Seq<Seq<u8>> {
    override_paths(lib_name, override_path) + seq![
        crate::path::joined(text_bytes("."), lib_name),
    ] + prefix_libs(lib_name, exe)
}

/// The bytes of an optional slice.
pub open spec fn opt_slice(bytes: Option<&[u8]>) -> Option<Seq<u8>> {
    match bytes {
        Some(b) => Some(b@),
        None => None,
    }
}

/// The text of an optional reference to a path.
pub open spec fn opt_path_ref(path: Option<&UnixPath>) -> Option<Seq<u8>> {
    match path {
        Some(p) => Some(p@),
        None => None,
    }
}

/// Candidate paths for a native library file, most specific first.
///
/// The override may name either the library file or the directory holding it.
/// The current directory is tried so that a development run can drop the
/// library next to the build tree, and the install prefix is expanded over
/// [`LIB_SUBDIRS`].
pub fn library_candidates(
    lib_name: &[u8],
    override_path: Option<&[u8]>,
    exe: Option<&UnixPath>,
) -> (paths: Vec<UnixPath>)
    ensures
        crate::path::path_texts(paths@) == first_occurrences(
            all_library_paths(lib_name@, opt_slice(override_path), opt_path_ref(exe)),
        ),
{
    let mut paths: Vec<UnixPath> = Vec::new();
    if let Some(text) = override_path {
        if text.len() > 0 {
            let path: UnixPath = UnixPath::new(text);
            let is_file: bool = match path.file_name() {
                Some(name) => same_bytes(name.as_slice(), lib_name),
                None => false,
            };
            if is_file {
                paths.push(path);
            } else {
                paths.push(path.join(lib_name));
            }
        }
    }
    assert(crate::path::path_texts(paths@) =~= override_paths(lib_name@, opt_slice(override_path)));
    paths.push(UnixPath::from_text(".").join(lib_name));
    if let Some(exe) = exe {
        if let Some(prefix) = install_prefix(exe) {
            let first: Vec<u8> = str_bytes(LIB_SUBDIRS[0]);
            let second: Vec<u8> = str_bytes(LIB_SUBDIRS[1]);
            paths.push(prefix.join(first.as_slice()).join(lib_name));
            paths.push(prefix.join(second.as_slice()).join(lib_name));
        }
    }
    assert(crate::path::path_texts(paths@) =~= all_library_paths(
        lib_name@,
        opt_slice(override_path),
        opt_path_ref(exe),
    ));
    dedup_preserving_order(paths)
}

/// The first of [`library_candidates`] that exists.
pub fn find_library<F: Fn(&UnixPath) -> bool>(
    lib_name: &[u8],
    override_path: Option<&[u8]>,
    exe: Option<&UnixPath>,
    exists: &F,
) -> (found: Option<UnixPath>)
    requires
        forall|path: &UnixPath| call_requires(*exists, (path,)),
    ensures
        is_first_hit(
            test_answers(*exists),
            first_occurrences(
                all_library_paths(lib_name@, opt_slice(override_path), opt_path_ref(exe)),
            ),
            found,
        ),
{
    first_hit(library_candidates(lib_name, override_path, exe), exists)
}

/// The position of the first path in the list that is the same as `path`.
pub open spec fn first_position(paths: Seq<Seq<u8>>, path: Seq<u8>) -> int
    decreases paths.len(),
{
    if paths.len() == 0 {
        0
    } else if holds_path(paths.drop_last(), path) {
        first_position(paths.drop_last(), path)
    } else {
        paths.len() - 1
    }
}

proof fn lemma_same_components_held(paths: Seq<Seq<u8>>, a: Seq<u8>, b: Seq<u8>)
    requires
        crate::path::components(a) == crate::path::components(b),
        holds_path(paths, a),
    ensures
        holds_path(paths, b),
{
    let k = choose|k: int|
        0 <= k < paths.len() && crate::path::components(#[trigger] paths[k])
            == crate::path::components(a);
    assert(crate::path::components(paths[k]) == crate::path::components(b));
}

/// Dropping repeats loses no path, adds none, leaves no two the same, and
/// keeps the paths in the order in which they first occurred.
pub proof fn law_dedup_keeps_first(paths: Seq<Seq<u8>>)
    ensures
        ({
            let kept = first_occurrences(paths);
            &&& forall|path: Seq<u8>| holds_path(paths, path) <==> #[trigger] holds_path(kept, path)
            &&& forall|a: int, b: int|
                0 <= a < b < kept.len() ==> crate::path::components(#[trigger] kept[a])
                    != crate::path::components(#[trigger] kept[b])
            &&& forall|k: int|
                #![trigger kept[k]]
                0 <= k < kept.len() ==> 0 <= first_position(paths, kept[k]) < paths.len()
                    && paths[first_position(paths, kept[k])] == kept[k]
            &&& forall|a: int, b: int|
                0 <= a < b < kept.len() ==> first_position(paths, #[trigger] kept[a])
                    < first_position(paths, #[trigger] kept[b])
        }),
    decreases paths.len(),
{
    let kept = first_occurrences(paths);
    if paths.len() > 0 {
        let start = paths.drop_last();
        let last = paths.last();
        law_dedup_keeps_first(start);
        let before = first_occurrences(start);
        assert forall|path: Seq<u8>| holds_path(paths, path) <==> #[trigger] holds_path(
            kept,
            path,
        ) by {
            if holds_path(paths, path) {
                let k = choose|k: int|
                    0 <= k < paths.len() && crate::path::components(#[trigger] paths[k])
                        == crate::path::components(path);
                if k < start.len() {
                    assert(start[k] == paths[k]);
                    assert(holds_path(start, path));
                    assert(holds_path(before, path));
                    let j = choose|j: int|
                        0 <= j < before.len() && crate::path::components(#[trigger] before[j])
                            == crate::path::components(path);
                    assert(kept[j] == before[j]);
                } else if holds_path(before, last) {
                    lemma_same_components_held(before, last, path);
                } else {
                    assert(kept[before.len() as int] == last);
                }
            }
            if holds_path(kept, path) {
                let j = choose|j: int|
                    0 <= j < kept.len() && crate::path::components(#[trigger] kept[j])
                        == crate::path::components(path);
                if j < before.len() {
                    assert(before[j] == kept[j]);
                    assert(holds_path(before, path));
                    assert(holds_path(start, path));
                    let k = choose|k: int|
                        0 <= k < start.len() && crate::path::components(#[trigger] start[k])
                            == crate::path::components(path);
                    assert(paths[k] == start[k]);
                } else {
                    assert(paths[paths.len() - 1] == last);
                }
            }
        }
        assert forall|k: int| #![trigger kept[k]] 0 <= k < kept.len() implies 0 <= first_position(
            paths,
            kept[k],
        ) < paths.len() && paths[first_position(paths, kept[k])] == kept[k] && (k < before.len()
            ==> first_position(paths, kept[k]) == first_position(start, before[k])) && (k
            >= before.len() ==> first_position(paths, kept[k]) == paths.len() - 1) by {
            if k < before.len() {
                assert(kept[k] == before[k]);
                assert(holds_path(before, kept[k]));
                assert(holds_path(start, kept[k]));
            } else {
                assert(kept[k] == last);
                assert(!holds_path(before, last));
                assert(!holds_path(start, last));
            }
        }
        assert forall|a: int, b: int| 0 <= a < b < kept.len() implies crate::path::components(
            #[trigger] kept[a],
        ) != crate::path::components(#[trigger] kept[b]) by {
            assert(kept[a] == before[a]);
            if b < before.len() {
                assert(kept[b] == before[b]);
            } else {
                assert(kept[b] == last);
                if crate::path::components(before[a]) == crate::path::components(last) {
                    assert(holds_path(before, last));
                }
            }
        }
        assert forall|a: int, b: int| 0 <= a < b < kept.len() implies first_position(
            paths,
            #[trigger] kept[a],
        ) < first_position(paths, #[trigger] kept[b]) by {
            assert(kept[a] == before[a]);
            if b < before.len() {
                assert(kept[b] == before[b]);
            }
        }
    }
}

/// The first path of a list is never dropped.
proof fn lemma_first_kept(paths: Seq<Seq<u8>>)
    requires
        paths.len() > 0,
    ensures
        first_occurrences(paths).len() > 0,
        first_occurrences(paths)[0] == paths[0],
    decreases paths.len(),
{
    if paths.len() > 1 {
        lemma_first_kept(paths.drop_last());
    } else {
        assert(first_occurrences(paths.drop_last()) =~= Seq::empty());
        assert(!holds_path(first_occurrences(paths.drop_last()), paths.last()));
    }
}

/// An explicit `CEF_PATH` is tried before everything else.
pub proof fn law_explicit_cef_path_first(search: CefSearch)
    requires
        search.cef_path matches Some(path) && path@.len() > 0,
    ensures
        first_occurrences(search.all_dirs()).len() > 0,
        first_occurrences(search.all_dirs())[0] == search.cef_path->0@,
{
    let all = search.all_dirs();
    assert(search.explicit_dirs()[0] == search.cef_path->0@);
    assert(all[0] == search.cef_path->0@);
    lemma_first_kept(all);
}

/// Whatever the environment, the FHS location is among the candidates.
pub proof fn law_fhs_dir_always_tried(search: CefSearch)
    ensures
        holds_path(first_occurrences(search.all_dirs()), text_bytes(CEF_FHS_DIR)),
{
    let all = search.all_dirs();
    assert(all[all.len() - 1] == text_bytes(CEF_FHS_DIR));
    assert(holds_path(all, text_bytes(CEF_FHS_DIR)));
    law_dedup_keeps_first(all);
}

/// An absent field contributes no candidates: without any, only the FHS location
/// is tried.
pub proof fn law_absent_field_contributes_nothing(search: CefSearch)
    ensures
        search.cef_path is None ==> search.explicit_dirs().len() == 0,
        search.exe is None ==> search.prefix_dirs().len() == 0,
        search.xdg_data_dirs is None ==> search.data_dirs().len() == 0,
        search.ld_library_path is None ==> search.loader_dirs().len() == 0,
        search.cef_path is None && search.exe is None && search.xdg_data_dirs is None
            && search.ld_library_path is None ==> first_occurrences(search.all_dirs()) == seq![
            text_bytes(CEF_FHS_DIR),
        ],
{
    let fhs = text_bytes(CEF_FHS_DIR);
    if search.all_dirs().len() == 1 {
        assert(search.all_dirs() =~= seq![fhs]);
        assert(seq![fhs].drop_last() =~= Seq::empty());
        assert(first_occurrences(Seq::<Seq<u8>>::empty()) =~= Seq::empty());
        assert(first_occurrences(seq![fhs]) =~= seq![fhs]);
    }
}

/// The bytes of ASCII text are its characters' codes.
proof fn lemma_ascii_bytes(text: &str)
    requires
        vstd::utf8::is_ascii_chars(text@),
    ensures
        text_bytes(text) == Seq::new(text@.len(), |i: int| text@[i] as u8),
{
    vstd::utf8::is_ascii_chars_encode_utf8(text@);
}

proof fn lemma_constants_nonempty()
    ensures
        text_bytes(CEF_SUBDIR).len() > 0,
        text_bytes(CEF_FHS_DIR).len() > 0,
{
    reveal_strlit("lib/cef");
    reveal_strlit("/usr/lib/cef");
    lemma_ascii_bytes(CEF_SUBDIR);
    lemma_ascii_bytes(CEF_FHS_DIR);
}

proof fn lemma_data_dirs_nonempty(dirs: Seq<Seq<u8>>)
    ensures
        forall|k: int|
            0 <= k < data_dir_candidates(dirs).len() ==> (#[trigger] data_dir_candidates(
                dirs,
            )[k]).len() > 0,
    decreases dirs.len(),
{
    if dirs.len() > 0 {
        lemma_data_dirs_nonempty(dirs.drop_last());
        lemma_constants_nonempty();
        let before = data_dir_candidates(dirs.drop_last());
        let all = data_dir_candidates(dirs);
        assert forall|k: int| 0 <= k < all.len() implies (#[trigger] all[k]).len() > 0 by {
            if k < before.len() {
                assert(all[k] == before[k]);
            }
        }
    }
}

proof fn lemma_nonempty_paths(paths: Seq<Seq<u8>>)
    ensures
        forall|k: int|
            0 <= k < nonempty_paths(paths).len() ==> (#[trigger] nonempty_paths(paths)[k]).len()
                > 0,
    decreases paths.len(),
{
    if paths.len() > 0 {
        lemma_nonempty_paths(paths.drop_last());
        let before = nonempty_paths(paths.drop_last());
        let all = nonempty_paths(paths);
        assert forall|k: int| 0 <= k < all.len() implies (#[trigger] all[k]).len() > 0 by {
            if k < before.len() {
                assert(all[k] == before[k]);
            }
        }
    }
}

/// Empty entries of the environment contribute nothing: no candidate is empty.
pub proof fn law_no_empty_candidate(search: CefSearch)
    ensures
        forall|k: int|
            0 <= k < first_occurrences(search.all_dirs()).len() ==> (#[trigger] first_occurrences(
                search.all_dirs(),
            )[k]).len() > 0,
{
    let all = search.all_dirs();
    lemma_constants_nonempty();
    if let Some(list) = search.xdg_data_dirs {
        lemma_data_dirs_nonempty(
            crate::text::split_on(
                if list@.len() > 0 {
                    list@
                } else {
                    text_bytes(DEFAULT_XDG_DATA_DIRS)
                },
                COLON,
            ),
        );
    }
    if let Some(list) = search.ld_library_path {
        lemma_nonempty_paths(crate::text::split_on(list@, COLON));
    }
    let a = search.explicit_dirs();
    let b = a + search.prefix_dirs();
    let c = b + search.data_dirs();
    let d = c + search.loader_dirs();
    assert forall|k: int| 0 <= k < all.len() implies (#[trigger] all[k]).len() > 0 by {
        if k < a.len() {
        } else if k < b.len() {
            assert(all[k] == search.prefix_dirs()[k - a.len()]);
        } else if k < c.len() {
            assert(all[k] == search.data_dirs()[k - b.len()]);
        } else if k < d.len() {
            assert(all[k] == search.loader_dirs()[k - c.len()]);
        }
    }
    law_dedup_keeps_first(all);
    let kept = first_occurrences(all);
    assert forall|k: int| 0 <= k < kept.len() implies (#[trigger] kept[k]).len() > 0 by {
        assert(paths_at(all, first_position(all, kept[k])) == kept[k]);
    }
}

spec fn paths_at(paths: Seq<Seq<u8>>, at: int) -> Seq<u8> {
    paths[at]
}

/// The executable `<prefix>/bin/<name>` has the install prefix `<prefix>`.
pub proof fn law_prefix_of_installed_binary(prefix: Seq<u8>, name: Seq<u8>)
    requires
        crate::path::is_plain_name(name),
    ensures
        ({
            let exe = crate::path::joined(crate::path::joined(prefix, text_bytes("bin")), name);
            &&& prefix_of(exe) is Some
            &&& crate::path::components(prefix_of(exe)->0) == crate::path::components(prefix)
        }),
{
    let bin = text_bytes("bin");
    reveal_strlit("bin");
    lemma_ascii_bytes("bin");
    assert(bin =~= seq![98u8, 105u8, 110u8]);
    assert(crate::path::is_plain_name(bin)) by {
        assert(bin.len() == 3);
        assert(seq![crate::path::DOT, crate::path::DOT].len() == 2);
        assert forall|k: int| 0 <= k < bin.len() implies bin[k] != crate::path::SLASH by {}
    }
    let dir = crate::path::joined(prefix, bin);
    let exe = crate::path::joined(dir, name);
    crate::path::law_join_adds_component(prefix, bin);
    crate::path::law_join_adds_component(dir, name);
    crate::path::law_parent_drops_last(exe);
    let found = crate::path::parent_of(exe)->0;
    assert(crate::path::components(exe).drop_last() =~= crate::path::components(dir));
    assert(crate::path::components(found).last() == bin);
    crate::path::law_parent_drops_last(found);
    assert(crate::path::components(found).drop_last() =~= crate::path::components(prefix));
}

/// The places that are looked at have these names.
pub proof fn law_places_have_their_names()
    ensures
        CEF_FHS_DIR@ == "/usr/lib/cef"@,
        CEF_PATH_ENV@ == "CEF_PATH"@,
        CEF_SUBDIR@ == "lib/cef"@,
        DEFAULT_XDG_DATA_DIRS@ == "/usr/local/share:/usr/share"@,
        LIB_SUBDIRS[0]@ == "lib"@,
        LIB_SUBDIRS[1]@ == "lib64"@,
        COLON == 58,
{
}

/// An executable has an install prefix exactly if it is in a directory called
/// bin that is itself somewhere: the prefix is where that directory is.
pub proof fn law_prefix_holds_bin(exe: Seq<u8>)
    ensures
        ({
            let all = crate::path::components(exe);
            let bin = vstd::utf8::encode_utf8("bin"@);
            &&& prefix_of(exe) is Some ==> all.len() >= 2 && all[all.len() - 2] == bin
            &&& all.len() >= 2 && all.last() != seq![47u8] && all[all.len() - 2] == bin
                ==> prefix_of(exe) is Some
            &&& prefix_of(exe) matches Some(prefix) ==> crate::path::components(prefix)
                == all.drop_last().drop_last()
        }),
{
    let all = crate::path::components(exe);
    let bin = vstd::utf8::encode_utf8("bin"@);
    reveal_strlit("bin");
    lemma_ascii_bytes("bin");
    assert(bin =~= seq![98u8, 105u8, 110u8]);
    assert(bin.len() == 3);
    assert(seq![crate::path::SLASH].len() == 1 && seq![crate::path::DOT].len() == 1);
    assert(seq![crate::path::DOT, crate::path::DOT].len() == 2);
    if crate::path::has_parent(exe) {
        crate::path::law_parent_drops_last(exe);
        let dir = crate::path::parent_of(exe)->0;
        if crate::path::has_parent(dir) {
            crate::path::law_parent_drops_last(dir);
        }
        if all.len() >= 2 {
            assert(all.drop_last().last() == all[all.len() - 2]);
        }
    }
}

/// The override comes first, then the install prefix, then the data
/// directories, then the loader's path, then the place of the package: what is
/// tried is all of these in this order, and nothing else.
pub proof fn law_directories_are_tried_in_order(search: CefSearch)
    ensures
        ({
            let explicit: Seq<Seq<u8>> = match search.cef_path {
                Some(path) if path@.len() > 0 => seq![path@],
                _ => seq![],
            };
            let installed: Seq<Seq<u8>> = match search.exe {
                Some(exe) => match prefix_of(exe@) {
                    Some(prefix) => seq![
                        crate::path::joined(prefix, vstd::utf8::encode_utf8("lib/cef"@)),
                    ],
                    None => seq![],
                },
                None => seq![],
            };
            let data: Seq<Seq<u8>> = match search.xdg_data_dirs {
                Some(list) if list@.len() > 0 => data_dir_candidates(
                    crate::text::split_on(list@, 58u8),
                ),
                Some(_) => data_dir_candidates(
                    crate::text::split_on(
                        vstd::utf8::encode_utf8("/usr/local/share:/usr/share"@),
                        58u8,
                    ),
                ),
                None => seq![],
            };
            let loader: Seq<Seq<u8>> = match search.ld_library_path {
                Some(list) => crate::text::split_on(list@, 58u8).filter(
                    |entry: Seq<u8>| entry.len() > 0,
                ),
                None => seq![],
            };
            search.all_dirs() == explicit + installed + data + loader + seq![
                vstd::utf8::encode_utf8("/usr/lib/cef"@),
            ]
        }),
{
    if let Some(list) = search.ld_library_path {
        lemma_nonempty_filters(crate::text::split_on(list@, 58u8));
    }
}

proof fn lemma_nonempty_filters(paths: Seq<Seq<u8>>)
    ensures
        nonempty_paths(paths) == paths.filter(|entry: Seq<u8>| entry.len() > 0),
    decreases paths.len(),
{
    reveal(Seq::filter);
    if paths.len() > 0 {
        lemma_nonempty_filters(paths.drop_last());
    }
}

/// Every data directory that starts at the root and is not the root stands for
/// the place of CEF below the directory it is in, in order; the others stand
/// for none.
pub proof fn law_data_directory_stands_for_prefix(dirs: Seq<Seq<u8>>, dir: Seq<u8>)
    ensures
        data_dir_candidates(Seq::empty()).len() == 0,
        ({
            let before = data_dir_candidates(dirs);
            let all = data_dir_candidates(dirs.push(dir));
            let absolute = dir.len() > 0 && dir[0] == 47;
            match crate::path::parent_of(dir) {
                Some(prefix) => if absolute {
                    all == before.push(
                        crate::path::joined(prefix, vstd::utf8::encode_utf8("lib/cef"@)),
                    )
                } else {
                    all == before
                },
                None => all == before,
            }
        }),
{
    assert(dirs.push(dir).drop_last() =~= dirs);
}

/// The one that is found is one of the candidates and was found good, and every
/// candidate before it was not; where none is found, none was good.
pub proof fn law_first_good_candidate_is_found(
    answers: spec_fn(UnixPath, bool) -> bool,
    candidates: Seq<Seq<u8>>,
    found: Option<UnixPath>,
)
    requires
        is_first_hit(answers, candidates, found),
    ensures
        found matches Some(path) ==> {
            &&& answers(path, true)
            &&& exists|k: int|
                {
                    &&& 0 <= k < candidates.len()
                    &&& #[trigger] candidates[k] == path@
                    &&& forall|j: int|
                        0 <= j < k ==> is_turned_down(answers, #[trigger] candidates[j])
                }
        },
        found is None ==> forall|j: int|
            0 <= j < candidates.len() ==> is_turned_down(answers, #[trigger] candidates[j]),
{
    let tried = choose|tried: Seq<UnixPath>|
        {
            &&& #[trigger] probed(answers, tried, found)
            &&& crate::path::path_texts(tried).is_prefix_of(candidates)
            &&& found is None ==> tried.len() == candidates.len()
        };
    let texts = crate::path::path_texts(tried);
    assert(texts.len() == tried.len());
    assert forall|j: int| 0 <= j < tried.len() implies #[trigger] candidates[j] == tried[j]@ by {
        assert(texts[j] == tried[j]@);
        assert(candidates.subrange(0, texts.len() as int)[j] == candidates[j]);
    }
    let turned_down = if found is Some {
        tried.len() - 1
    } else {
        tried.len() as int
    };
    assert forall|j: int| 0 <= j < turned_down implies is_turned_down(
        answers,
        #[trigger] candidates[j],
    ) by {
        assert(tried[j]@ == candidates[j] && answers(tried[j], false));
    }
    if let Some(path) = found {
        let k = tried.len() - 1;
        assert(candidates[k] == path@);
    }
}

/// Whether a path with a text was probed and found not good.
pub open spec fn is_turned_down(
    answers: spec_fn(UnixPath, bool) -> bool,
    text: Seq<u8>,
) -> bool {
    exists|path: UnixPath| #[trigger] path@ == text && answers(path, false)
}

/// A library is looked for where the override says, then in the current
/// directory, then in the two library directories of the install prefix. An
/// override that ends with the library's name is the library, any other the
/// directory it is in, and an empty one is none.
pub proof fn law_library_is_tried_in_order(
    lib_name: Seq<u8>,
    override_path: Option<Seq<u8>>,
    exe: Option<Seq<u8>>,
)
    ensures
        ({
            let named: Seq<Seq<u8>> = match override_path {
                Some(path) => if path.len() == 0 {
                    seq![]
                } else if crate::path::file_name_of(path) == Some(lib_name) {
                    seq![path]
                } else {
                    seq![crate::path::joined(path, lib_name)]
                },
                None => seq![],
            };
            let installed: Seq<Seq<u8>> = match exe {
                Some(exe) => match prefix_of(exe) {
                    Some(prefix) => seq![
                        crate::path::joined(
                            crate::path::joined(prefix, vstd::utf8::encode_utf8("lib"@)),
                            lib_name,
                        ),
                        crate::path::joined(
                            crate::path::joined(prefix, vstd::utf8::encode_utf8("lib64"@)),
                            lib_name,
                        ),
                    ],
                    None => seq![],
                },
                None => seq![],
            };
            all_library_paths(lib_name, override_path, exe) == named + seq![
                crate::path::joined(vstd::utf8::encode_utf8("."@), lib_name),
            ] + installed
        }),
{
}

/// What a probe can have said of a directory is what looking for the file of
/// the name in it can have said.
pub proof fn law_directory_is_probed_by_file<F: Fn(&UnixPath) -> bool>(
    is_file: F,
    name: Seq<char>,
    dir: UnixPath,
    file: UnixPath,
    good: bool,
)
    ensures
        file@ == crate::path::joined(dir@, vstd::utf8::encode_utf8(name)) && call_ensures(
            is_file,
            (&file,),
            good,
        ) ==> file_answers(is_file, name)(dir, good),
        file_answers(is_file, name)(dir, good) ==> exists|asked: UnixPath|
            asked@ == crate::path::joined(dir@, vstd::utf8::encode_utf8(name)) && #[trigger]
                call_ensures(is_file, (&asked,), good),
        test_answers(is_file)(file, good) <==> call_ensures(is_file, (&file,), good),
{
}

/// Optional bytes and paths are seen as the bytes they are.
pub proof fn law_optional_bytes_are_seen_as_they_are(bytes: &[u8], path: &UnixPath)
    ensures
        opt_slice(Some(bytes)) == Some(bytes@),
        opt_slice(None) is None,
        opt_path_ref(Some(path)) == Some(path@),
        opt_path_ref(None) is None,
{
}

} // verus!

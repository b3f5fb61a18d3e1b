use vstd::prelude::*;
use vstd::string::StringExecFns;
use crate::error::{IronCoreError, IronCoreResult};

verus! {

/// The directory under which each installed runtime version has its own
/// subdirectory.
pub const RUNTIME_BASE_DIR: &'static str = "/usr/share/dotnet/shared/Microsoft.NETCore.App";

/// File name of the engine's shared library inside a version's directory.
pub const RUNTIME_LIBRARY_FILE: &'static str = "libcoreclr.so";

/// Extension of the managed library files listed as trusted assemblies.
pub const ASSEMBLY_EXTENSION: &'static str = "dll";

/// Separator between the entries of the trusted-assembly list.
pub const LIST_SEPARATOR: &'static str = ";";

/// A loaded shared library, owned by whoever holds it.
#[verifier::external_type_specification]
#[verifier::external_body]
pub struct ExLibrary(libloading::Library);

/// The path `dir/name`.
pub open spec fn join_path(dir: Seq<char>, name: Seq<char>) -> Seq<char> {
    dir + seq!['/'] + name
}

/// The runtime directory of a version.
pub open spec fn runtime_dir_of(version: Seq<char>) -> Seq<char> {
    join_path(RUNTIME_BASE_DIR@, version)
}

/// The path of the engine library of a version.
pub open spec fn runtime_path_of(version: Seq<char>) -> Seq<char> {
    join_path(runtime_dir_of(version), RUNTIME_LIBRARY_FILE@)
}

/// The extension of the file that a path names, as `std::path::Path::extension`
/// gives it.
pub uninterp spec fn extension_of(path: Seq<char>) -> Option<Seq<char>>;

/// The extension given for entry `i`; none where the list is shorter.
pub open spec fn ext_at(exts: Seq<Option<Seq<char>>>, i: int) -> Option<Seq<char>> {
    if 0 <= i < exts.len() {
        exts[i]
    } else {
        None
    }
}

/// The entries whose extension, given index for index in `exts`, is the
/// managed library extension, in the order given.
pub open spec fn assemblies_among(entries: Seq<Seq<char>>, exts: Seq<Option<Seq<char>>>) -> Seq<
    Seq<char>,
>
    decreases entries.len(),
{
    if entries.len() == 0 {
        entries
    } else {
        let prev = assemblies_among(entries.drop_last(), exts);
        if ext_at(exts, entries.len() - 1) == Some(ASSEMBLY_EXTENSION@) {
            prev.push(entries.last())
        } else {
            prev
        }
    }
}

/// The entries that are managed libraries, judged by the extension of each
/// entry's path.
pub open spec fn assemblies_of(entries: Seq<Seq<char>>) -> Seq<Seq<char>> {
    assemblies_among(entries, entries.map_values(|e: Seq<char>| extension_of(e)))
}

/// The items joined into one text, with one separator between neighbours.
pub open spec fn join_list(items: Seq<Seq<char>>) -> Seq<char>
    decreases items.len(),
{
    if items.len() == 0 {
        Seq::empty()
    } else if items.len() == 1 {
        items[0]
    } else {
        join_list(items.drop_last()) + LIST_SEPARATOR@ + items.last()
    }
}

/// The trusted-assembly list built from a directory's entries.
pub open spec fn trusted_list_of(entries: Seq<Seq<char>>) -> Seq<char> {
    join_list(assemblies_of(entries))
}

/// The texts of a list of strings.
pub open spec fn views_of(entries: Seq<String>) -> Seq<Seq<char>> {
    entries.map_values(|e: String| e@)
}

/// The text of an extension, where there is one.
pub open spec fn ext_view(x: Option<String>) -> Option<Seq<char>> {
    match x {
        Some(e) => Some(e@),
        None => None,
    }
}

/// The texts of a list of extensions.
pub open spec fn ext_views_of(exts: Seq<Option<String>>) -> Seq<Option<Seq<char>>> {
    exts.map_values(|x: Option<String>| ext_view(x))
}

/// Relies on `std::path::Path::extension`: the extension of the path's last
/// component, which depends on the path's text alone.
#[verifier::external_body]
fn path_extension(path: &str) -> (r: Option<String>)
    ensures
        r matches Some(e) ==> extension_of(path@) == Some(e@),
        r is None ==> extension_of(path@) is None,
{
    std::path::Path::new(path).extension().map(|e| e.to_string_lossy().into_owned())
}

/// Relies on `libloading::Library::new`, which loads the shared library at a
/// path or reports why it could not.
#[verifier::external_body]
fn open_library(path: &str) -> (r: Result<libloading::Library, libloading::Error>) {
    libloading::Library::new(path)
}

/// The directory that holds the runtime of `version`.
pub fn get_runtime_dir(version: &str) -> (r: String)
    ensures
        r@ == runtime_dir_of(version@),
{
    let mut dir = String::from_str(RUNTIME_BASE_DIR);
    dir.append("/");
    dir.append(version);
    proof {
        reveal_strlit("/");
    }
    assert(dir@ == runtime_dir_of(version@));
    dir
}

/// The path of the engine library of `version`.
pub fn get_runtime_path(version: &str) -> (r: String)
    ensures
        r@ == runtime_path_of(version@),
{
    let mut path = get_runtime_dir(version);
    path.append("/");
    path.append(RUNTIME_LIBRARY_FILE);
    proof {
        reveal_strlit("/");
    }
    assert(path@ == runtime_path_of(version@));
    path
}

/// The trusted-assembly list of entries whose extensions are given index for
/// index: the paths whose extension is the managed library one, in order, with
/// one `;` between neighbours. An entry without a given extension is left out.
pub fn join_assemblies(entries: &Vec<String>, extensions: &Vec<Option<String>>) -> (r: String)
    ensures
        r@ == join_list(assemblies_among(views_of(entries@), ext_views_of(extensions@))),
{
    let ghost es = views_of(entries@);
    let ghost xs = ext_views_of(extensions@);
    let dll = String::from_str(ASSEMBLY_EXTENSION);
    let mut result = String::new();
    let mut count: usize = 0;
    let mut i: usize = 0;
    while i < entries.len()
        invariant
            es == views_of(entries@),
            xs == ext_views_of(extensions@),
            dll@ == ASSEMBLY_EXTENSION@,
            i <= entries@.len(),
            count <= i,
            count == assemblies_among(es.take(i as int), xs).len(),
            result@ == join_list(assemblies_among(es.take(i as int), xs)),
        decreases entries@.len() - i,
    {
        let ghost before = assemblies_among(es.take(i as int), xs);
        assert(es.take(i + 1).drop_last() == es.take(i as int));
        assert(es[i as int] == entries@[i as int]@);
        let keep = if i < extensions.len() {
            match &extensions[i] {
                Some(e) => *e == dll,
                None => false,
            }
        } else {
            false
        };
        assert(keep == (ext_at(xs, i as int) == Some(ASSEMBLY_EXTENSION@)));
        if keep {
            let ghost after = before.push(es[i as int]);
            assert(after.drop_last() == before);
            if count > 0 {
                result.append(LIST_SEPARATOR);
            }
            result.append(entries[i].as_str());
            count = count + 1;
        }
        i = i + 1;
    }
    assert(es.take(entries@.len() as int) == es);
    result
}

/// The trusted-assembly list of a directory whose entries are `entries`: the
/// paths with the managed library extension, in order, separated by `;`.
pub fn get_trusted_assemblies(entries: &Vec<String>) -> (r: String)
    ensures
        r@ == trusted_list_of(views_of(entries@)),
{
    let ghost es = views_of(entries@);
    let mut exts: Vec<Option<String>> = Vec::new();
    let mut i: usize = 0;
    while i < entries.len()
        invariant
            es == views_of(entries@),
            i <= entries@.len(),
            exts@.len() == i,
            forall|j: int| 0 <= j < i ==> #[trigger] ext_views_of(exts@)[j] == extension_of(es[j]),
        decreases entries@.len() - i,
    {
        let ghost prev = exts@;
        let x = path_extension(entries[i].as_str());
        exts.push(x);
        proof {
            assert forall|j: int| 0 <= j < i + 1 implies #[trigger] ext_views_of(exts@)[j]
                == extension_of(es[j]) by {
                if j < i {
                    assert(exts@[j] == prev[j]);
                    assert(ext_views_of(prev)[j] == extension_of(es[j]));
                } else {
                    assert(es[j] == entries@[j]@);
                }
            }
        }
        i = i + 1;
    }
    assert(ext_views_of(exts@) == es.map_values(|e: Seq<char>| extension_of(e)));
    join_assemblies(entries, &exts)
}

/// Loads the engine library of `version`. Whether the load succeeds depends
/// on the files installed; a failure is reported as `LibError`.
pub fn load_coreclr_library(version: &str) -> (r: IronCoreResult<libloading::Library>)
    ensures
        r matches Err(e) ==> e is LibError,
{
    let path = get_runtime_path(version);
    match open_library(path.as_str()) {
        Ok(lib) => Ok(lib),
        Err(e) => Err(IronCoreError::LibError(e)),
    }
}


/// The runtime directory and library path depend on the version alone: the
/// directory is the base directory with the version as its last component,
/// the library path is that directory with the library file in it, and two
/// versions give the same directory only when they are equal.
pub proof fn lemma_runtime_paths(v: Seq<char>, w: Seq<char>)
    ensures
        runtime_dir_of(v).subrange(0, RUNTIME_BASE_DIR@.len() as int) == RUNTIME_BASE_DIR@,
        runtime_dir_of(v).subrange(
            RUNTIME_BASE_DIR@.len() as int + 1,
            runtime_dir_of(v).len() as int,
        ) == v,
        runtime_path_of(v) == runtime_dir_of(v) + seq!['/'] + RUNTIME_LIBRARY_FILE@,
        runtime_dir_of(v) == runtime_dir_of(w) <==> v == w,
        runtime_path_of(v) == runtime_path_of(w) <==> v == w,
{
    let n = RUNTIME_BASE_DIR@.len() as int;
    let d = runtime_dir_of(v);
    assert(d.subrange(0, n) == RUNTIME_BASE_DIR@);
    assert(d.subrange(n + 1, d.len() as int) == v);
    let e = runtime_dir_of(w);
    assert(e.subrange(n + 1, e.len() as int) == w);
    let f = RUNTIME_LIBRARY_FILE@;
    let p = runtime_path_of(v);
    let q = runtime_path_of(w);
    if p == q {
        assert(p.subrange(0, p.len() - f.len() - 1) == d);
        assert(q.subrange(0, q.len() - f.len() - 1) == e);
    }
}

/// For a directory of three entries of which exactly one lacks the managed
/// library extension, the list is the other two paths, in order, with one
/// separator between them and none before or after.
pub proof fn lemma_three_entries(entries: Seq<Seq<char>>, exts: Seq<Option<Seq<char>>>, k: int)
    requires
        entries.len() == 3,
        exts.len() == 3,
        0 <= k < 3,
        exts[k] != Some(ASSEMBLY_EXTENSION@),
        forall|j: int| 0 <= j < 3 && j != k ==> #[trigger] exts[j] == Some(ASSEMBLY_EXTENSION@),
    ensures
        join_list(assemblies_among(entries, exts)) == entries.remove(k)[0] + LIST_SEPARATOR@
            + entries.remove(k)[1],
{
    let rest = entries.remove(k);
    let e1 = entries.drop_last();
    let e0 = e1.drop_last();
    assert(e0.drop_last().len() == 0);
    assert(e0.last() == entries[0]);
    assert(e1.last() == entries[1]);
    assert(entries.last() == entries[2]);
    assert(assemblies_among(e0.drop_last(), exts) == Seq::<Seq<char>>::empty());
    assert(ext_at(exts, 0) == exts[0]);
    assert(ext_at(exts, 1) == exts[1]);
    assert(ext_at(exts, 2) == exts[2]);
    let dll = Some(ASSEMBLY_EXTENSION@);
    let a0 = assemblies_among(e0, exts);
    let a1 = assemblies_among(e1, exts);
    assert(a0 == if exts[0] == dll { seq![entries[0]] } else { Seq::empty() });
    assert(a1 == if exts[1] == dll { a0.push(entries[1]) } else { a0 });
    assert(assemblies_among(entries, exts) == if exts[2] == dll { a1.push(entries[2]) } else { a1 });
    if k == 0 {
        assert(rest == seq![entries[1], entries[2]]);
    } else if k == 1 {
        assert(rest == seq![entries[0], entries[2]]);
    } else {
        assert(rest == seq![entries[0], entries[1]]);
    }
    assert(assemblies_among(entries, exts) == rest);
    assert(rest.len() == 2);
    assert(rest.drop_last().len() == 1);
    assert(rest.drop_last()[0] == rest[0]);
    assert(join_list(rest.drop_last()) == rest[0]);
    assert(rest.last() == rest[1]);
    assert(join_list(rest) == rest[0] + LIST_SEPARATOR@ + rest[1]);
}

} // verus!

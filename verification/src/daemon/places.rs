//! Directories: which one is meant, and where a project's file is looked for.
use crate::text::chars::{chars_of, naming, opt_str, same, starts_with, texts};
use vstd::prelude::*;

verus! {

/// The path is read from the root.
pub open spec fn is_absolute(path: Seq<char>) -> bool {
    crate::text::chars::begins(path, "/"@)
}

/// The path as it is read in a directory.
pub open spec fn placed(dir: Seq<char>, path: Seq<char>) -> Seq<char> {
    if is_absolute(path) {
        path
    } else if dir.len() == 0 || dir.last() == '/' {
        dir + path
    } else {
        dir + "/"@ + path
    }
}

/// The path as it is read in a directory.
pub fn place_in(dir: &str, path: &str) -> (r: String)
    ensures
        r@ == placed(dir@, path@),
{
    let chars = chars_of(path);
    if starts_with(chars.as_slice(), "/") {
        return path.to_string();
    }
    let at = chars_of(dir);
    let mut out = dir.to_string();
    if at.len() > 0 && at[at.len() - 1] != '/' {
        out.append("/");
    }
    out.append(path);
    out
}

/// The directory that is meant: the one given, or else the one to start from.
pub open spec fn meant_cwd(cwd: Option<Seq<char>>, base: Seq<char>) -> Seq<char> {
    placed(
        base,
        match cwd {
            Some(cwd) => cwd,
            None => base,
        },
    )
}

/// The directory that is meant.
pub fn cwd_from(cwd: Option<&str>, base: &str) -> (r: String)
    ensures
        r@ == meant_cwd(opt_str(cwd), base@),
{
    match cwd {
        Some(cwd) => place_in(base, cwd),
        None => place_in(base, base),
    }
}

/// Why a working directory is refused.
#[derive(Debug)]
pub enum CwdError {
    /// There is no such directory.
    NotADirectory(String),
}

impl CwdError {
    /// The reason in words.
    pub fn message(&self) -> (r: String)
        ensures
            self matches CwdError::NotADirectory(path) ==> r@ == "workspace cwd is not a directory: "@
                + path@,
    {
        match self {
            CwdError::NotADirectory(path) => {
                naming("workspace cwd is not a directory: ", path.as_str())
            },
        }
    }
}

/// The working directory `cwd`, where it is a directory.
pub fn normalize_cwd(cwd: String, is_dir: bool) -> (r: Result<String, CwdError>)
    ensures
        is_dir ==> r == Ok::<String, CwdError>(cwd),
        !is_dir ==> r == Err::<String, CwdError>(CwdError::NotADirectory(cwd)),
{
    if is_dir {
        Ok(cwd)
    } else {
        Err(CwdError::NotADirectory(cwd))
    }
}

/// The files of a directory that can hold a project's commands, the first to be taken first.
pub open spec fn files_of(dir: Seq<char>) -> Seq<Seq<char>> {
    seq![placed(dir, "vmux.json"@), placed(dir, ".vmux.json"@)]
}

/// A directory on the way from a workspace up to the root.
#[derive(Debug)]
pub struct SearchDir {
    pub path: String,
    /// Anyone can leave a file in it.
    pub shared: bool,
}

/// The directory in a place is looked at: neither it nor one before it is shared, and the user's
/// own does not come before it.
pub open spec fn is_looked_at(dirs: Seq<SearchDir>, home: Option<Seq<char>>, i: int) -> bool {
    &&& 0 <= i < dirs.len()
    &&& forall|k: int| 0 <= k <= i ==> !(#[trigger] dirs[k]).shared
    &&& forall|k: int| 0 <= k < i ==> home != Some((#[trigger] dirs[k]).path@)
}

/// The files of the first `count` directories that can hold a project's commands, as far as
/// they are looked at.
pub open spec fn project_files_of(dirs: Seq<SearchDir>, home: Option<Seq<char>>, count: int) -> Seq<
    Seq<char>,
>
    decreases count,
{
    if count <= 0 {
        Seq::empty()
    } else if is_looked_at(dirs, home, count - 1) {
        project_files_of(dirs, home, count - 1) + files_of(dirs[count - 1].path@)
    } else {
        project_files_of(dirs, home, count - 1)
    }
}

fn is_home(home: Option<&str>, path: &str) -> (r: bool)
    ensures
        r == (opt_str(home) == Some(path@)),
{
    match home {
        Some(home) => same(home, path),
        None => false,
    }
}

/// Where a directory is not looked at, none after it is.
proof fn search_is_over(dirs: Seq<SearchDir>, home: Option<Seq<char>>, i: int, count: int)
    requires
        0 <= i <= count <= dirs.len(),
        forall|k: int| i <= k < count ==> !is_looked_at(dirs, home, k),
    ensures
        project_files_of(dirs, home, count) == project_files_of(dirs, home, i),
    decreases count - i,
{
    if i < count {
        search_is_over(dirs, home, i, count - 1);
    }
}

/// The files that can hold a project's commands, where `dirs` are the directory of a workspace
/// and those above it. Nothing is looked for above the user's own directory or where others
/// could leave a file.
pub fn project_files(dirs: &Vec<SearchDir>, home: Option<&str>) -> (r: Vec<String>)
    ensures
        texts(r@) == project_files_of(dirs@, opt_str(home), dirs@.len() as int),
{
    let mut out: Vec<String> = Vec::new();
    let mut i: usize = 0;
    assert(texts(out@) =~= Seq::empty());
    while i < dirs.len()
        invariant
            i <= dirs.len(),
            texts(out@) == project_files_of(dirs@, opt_str(home), i as int),
            forall|k: int| 0 <= k < i ==> !(#[trigger] dirs@[k]).shared,
            forall|k: int| 0 <= k < i ==> opt_str(home) != Some((#[trigger] dirs@[k]).path@),
        decreases dirs.len() - i,
    {
        let dir = &dirs[i];
        if dir.shared {
            proof {
                assert forall|k: int| i <= k < dirs@.len() implies !is_looked_at(
                    dirs@,
                    opt_str(home),
                    k,
                ) by {
                    if is_looked_at(dirs@, opt_str(home), k) {
                        assert(!dirs@[i as int].shared);
                    }
                }
                search_is_over(dirs@, opt_str(home), i as int, dirs@.len() as int);
            }
            return out;
        }
        assert(is_looked_at(dirs@, opt_str(home), i as int));
        let ghost before = out@;
        out.push(place_in(dir.path.as_str(), "vmux.json"));
        out.push(place_in(dir.path.as_str(), ".vmux.json"));
        assert(texts(out@) =~= texts(before) + files_of(dir.path@));
        if is_home(home, dir.path.as_str()) {
            proof {
                assert forall|k: int| i + 1 <= k < dirs@.len() implies !is_looked_at(
                    dirs@,
                    opt_str(home),
                    k,
                ) by {
                    if is_looked_at(dirs@, opt_str(home), k) {
                        assert(opt_str(home) != Some(dirs@[i as int].path@));
                    }
                }
                search_is_over(dirs@, opt_str(home), i + 1, dirs@.len() as int);
            }
            return out;
        }
        i += 1;
    }
    out
}

/// A file that is looked for stands in a directory that is looked at: not above the user's own
/// directory, and not where others could have left it.
pub proof fn search_ends_at_home(
    dirs: Seq<SearchDir>,
    home: Option<Seq<char>>,
    count: int,
    file: Seq<char>,
)
    requires
        project_files_of(dirs, home, count).contains(file),
    ensures
        exists|i: int|
            #[trigger] is_looked_at(dirs, home, i) && files_of(dirs[i].path@).contains(file),
    decreases count,
{
    let all = project_files_of(dirs, home, count);
    let before = project_files_of(dirs, home, count - 1);
    let n = choose|n: int| 0 <= n < all.len() && all[n] == file;
    if n < before.len() {
        assert(before[n] == file);
        search_ends_at_home(dirs, home, count - 1, file);
    } else {
        assert(is_looked_at(dirs, home, count - 1));
        assert(files_of(dirs[count - 1].path@)[n - before.len()] == file);
    }
}

/// A file of a directory that is looked at is looked for.
pub proof fn nearer_files_are_looked_for(
    dirs: Seq<SearchDir>,
    home: Option<Seq<char>>,
    count: int,
    i: int,
    file: Seq<char>,
)
    requires
        is_looked_at(dirs, home, i),
        i < count,
        files_of(dirs[i].path@).contains(file),
    ensures
        project_files_of(dirs, home, count).contains(file),
    decreases count,
{
    let all = project_files_of(dirs, home, count);
    let before = project_files_of(dirs, home, count - 1);
    let here = files_of(dirs[count - 1].path@);
    if i == count - 1 {
        let n = choose|n: int| 0 <= n < here.len() && here[n] == file;
        assert(all[before.len() + n] == file);
    } else {
        nearer_files_are_looked_for(dirs, home, count - 1, i, file);
        let n = choose|n: int| 0 <= n < before.len() && before[n] == file;
        assert(all[n] == file);
    }
}

} // verus!

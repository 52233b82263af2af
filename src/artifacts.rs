use vstd::prelude::*;
use vstd::string::{StrSliceExecFns, StringExecFns};

verus! {

/// The kinds of build output copied into a platform project.
#[derive(PartialEq, Eq, Structural)]
pub enum ArtifactType {
    Src,
    Header,
    Lib,
}

/// The build outputs of one target: bridge sources, headers and the library.
pub struct Artifacts {
    pub srcs: Vec<String>,
    pub headers: Vec<String>,
    pub libs: Vec<String>,
}

/// The index of the last `c` in `s`, or -1.
pub open spec fn last_index_of(s: Seq<char>, c: char, n: int) -> int
    decreases n,
{
    if n <= 0 {
        -1
    } else if s[n - 1] == c {
        n - 1
    } else {
        last_index_of(s, c, n - 1)
    }
}

/// The last component of a `/`-separated path.
pub open spec fn file_name_of(p: Seq<char>) -> Seq<char> {
    p.subrange(last_index_of(p, '/', p.len() as int) + 1, p.len() as int)
}

/// What follows the last `.` of the file name, unless the name has no `.`
/// or only a leading one.
pub open spec fn extension_of(p: Seq<char>) -> Option<Seq<char>> {
    let n = file_name_of(p);
    let d = last_index_of(n, '.', n.len() as int);
    if d <= 0 { None } else { Some(n.subrange(d + 1, n.len() as int)) }
}

pub open spec fn is_cxx_src(p: Seq<char>) -> bool {
    extension_of(p) == Some("c"@) || extension_of(p) == Some("cc"@)
}

pub open spec fn is_cxx_header(p: Seq<char>) -> bool {
    extension_of(p) == Some("h"@) || extension_of(p) == Some("hh"@)
}

/// The paths among the first `n` of `s` that `header` (or, if false, the
/// source test) accepts, in order.
pub open spec fn select(s: Seq<String>, header: bool, n: int) -> Seq<Seq<char>>
    decreases n,
{
    if n <= 0 {
        Seq::empty()
    } else if (if header { is_cxx_header(s[n - 1]@) } else { is_cxx_src(s[n - 1]@) }) {
        select(s, header, n - 1).push(s[n - 1]@)
    } else {
        select(s, header, n - 1)
    }
}

proof fn lemma_last_index_bounds(s: Seq<char>, c: char, n: int)
    requires
        0 <= n <= s.len(),
    ensures
        -1 <= last_index_of(s, c, n) < n,
    decreases n,
{
    if n > 0 {
        lemma_last_index_bounds(s, c, n - 1);
    }
}

fn last_index(s: &str, c: char) -> (r: i64)
    requires
        s@.len() < i64::MAX,
    ensures
        r == last_index_of(s@, c, s@.len() as int),
        -1 <= r < s@.len(),
{
    proof {
        lemma_last_index_bounds(s@, c, s@.len() as int);
    }
    let n = s.unicode_len();
    let mut k: usize = n;
    while k > 0
        invariant
            k <= n,
            n == s@.len(),
            n < i64::MAX,
            last_index_of(s@, c, n as int) == last_index_of(s@, c, k as int),
        decreases k,
    {
        if s.get_char(k - 1) == c {
            return (k - 1) as i64;
        }
        k -= 1;
    }
    -1
}

fn has_extension(p: &String, a: &str, b: &str) -> (r: bool)
    requires
        p@.len() < i64::MAX,
    ensures
        r == (extension_of(p@) == Some(a@) || extension_of(p@) == Some(b@)),
{
    let n = p.as_str().unicode_len();
    let slash = last_index(p.as_str(), '/');
    let name = p.as_str().substring_char((slash + 1) as usize, n);
    let m = name.unicode_len();
    let dot = last_index(name, '.');
    if dot <= 0 {
        return false;
    }
    let ext = String::from_str(name.substring_char((dot + 1) as usize, m));
    ext == String::from_str(a) || ext == String::from_str(b)
}

fn select_paths(files: &Vec<String>, header: bool, out: &mut Vec<String>)
    requires
        forall|i: int| 0 <= i < files@.len() ==> (#[trigger] files@[i])@.len() < i64::MAX,
    ensures
        final(out)@.map_values(|s: String| s@) == old(out)@.map_values(|s: String| s@) + select(files@, header, files@.len() as int),
{
    let ghost o0 = out@.map_values(|s: String| s@);
    let mut k: usize = 0;
    while k < files.len()
        invariant
            k <= files@.len(),
            forall|i: int| 0 <= i < files@.len() ==> (#[trigger] files@[i])@.len() < i64::MAX,
            out@.map_values(|s: String| s@) == o0 + select(files@, header, k as int),
        decreases files@.len() - k,
    {
        let keep = if header {
            has_extension(&files[k], "h", "hh")
        } else {
            has_extension(&files[k], "c", "cc")
        };
        if keep {
            let ghost before = out@;
            out.push(files[k].clone());
            proof {
                assert(out@.map_values(|s: String| s@) =~= before.map_values(|s: String| s@).push(files@[k as int]@));
            }
        }
        k += 1;
    }
}

impl Artifacts {
    /// Classifies a target's build outputs: the bridge directory's C sources,
    /// the headers of the bridge and include directories, and the library.
    pub fn get_artifacts(bridge_files: &Vec<String>, include_files: &Vec<String>, lib_path: String) -> (r: Artifacts)
        requires
            forall|i: int| 0 <= i < bridge_files@.len() ==> (#[trigger] bridge_files@[i])@.len() < i64::MAX,
            forall|i: int| 0 <= i < include_files@.len() ==> (#[trigger] include_files@[i])@.len() < i64::MAX,
        ensures
            r.srcs@.map_values(|s: String| s@) == select(bridge_files@, false, bridge_files@.len() as int),
            r.headers@.map_values(|s: String| s@) == select(bridge_files@, true, bridge_files@.len() as int)
                + select(include_files@, true, include_files@.len() as int),
            r.libs@.len() == 1 && r.libs@[0]@ == lib_path@,
    {
        let mut srcs: Vec<String> = Vec::new();
        select_paths(bridge_files, false, &mut srcs);
        let mut headers: Vec<String> = Vec::new();
        select_paths(bridge_files, true, &mut headers);
        select_paths(include_files, true, &mut headers);
        proof {
            assert(Seq::<String>::empty().map_values(|s: String| s@) =~= Seq::<Seq<char>>::empty());
        }
        let mut libs: Vec<String> = Vec::new();
        libs.push(lib_path);
        Artifacts { srcs, headers, libs }
    }
}

} // verus!

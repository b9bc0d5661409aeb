//! Paths as the bytes the operating system gives, read as on Linux, where
//! the viewer runs: `/` (byte 47) is the only separator.
//!
//! The file name, the extension and the parent directory of a path are
//! computed here, as `Path::file_name`, `Path::extension` and
//! `Path::parent` document them for such paths. The `file:` URL of a
//! directory comes from the `url` crate; its result is named here by a
//! function of the directory text.

use vstd::prelude::*;
use vstd::slice::{slice_subrange, slice_to_vec};

verus! {

/// The serialization of the `file:` URL that `url::Url::from_directory_path`
/// makes of the directory `dir`, or `None` where it refuses the path.
pub uninterp spec fn directory_url(dir: Seq<char>) -> Option<Seq<char>>;

/// The byte of `/`.
pub open spec fn slash() -> u8 {
    47
}

/// The byte of `.`.
pub open spec fn dot() -> u8 {
    46
}

/// The index of the last occurrence of `c` in `s`, or -1.
pub open spec fn last_index_of<A>(s: Seq<A>, c: A) -> int
    decreases s.len(),
{
    if s.len() == 0 {
        -1
    } else if s.last() == c {
        s.len() - 1
    } else {
        last_index_of(s.drop_last(), c)
    }
}

/// `last_index_of` is -1 or the position of the last `c`.
pub proof fn lemma_last_index_of<A>(s: Seq<A>, c: A)
    ensures
        -1 <= last_index_of(s, c) < s.len(),
        last_index_of(s, c) >= 0 ==> s[last_index_of(s, c)] == c,
        forall|j: int| last_index_of(s, c) < j < s.len() ==> s[j] != c,
    decreases s.len(),
{
    if s.len() > 0 && s.last() != c {
        lemma_last_index_of(s.drop_last(), c);
        assert forall|j: int| last_index_of(s, c) < j < s.len() implies s[j] != c by {
            if j < s.len() - 1 {
                assert(s[j] == s.drop_last()[j]);
            }
        }
    }
}

/// The file name of a path: the last part between `/`s, where empty parts
/// and `.` parts do not count; none if no part is left or if the last part
/// is `..`. This is the final component that `Path::file_name` returns.
pub open spec fn path_file_name(path: Seq<u8>) -> Option<Seq<u8>>
    decreases path.len(),
{
    let sep = last_index_of(path, slash());
    let last = path.subrange(sep + 1, path.len() as int);
    proof {
        lemma_last_index_of(path, slash());
    }
    if last.len() == 0 || last == seq![dot()] {
        if sep < 0 {
            None
        } else {
            path_file_name(path.subrange(0, sep))
        }
    } else if last == seq![dot(), dot()] {
        None
    } else {
        Some(last)
    }
}

/// The extension of a file name: `None` if it has no `.`, or if its only
/// `.` is its first byte; otherwise everything after its last `.`.
pub open spec fn name_extension(name: Seq<u8>) -> Option<Seq<u8>> {
    let d = last_index_of(name, dot());
    if d <= 0 {
        None
    } else {
        Some(name.subrange(d + 1, name.len() as int))
    }
}

/// The extension of the file name of `path`, as `Path::extension` finds it.
pub open spec fn path_extension(path: Seq<u8>) -> Option<Seq<u8>> {
    match path_file_name(path) {
        Some(name) => name_extension(name),
        None => None,
    }
}

/// How many leading bytes of `path` stand for its root (`/`) or for a
/// leading `.` component; they are never trimmed away.
pub open spec fn head_len(path: Seq<u8>) -> int {
    if path.len() > 0 && path[0] == slash() {
        1
    } else if path.len() > 0 && path[0] == dot() && (path.len() == 1 || path[1] == slash()) {
        1
    } else {
        0
    }
}

/// `path` without trailing `/`s and `.` parts after its first `head` bytes.
pub open spec fn trim_end(path: Seq<u8>, head: int) -> Seq<u8>
    decreases path.len(),
{
    if path.len() == 0 || path.len() <= head {
        path
    } else if path.last() == slash() {
        trim_end(path.drop_last(), head)
    } else if path.last() == dot() && (path.len() - 1 == head || path[path.len() - 2] == slash()) {
        trim_end(path.drop_last(), head)
    } else {
        path
    }
}

/// The parent directory of a path, as `Path::parent` finds it: the path
/// without its last component (and without the `/`s and `.` parts then left
/// at its end); the empty path for a path of one relative component; none
/// for a root or an empty path.
pub open spec fn path_parent(path: Seq<u8>) -> Option<Seq<u8>> {
    let head = head_len(path);
    let t = trim_end(path, head);
    if t.len() <= head {
        if head == 1 && path[0] == dot() {
            Some(Seq::empty())
        } else {
            None
        }
    } else {
        let s = last_index_of(t, slash());
        let rest = if s >= head {
            t.subrange(0, s)
        } else {
            t.subrange(0, head)
        };
        Some(trim_end(rest, head))
    }
}

/// Characters after the last `c` do not move it.
pub proof fn lemma_last_index_of_append<A>(a: Seq<A>, b: Seq<A>, c: A)
    requires
        forall|j: int| 0 <= j < b.len() ==> b[j] != c,
    ensures
        last_index_of(a + b, c) == last_index_of(a, c),
    decreases b.len(),
{
    if b.len() > 0 {
        assert((a + b).drop_last() =~= a + b.drop_last());
        lemma_last_index_of_append(a, b.drop_last(), c);
    } else {
        assert(a + b =~= a);
    }
}

/// A name with no `/` in it, other than `.` and `..`, is the file name of
/// itself and of any path that ends in `/` and that name.
pub proof fn lemma_file_name_of_last_component(dir: Seq<u8>, name: Seq<u8>)
    requires
        name.len() > 0,
        forall|j: int| 0 <= j < name.len() ==> name[j] != slash(),
        name != seq![dot()],
        name != seq![dot(), dot()],
    ensures
        path_file_name(dir + seq![slash()] + name) == Some(name),
        path_file_name(name) == Some(name),
{
    let a = dir + seq![slash()];
    let p = a + name;
    assert(dir + seq![slash()] + name =~= p);
    lemma_last_index_of_append(a, name, slash());
    assert(a.drop_last() =~= dir);
    assert(last_index_of(a, slash()) == dir.len());
    assert(p.subrange(dir.len() as int + 1, p.len() as int) =~= name);
    lemma_last_index_of_append(Seq::empty(), name, slash());
    assert(Seq::<u8>::empty() + name =~= name);
    assert(name.subrange(0, name.len() as int) =~= name);
}

/// The position of the last `c` among the first `end` bytes of `v`.
fn last_index_in(v: &[u8], end: usize, c: u8) -> (r: Option<usize>)
    requires
        end <= v@.len(),
    ensures
        match r {
            Some(k) => last_index_of(v@.subrange(0, end as int), c) == k,
            None => last_index_of(v@.subrange(0, end as int), c) == -1,
        },
{
    let mut k = end;
    while k > 0
        invariant
            k <= end <= v@.len(),
            last_index_of(v@.subrange(0, end as int), c) == last_index_of(v@.subrange(0, k as int), c),
        decreases k,
    {
        if v[k - 1] == c {
            return Some(k - 1);
        }
        assert(v@.subrange(0, k as int).drop_last() =~= v@.subrange(0, k - 1));
        k = k - 1;
    }
    None
}

/// The file name of `path` (see `path_file_name`).
pub fn file_name_of(path: &[u8]) -> (r: Option<Vec<u8>>)
    ensures
        r.deep_view() == path_file_name(path@),
{
    let mut end: usize = path.len();
    assert(path@.subrange(0, end as int) =~= path@);
    loop
        invariant
            end <= path@.len(),
            path_file_name(path@) == path_file_name(path@.subrange(0, end as int)),
        decreases end,
    {
        let ghost p = path@.subrange(0, end as int);
        let slash_at = last_index_in(path, end, 47);
        proof {
            lemma_last_index_of(p, slash());
        }
        let start = match slash_at {
            Some(k) => k + 1,
            None => 0,
        };
        let ghost last = p.subrange(last_index_of(p, slash()) + 1, p.len() as int);
        assert(last =~= path@.subrange(start as int, end as int));
        let len = end - start;
        if len == 0 || (len == 1 && path[start] == 46) {
            assert(last.len() == 0 || last =~= seq![dot()]);
            match slash_at {
                None => {
                    return None;
                },
                Some(k) => {
                    assert(p.subrange(0, k as int) =~= path@.subrange(0, k as int));
                    end = k;
                },
            }
        } else if len == 2 && path[start] == 46 && path[start + 1] == 46 {
            assert(last =~= seq![dot(), dot()]);
            return None;
        } else {
            assert(last.len() == len);
            assert(last[0] == path@[start as int]);
            if len >= 2 {
                assert(last[1] == path@[start + 1]);
            }
            assert(last != seq![dot()]);
            assert(last != seq![dot(), dot()]);
            let name = slice_to_vec(slice_subrange(path, start, end));
            assert(name.deep_view() =~= name@);
            return Some(name);
        }
    }
}

/// The extension of the file name of `path` (see `path_extension`).
pub fn extension_of(path: &[u8]) -> (r: Option<Vec<u8>>)
    ensures
        r.deep_view() == path_extension(path@),
{
    let name = match file_name_of(path) {
        Some(name) => name,
        None => return None,
    };
    let n = name.len();
    assert(name@.subrange(0, n as int) =~= name@);
    assert(name.deep_view() =~= name@);
    let d = last_index_in(name.as_slice(), n, 46);
    proof {
        lemma_last_index_of(name@, dot());
    }
    match d {
        Some(d) => {
            if d > 0 {
                let extension = slice_to_vec(slice_subrange(name.as_slice(), d + 1, n));
                assert(extension.deep_view() =~= extension@);
                Some(extension)
            } else {
                None
            }
        },
        None => None,
    }
}

/// The length of `path` once trailing `/`s and `.` parts after its first
/// `head` bytes are trimmed (see `trim_end`).
fn trimmed_len(path: &[u8], end: usize, head: usize) -> (r: usize)
    requires
        head <= end <= path@.len(),
    ensures
        trim_end(path@.subrange(0, end as int), head as int) == path@.subrange(0, r as int),
        head <= r <= end,
{
    let mut k = end;
    while k > head && (path[k - 1] == 47 || (path[k - 1] == 46 && (k - 1 == head || path[k - 2] == 47)))
        invariant
            head <= k <= end <= path@.len(),
            trim_end(path@.subrange(0, end as int), head as int) == trim_end(path@.subrange(0, k as int), head as int),
        decreases k,
    {
        assert(path@.subrange(0, k as int).drop_last() =~= path@.subrange(0, k - 1));
        k = k - 1;
    }
    k
}

/// The parent directory of `path` (see `path_parent`).
pub fn parent_of(path: &[u8]) -> (r: Option<Vec<u8>>)
    ensures
        r.deep_view() == path_parent(path@),
{
    let n = path.len();
    let head: usize = if n > 0 && path[0] == 47 {
        1
    } else if n > 0 && path[0] == 46 && (n == 1 || path[1] == 47) {
        1
    } else {
        0
    };
    assert(path@.subrange(0, n as int) =~= path@);
    let t = trimmed_len(path, n, head);
    let ghost tt = path@.subrange(0, t as int);
    if t <= head {
        if head == 1 && path[0] == 46 {
            let empty: Vec<u8> = Vec::new();
            assert(empty.deep_view() =~= Seq::<u8>::empty());
            return Some(empty);
        }
        return None;
    }
    let s = last_index_in(path, t, 47);
    proof {
        lemma_last_index_of(tt, slash());
    }
    let rest_end = match s {
        Some(k) => if k >= head {
            k
        } else {
            head
        },
        None => head,
    };
    assert(tt.subrange(0, rest_end as int) =~= path@.subrange(0, rest_end as int));
    let r = trimmed_len(path, rest_end, head);
    let parent = slice_to_vec(slice_subrange(path, 0, r));
    assert(parent.deep_view() =~= parent@);
    Some(parent)
}

/// Calls `url::Url::from_directory_path` and keeps the URL's serialization.
/// The result is named `directory_url`. On Linux `url` refuses exactly the
/// paths that are not absolute, that is, that do not start with `/`; it
/// builds the serialization from `"file://"`, then a `/` before each
/// component after the root (or a single `/` for the root alone), and adds
/// a `/` at the end when there is none. Nothing is stated of the
/// percent-encoding of the components.
#[verifier::external_body]
pub(crate) fn directory_url_of(dir: &str) -> (r: Option<String>)
    ensures
        r.deep_view() == directory_url(dir@),
        r is Some <==> (dir@.len() > 0 && dir@[0] == '/'),
        r matches Some(u) ==> {
            &&& u@.len() >= 8
            &&& u@.subrange(0, 8) == seq!['f', 'i', 'l', 'e', ':', '/', '/', '/']
            &&& u@.last() == '/'
        },
{
    url::Url::from_directory_path(dir).ok().map(String::from)
}

} // verus!

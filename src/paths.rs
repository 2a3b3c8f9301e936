//! Paths as text: joining, file names and extensions, and the launcher's own
//! directory layout. Both `/` and `\` separate components.

use vstd::prelude::*;

verus! {

/// The operating systems that the launcher tells apart.
#[derive(Clone, Copy, Debug, PartialEq, Eq, Structural)]
pub enum Platform {
    Windows,
    MacOs,
    Linux,
    Other,
}

pub open spec fn is_sep(c: char) -> bool {
    c == '/' || c == '\\'
}

/// `base` with the component `rel` appended.
pub open spec fn path_join_spec(base: Seq<char>, rel: Seq<char>) -> Seq<char> {
    base + seq!['/'] + rel
}

/// Appends the component `rel` to `base`.
pub fn join_path(base: &str, rel: &str) -> (r: String)
    ensures
        r@ == path_join_spec(base@, rel@),
{
    let mut out = String::from_str(base);
    proof {
        reveal_strlit("/");
    }
    out.append("/");
    out.append(rel);
    out
}

/// The index of the last separator in `s`, or -1.
pub open spec fn last_sep(s: Seq<char>) -> int
    decreases s.len(),
{
    if s.len() == 0 {
        -1
    } else if is_sep(s.last()) {
        s.len() - 1
    } else {
        last_sep(s.drop_last())
    }
}

/// The index of the last `.` in `s`, or -1.
pub open spec fn last_dot(s: Seq<char>) -> int
    decreases s.len(),
{
    if s.len() == 0 {
        -1
    } else if s.last() == '.' {
        s.len() - 1
    } else {
        last_dot(s.drop_last())
    }
}

proof fn lemma_last_sep_bounds(s: Seq<char>)
    ensures
        -1 <= last_sep(s) < s.len(),
        last_sep(s) >= 0 ==> is_sep(s[last_sep(s)]),
        forall|i: int| last_sep(s) < i < s.len() ==> !is_sep(#[trigger] s[i]),
    decreases s.len(),
{
    if s.len() > 0 && !is_sep(s.last()) {
        lemma_last_sep_bounds(s.drop_last());
        assert forall|i: int| last_sep(s) < i < s.len() implies !is_sep(#[trigger] s[i]) by {
            if i < s.len() - 1 {
                assert(s[i] == s.drop_last()[i]);
            }
        }
    }
}

/// The last component of `s`: what follows its last separator.
pub open spec fn file_name_spec(s: Seq<char>) -> Seq<char> {
    s.skip(last_sep(s) + 1)
}

/// Whether the last component of `s` has an extension, and where its dot stands
/// within that component: a dot that begins the component starts no extension.
pub open spec fn ext_dot(s: Seq<char>) -> int {
    last_dot(file_name_spec(s))
}

/// The extension of the last component of `s`, as `Path::extension` gives it.
pub open spec fn extension_spec(s: Seq<char>) -> Option<Seq<char>> {
    let name = file_name_spec(s);
    if ext_dot(s) > 0 {
        Some(name.skip(ext_dot(s) + 1))
    } else {
        None
    }
}

/// `s` without the extension of its last component, as `Path::with_extension("")` gives it.
pub open spec fn strip_extension_spec(s: Seq<char>) -> Seq<char> {
    if ext_dot(s) > 0 {
        s.take(last_sep(s) + 1 + ext_dot(s))
    } else {
        s
    }
}

fn find_last_sep(s: &str) -> (r: usize)
    ensures
        r as int == last_sep(s@) + 1,
        r <= s@.len(),
{
    let mut j: usize = s.unicode_len();
    proof {
        assert(s@.subrange(0, j as int) =~= s@);
    }
    while j > 0 && !(s.get_char(j - 1) == '/' || s.get_char(j - 1) == '\\')
        invariant
            j <= s@.len(),
            last_sep(s@) == last_sep(s@.subrange(0, j as int)),
        decreases j,
    {
        proof {
            assert(s@.subrange(0, j as int).drop_last() =~= s@.subrange(0, j as int - 1));
        }
        j -= 1;
    }
    j
}

fn find_last_dot(s: &str) -> (r: usize)
    ensures
        r as int == last_dot(s@) + 1,
        r <= s@.len(),
{
    let mut j: usize = s.unicode_len();
    proof {
        assert(s@.subrange(0, j as int) =~= s@);
    }
    while j > 0 && s.get_char(j - 1) != '.'
        invariant
            j <= s@.len(),
            last_dot(s@) == last_dot(s@.subrange(0, j as int)),
        decreases j,
    {
        proof {
            assert(s@.subrange(0, j as int).drop_last() =~= s@.subrange(0, j as int - 1));
        }
        j -= 1;
    }
    j
}

/// The last component of `path`.
pub fn file_name(path: &str) -> (r: String)
    ensures
        r@ == file_name_spec(path@),
{
    let k = find_last_sep(path);
    let n = path.unicode_len();
    proof {
        assert(path@.subrange(k as int, n as int) =~= path@.skip(k as int));
    }
    String::from_str(path.substring_char(k, n))
}

/// The extension of the last component of `path`, if it has one.
pub fn extension(path: &str) -> (r: Option<String>)
    ensures
        r matches Some(e) ==> extension_spec(path@) == Some(e@),
        r is None ==> extension_spec(path@) is None,
{
    let name = file_name(path);
    let d = find_last_dot(name.as_str());
    if d > 1 {
        let m = name.unicode_len();
        proof {
            assert(name@.subrange(d as int, m as int) =~= name@.skip(d as int));
        }
        Some(String::from_str(name.as_str().substring_char(d, m)))
    } else {
        None
    }
}

/// `path` without the extension of its last component.
pub fn strip_extension(path: &str) -> (r: String)
    ensures
        r@ == strip_extension_spec(path@),
{
    let k = find_last_sep(path);
    let name = file_name(path);
    let d = find_last_dot(name.as_str());
    let _n = path.unicode_len();
    if d > 1 {
        proof {
            lemma_last_sep_bounds(path@);
            assert(name@.len() == path@.len() - k);
        }
        let r = String::from_str(path.substring_char(0, k + d - 1));
        proof {
            assert(r@ =~= path@.take(last_sep(path@) + 1 + ext_dot(path@)));
        }
        r
    } else {
        String::from_str(path)
    }
}

/// Whether the last component of `s` is `name`.
pub open spec fn names_file(s: Seq<char>, name: Seq<char>) -> bool {
    file_name_spec(s) == name
}

/// `s` with its last component replaced by `name`, as `Path::with_file_name` gives it
/// for a path that has a last component.
pub open spec fn with_file_name_spec(s: Seq<char>, name: Seq<char>) -> Seq<char> {
    s.take(last_sep(s) + 1) + name
}

/// Replaces the last component of `path` by `name`.
pub fn with_file_name(path: &str, name: &str) -> (r: String)
    ensures
        r@ == with_file_name_spec(path@, name@),
{
    let k = find_last_sep(path);
    let mut out = String::from_str(path.substring_char(0, k));
    out.append(name);
    proof {
        assert(path@.subrange(0, k as int) =~= path@.take(k as int));
    }
    out
}

} // verus!

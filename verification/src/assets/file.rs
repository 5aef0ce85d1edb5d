use vstd::prelude::*;

verus! {

/// Appending a character to a `String` extends its character sequence by that character.
pub assume_specification[ String::push ](s: &mut String, ch: char)
    ensures
        final(s)@ == old(s)@.push(ch),
;

/// Path of an asset, relative to the directory of external resources.
#[derive(Clone, Debug)]
pub struct Path {
    p: String,
}

impl View for Path {
    type V = Seq<char>;

    closed spec fn view(&self) -> Seq<char> {
        self.p@
    }
}

impl Path {
    /// A path given by a string that lives for the whole program.
    pub fn new(p: &'static str) -> (path: Path)
        ensures
            path@ == p@,
    {
        Path { p: String::from_str(p) }
    }

    /// A path given by an owned string.
    pub fn new_owned(p: String) -> (path: Path)
        ensures
            path@ == p@,
    {
        Path { p }
    }

    /// The path as text, as it is displayed.
    pub fn to_string(&self) -> (s: String)
        ensures
            s@ == self@,
    {
        self.p.clone()
    }

    /// The path as a string slice.
    pub fn as_str(&self) -> (s: &str)
        ensures
            s@ == self@,
    {
        self.p.as_str()
    }
}

/// Every `\` becomes `/`.
pub open spec fn backslashes_to_slashes(s: Seq<char>) -> Seq<char> {
    s.map_values(|c: char| if c == '\\' { '/' } else { c })
}

/// Each `//` becomes `/`, the pairs being taken from left to right without
/// overlapping (so `///` becomes `//`).
pub open spec fn collapse_double_slashes(s: Seq<char>) -> Seq<char>
    decreases s.len(),
{
    if s.len() == 0 {
        s
    } else if s.len() >= 2 && s[0] == '/' && s[1] == '/' {
        seq!['/'] + collapse_double_slashes(s.skip(2))
    } else {
        seq![s[0]] + collapse_double_slashes(s.skip(1))
    }
}

/// The sub-directory, below the base directory, that holds external resources.
pub open spec fn external_dir() -> Seq<char> {
    "/resources/external/"@
}

/// Where the resource `p` lives when the resources sit below `base_dir`:
/// `base_dir/resources/external/p`, with backslashes turned into slashes and
/// then doubled slashes collapsed.
pub open spec fn spec_external_path(base_dir: Seq<char>, p: Seq<char>) -> Seq<char> {
    collapse_double_slashes(backslashes_to_slashes(base_dir + external_dir() + p))
}

/// Collapses doubled slashes in `t`, as [`collapse_double_slashes`] states.
fn collapse_slashes(t: &Vec<char>) -> (out: String)
    ensures
        out@ == collapse_double_slashes(t@),
{
    let mut out = String::new();
    let mut i: usize = 0;
    let n = t.len();
    proof {
        assert(t@.skip(0) == t@);
    }
    while i < n
        invariant
            n == t@.len(),
            i <= n,
            out@ + collapse_double_slashes(t@.skip(i as int)) == collapse_double_slashes(t@),
        decreases n - i,
    {
        let ghost rest = t@.skip(i as int);
        if i + 1 < n && t[i] == '/' && t[i + 1] == '/' {
            proof {
                assert(rest[0] == '/' && rest[1] == '/');
                assert(rest.skip(2) == t@.skip(i + 2));
                assert(out@.push('/') + collapse_double_slashes(t@.skip(i + 2)) == out@ + (seq!['/']
                    + collapse_double_slashes(rest.skip(2))));
            }
            out.push('/');
            i = i + 2;
        } else {
            let c = t[i];
            proof {
                assert(rest[0] == c);
                assert(rest.skip(1) == t@.skip(i + 1));
                assert(!(rest.len() >= 2 && rest[0] == '/' && rest[1] == '/'));
                assert(out@.push(c) + collapse_double_slashes(t@.skip(i + 1)) == out@ + (seq![c]
                    + collapse_double_slashes(rest.skip(1))));
            }
            out.push(c);
            i = i + 1;
        }
    }
    proof {
        assert(t@.skip(n as int) == Seq::<char>::empty());
        assert(out@ + Seq::<char>::empty() == out@);
    }
    out
}

/// The location of the external resource `p` when resources sit below
/// `base_dir` (the crate's manifest directory during development, the
/// executable's directory otherwise).
pub fn external_path(base_dir: &str, p: &str) -> (path: String)
    ensures
        path@ == spec_external_path(base_dir@, p@),
{
    let mut joined = String::from_str(base_dir);
    joined.append("/resources/external/");
    joined.append(p);
    let s = joined.as_str();
    let n = s.unicode_len();
    let mut t: Vec<char> = Vec::new();
    let mut i: usize = 0;
    while i < n
        invariant
            n == s@.len(),
            s@ == base_dir@ + external_dir() + p@,
            i <= n,
            t@ == backslashes_to_slashes(s@).take(i as int),
        decreases n - i,
    {
        let c = s.get_char(i);
        if c == '\\' {
            t.push('/');
        } else {
            t.push(c);
        }
        proof {
            assert(t@ == backslashes_to_slashes(s@).take(i + 1));
        }
        i = i + 1;
    }
    proof {
        assert(backslashes_to_slashes(s@).take(n as int) == backslashes_to_slashes(s@));
    }
    collapse_slashes(&t)
}

/// `s` has no two slashes in a row.
pub open spec fn no_double_slash(s: Seq<char>) -> bool {
    forall|i: int| 0 <= i < s.len() - 1 ==> !(#[trigger] s[i] == '/' && s[i + 1] == '/')
}

/// A text without doubled slashes is left as it is by the collapsing.
proof fn lemma_collapse_identity(s: Seq<char>)
    requires
        no_double_slash(s),
    ensures
        collapse_double_slashes(s) == s,
    decreases s.len(),
{
    if s.len() > 0 {
        let t = s.skip(1);
        assert forall|i: int| 0 <= i < t.len() - 1 implies !(#[trigger] t[i] == '/' && t[i + 1]
            == '/') by {
            assert(t[i] == s[i + 1] && t[i + 1] == s[i + 2]);
            assert(!(s[i + 1] == '/' && s[i + 2] == '/'));
        }
        lemma_collapse_identity(t);
        if s.len() >= 2 {
            assert(!(s[0] == '/' && s[1] == '/'));
        }
        assert(seq![s[0]] + t =~= s);
    }
}

/// An external resource path changes nothing but backslashes and doubled
/// slashes: when neither the base directory nor the relative path holds a
/// backslash or two slashes in a row, the base directory does not end in a
/// slash and the relative path does not start with one, the path is exactly
/// `base_dir + "/resources/external/" + p`.
pub proof fn law_external_path_keeps_clean_paths(base_dir: Seq<char>, p: Seq<char>)
    requires
        !base_dir.contains('\\'),
        !p.contains('\\'),
        no_double_slash(base_dir),
        no_double_slash(p),
        base_dir.len() > 0 ==> base_dir.last() != '/',
        p.len() > 0 ==> p[0] != '/',
    ensures
        spec_external_path(base_dir, p) == base_dir + "/resources/external/"@ + p,
{
    reveal_strlit("/resources/external/");
    let d = external_dir();
    let s = base_dir + d + p;
    assert forall|i: int| 0 <= i < s.len() implies s[i] != '\\' by {
        if i < base_dir.len() {
            assert(s[i] == base_dir[i]);
            if base_dir[i] == '\\' {
                assert(base_dir.contains('\\'));
            }
        } else if i < base_dir.len() + d.len() {
            assert(s[i] == d[i - base_dir.len()]);
        } else {
            assert(s[i] == p[i - base_dir.len() - d.len()]);
            if p[i - base_dir.len() - d.len()] == '\\' {
                assert(p.contains('\\'));
            }
        }
    }
    assert(backslashes_to_slashes(s) =~= s);
    assert forall|i: int| 0 <= i < s.len() - 1 implies !(#[trigger] s[i] == '/' && s[i + 1] == '/') by {
        let b = base_dir.len();
        let e = b + d.len();
        if i + 1 < b {
            assert(s[i] == base_dir[i] && s[i + 1] == base_dir[i + 1]);
        } else if i + 1 == b {
            assert(s[i] == base_dir.last());
        } else if i + 1 < e {
            assert(s[i] == d[i - b] && s[i + 1] == d[i + 1 - b]);
        } else if i + 1 == e {
            assert(s[i + 1] == p[0]);
        } else {
            assert(s[i] == p[i - e] && s[i + 1] == p[i + 1 - e]);
        }
    }
    lemma_collapse_identity(s);
}

/// Collapsing doubled slashes never introduces a backslash.
proof fn lemma_collapse_keeps_no_backslash(s: Seq<char>)
    requires
        !s.contains('\\'),
    ensures
        !collapse_double_slashes(s).contains('\\'),
    decreases s.len(),
{
    if s.len() == 0 {
    } else if s.len() >= 2 && s[0] == '/' && s[1] == '/' {
        assert(!s.skip(2).contains('\\')) by {
            if s.skip(2).contains('\\') {
                let k = choose|k: int| 0 <= k < s.skip(2).len() && s.skip(2)[k] == '\\';
                assert(s[k + 2] == '\\');
            }
        }
        lemma_collapse_keeps_no_backslash(s.skip(2));
        let r = collapse_double_slashes(s.skip(2));
        assert forall|k: int| 0 <= k < (seq!['/'] + r).len() implies (seq!['/'] + r)[k] != '\\' by {
            if k > 0 {
                assert((seq!['/'] + r)[k] == r[k - 1]);
            }
        }
    } else {
        assert(!s.skip(1).contains('\\')) by {
            if s.skip(1).contains('\\') {
                let k = choose|k: int| 0 <= k < s.skip(1).len() && s.skip(1)[k] == '\\';
                assert(s[k + 1] == '\\');
            }
        }
        lemma_collapse_keeps_no_backslash(s.skip(1));
        let r = collapse_double_slashes(s.skip(1));
        assert(s[0] != '\\') by {
            if s[0] == '\\' {
                assert(s.contains('\\'));
            }
        }
        assert forall|k: int| 0 <= k < (seq![s[0]] + r).len() implies (seq![s[0]] + r)[k]
            != '\\' by {
            if k > 0 {
                assert((seq![s[0]] + r)[k] == r[k - 1]);
            }
        }
    }
}

/// An external resource path never holds a backslash, whatever the base
/// directory and the relative path.
pub proof fn law_external_path_uses_slashes(base_dir: Seq<char>, p: Seq<char>)
    ensures
        !spec_external_path(base_dir, p).contains('\\'),
{
    let s = backslashes_to_slashes(base_dir + external_dir() + p);
    assert(!s.contains('\\')) by {
        if s.contains('\\') {
            let k = choose|k: int| 0 <= k < s.len() && s[k] == '\\';
            assert(s[k] == '\\');
        }
    }
    lemma_collapse_keeps_no_backslash(s);
}

} // verus!

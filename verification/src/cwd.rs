use vstd::prelude::*;
use vstd::string::StrSliceExecFns;
use vstd::string::StringExecFns;

verus! {

/// A working directory: a path, or none.
///
/// A path is text whose components are separated by `/`; one that begins
/// with `/` is absolute.
#[derive(Debug, Clone, PartialEq, Eq)]
pub struct Cwd {
    path: Option<String>,
}

impl View for Cwd {
    type V = Option<Seq<char>>;

    closed spec fn view(&self) -> Option<Seq<char>> {
        match self.path {
            Some(p) => Some(p@),
            None => None,
        }
    }
}

/// Whether a path starts at the root.
pub open spec fn is_absolute(path: Seq<char>) -> bool {
    path.len() > 0 && path[0] == '/'
}

/// `child` adjoined to `prefix`: a separator stands between them unless
/// `prefix` is empty or already ends with one.
pub open spec fn adjoin(prefix: Seq<char>, child: Seq<char>) -> Seq<char> {
    if prefix.len() == 0 || prefix.last() == '/' {
        prefix + child
    } else {
        prefix + seq!['/'] + child
    }
}

/// The directory that `child` names when it is read inside `parent`.
pub open spec fn join(parent: Option<Seq<char>>, child: Option<Seq<char>>) -> Option<Seq<char>> {
    match child {
        None => parent,
        Some(c) => if is_absolute(c) {
            child
        } else {
            match parent {
                None => child,
                Some(p) => Some(adjoin(p, c)),
            }
        },
    }
}

/// Whether `path` begins with the text of `root`.
pub open spec fn starts_with(path: Seq<char>, root: Seq<char>) -> bool {
    root.len() <= path.len() && path.subrange(0, root.len() as int) == root
}

/// Where the run of separators that starts at `i` ends.
pub open spec fn separators_end(path: Seq<char>, i: int) -> int
    decreases path.len() - i,
{
    if 0 <= i < path.len() && path[i] == '/' {
        separators_end(path, i + 1)
    } else {
        i
    }
}

/// `path` as seen from the directory `root`, where `root` is a prefix of
/// it that ends where a component ends: what follows the prefix, without
/// the separators at its start. An empty `root` is a prefix of nothing.
pub open spec fn relative_to(path: Seq<char>, root: Seq<char>) -> Option<Seq<char>> {
    if root.len() > 0 && starts_with(path, root) && (path.len() == root.len() || root.last() == '/'
        || path[root.len() as int] == '/') {
        Some(path.skip(separators_end(path, root.len() as int)))
    } else {
        None
    }
}

/// Whether shell expansion has anything to work on in `s`: a `$`
/// somewhere, or a `~` at the start.
pub open spec fn expandable(s: Seq<char>) -> bool {
    s.contains('$') || (s.len() > 0 && s[0] == '~')
}

/// What a string read from a document stands for: the empty string is no
/// directory at all.
pub open spec fn of_text(s: Seq<char>) -> Option<Seq<char>> {
    if s.len() == 0 {
        None
    } else {
        Some(s)
    }
}

impl Cwd {
    pub fn new(path: Option<String>) -> (cwd: Cwd)
        ensures
            cwd@ == crate::text::opt_text(path),
    {
        Cwd { path }
    }

    /// No directory.
    pub fn none() -> (cwd: Cwd)
        ensures
            cwd@ is None,
    {
        Cwd { path: None }
    }

    /// The directory named by `s`; the empty string names none.
    pub fn from_string(s: String) -> (cwd: Cwd)
        ensures
            cwd@ == of_text(s@),
    {
        if s.as_str().unicode_len() == 0 {
            Cwd { path: None }
        } else {
            Cwd { path: Some(s) }
        }
    }

    /// As `from_string`, for a string that may be missing.
    pub fn from_option(os: Option<String>) -> (cwd: Cwd)
        ensures
            cwd@ == match os {
                Some(s) => of_text(s@),
                None => None,
            },
    {
        match os {
            None => Cwd { path: None },
            Some(s) => Cwd::from_string(s),
        }
    }

    /// The directory whose path is `s`, kept as it is even when empty.
    pub fn from_path(s: &str) -> (cwd: Cwd)
        ensures
            cwd@ == Some(s@),
    {
        Cwd { path: Some(s.to_owned()) }
    }

    /// What shell expansion made of a directory read from a document:
    /// the expanded text, or the message with which the expansion failed.
    pub fn from_expansion(expanded: Option<Result<String, String>>) -> (r: Result<Cwd, String>)
        ensures
            match expanded {
                None => r is Ok && r->Ok_0@ is None,
                Some(Ok(s)) => r is Ok && r->Ok_0@ == of_text(s@),
                Some(Err(message)) => r is Err && r->Err_0@ == message@,
            },
    {
        match expanded {
            None => Ok(Cwd { path: None }),
            Some(Ok(s)) => Ok(Cwd::from_string(s)),
            Some(Err(message)) => Err(message),
        }
    }

    /// Reads a directory from a document: the text, if any, undergoes
    /// shell expansion (`~` and `$VAR`). Text without `$` and without
    /// `~` at its start is taken as it is. What becomes of other text
    /// lies with the environment; an expansion that fails gives its
    /// message. Text that is empty, or becomes so, is no directory.
    pub fn expanded(path: Option<String>) -> (r: Result<Cwd, String>)
        ensures
            match path {
                None => r is Ok && r->Ok_0@ is None,
                Some(p) => {
                    &&& !expandable(p@) ==> r is Ok && r->Ok_0@ == of_text(p@)
                    &&& r is Ok ==> match r->Ok_0@ {
                        Some(expanded) => expanded.len() > 0,
                        None => true,
                    }
                },
            },
    {
        match path {
            None => Cwd::from_expansion(None),
            Some(p) => Cwd::from_expansion(Some(shell_expand(p.as_str()))),
        }
    }

    pub fn joined(&self, other: &Cwd) -> (cwd: Cwd)
        ensures
            cwd@ == join(self@, other@),
    {
        match &other.path {
            None => self.shallow_clone(),
            Some(path) => {
                if path_is_absolute(path.as_str()) {
                    other.shallow_clone()
                } else {
                    match &self.path {
                        None => other.shallow_clone(),
                        Some(prefix) => Cwd { path: Some(path_adjoin(prefix.as_str(), path.as_str())) },
                    }
                }
            },
        }
    }

    pub fn to_path(&self) -> (path: Option<&str>)
        ensures
            match path {
                Some(p) => self@ == Some(p@),
                None => self@ is None,
            },
    {
        match &self.path {
            Some(p) => Some(p.as_str()),
            None => None,
        }
    }

    pub fn shallow_clone(&self) -> (cwd: Cwd)
        ensures
            cwd@ == self@,
    {
        match &self.path {
            Some(p) => Cwd { path: Some(p.clone()) },
            None => Cwd { path: None },
        }
    }

    pub fn is_empty(&self) -> (b: bool)
        ensures
            b == match self@ {
                None => true,
                Some(p) => p.len() == 0,
            },
    {
        match &self.path {
            None => true,
            Some(path) => path.as_str().unicode_len() == 0,
        }
    }
}

impl Default for Cwd {
    fn default() -> (cwd: Cwd)
        ensures
            cwd@ is None,
    {
        Cwd { path: None }
    }
}

/// Whether `path` starts at the root.
pub fn path_is_absolute(path: &str) -> (b: bool)
    ensures
        b == is_absolute(path@),
{
    path.unicode_len() > 0 && path.get_char(0) == '/'
}

/// `child` adjoined to `prefix`.
pub fn path_adjoin(prefix: &str, child: &str) -> (path: String)
    ensures
        path@ == adjoin(prefix@, child@),
{
    let n = prefix.unicode_len();
    let mut path = prefix.to_owned();
    if n > 0 && prefix.get_char(n - 1) != '/' {
        proof {
            reveal_strlit("/");
        }
        path.append("/");
        assert("/"@ =~= seq!['/']);
    }
    path.append(child);
    path
}

/// `path` as seen from the directory `root`, if `root` is a prefix of it.
pub fn path_relative_to(path: &str, root: &str) -> (relative: Option<String>)
    ensures
        crate::text::opt_text(relative) == relative_to(path@, root@),
{
    let p = crate::text::chars_of(path);
    let r = crate::text::chars_of(root);
    if r.len() == 0 || r.len() > p.len() {
        return None;
    }
    let mut i: usize = 0;
    while i < r.len()
        invariant
            p@ == path@,
            r@ == root@,
            i <= r.len() <= p.len(),
            p@.subrange(0, i as int) == r@.subrange(0, i as int),
        decreases r.len() - i,
    {
        if p[i] != r[i] {
            proof {
                if starts_with(p@, r@) {
                    assert(p@.subrange(0, r.len() as int)[i as int] == p@[i as int]);
                    assert(false);
                }
            }
            return None;
        }
        assert(p@.subrange(0, i + 1) =~= p@.subrange(0, i as int).push(p@[i as int]));
        assert(r@.subrange(0, i + 1) =~= r@.subrange(0, i as int).push(r@[i as int]));
        i += 1;
    }
    assert(r@.subrange(0, r.len() as int) =~= r@);
    if !(p.len() == r.len() || r[r.len() - 1] == '/' || p[r.len()] == '/') {
        return None;
    }
    let mut k: usize = r.len();
    while k < p.len() && p[k] == '/'
        invariant
            r.len() <= k <= p.len(),
            separators_end(p@, r.len() as int) == separators_end(p@, k as int),
        decreases p.len() - k,
    {
        k += 1;
    }
    let relative = path.substring_char(k, p.len()).to_owned();
    Some(relative)
}

/// Calls `shellexpand::full`, which replaces a leading `~` by the home
/// directory and `$VAR` or `${VAR}` by the value of the environment
/// variable. It looks for `$` and for a leading `~` before it asks the
/// environment: an input with neither comes back unchanged, which is
/// what is claimed here. Of any other input the outcome depends on the
/// environment of the process, and nothing is claimed of it. An error is
/// handed back as its message.
#[verifier::external_body]
fn shell_expand(input: &str) -> (r: Result<String, String>)
    ensures
        !expandable(input@) ==> r is Ok && r->Ok_0@ == input@,
{
    match shellexpand::full(input) {
        Ok(expanded) => Ok(expanded.into_owned()),
        Err(err) => Err(format!("{}", err)),
    }
}

} // verus!

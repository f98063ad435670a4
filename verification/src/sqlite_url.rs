//! Database URLs of the `sqlite:` scheme: which file, if any, lies behind
//! one.

use vstd::prelude::*;
use vstd::string::*;

verus! {

/// The URL of a database held in memory.
pub const MEMORY_URL: &'static str = "sqlite::memory:";

/// The scheme with the slashes of an authority.
pub const SCHEME_SLASHES: &'static str = "sqlite://";

/// The bare scheme.
pub const SCHEME: &'static str = "sqlite:";

pub const SLASHES: &'static str = "//";

/// The mark that begins a URL's query.
pub const QUERY_MARK: char = '?';

/// Paths that name a database in memory rather than a file.
pub const MEMORY_PATH: &'static str = ":memory:";

pub const MEMORY_FILE: &'static str = "file::memory:";

/// The file path in a database URL: what follows `sqlite://`, or else what
/// follows `sqlite:`. The memory URL and URLs of other schemes have none.
pub open spec fn sqlite_file_path_spec(url: Seq<char>) -> Option<Seq<char>> {
    if url == MEMORY_URL@ {
        None
    } else if SCHEME_SLASHES@.is_prefix_of(url) {
        Some(url.skip(SCHEME_SLASHES@.len() as int))
    } else if SCHEME@.is_prefix_of(url) {
        Some(url.skip(SCHEME@.len() as int))
    } else {
        None
    }
}

/// Whether the query of `s` begins at `i`: at the first query mark, or at
/// the end where there is none.
pub open spec fn query_starts_at(s: Seq<char>, i: int) -> bool {
    &&& 0 <= i <= s.len()
    &&& i < s.len() ==> s[i] == QUERY_MARK
    &&& forall|j: int| 0 <= j < i ==> s[j] != QUERY_MARK
}

/// `s` without its query.
pub open spec fn without_query(s: Seq<char>) -> Seq<char> {
    s.take(choose|i: int| query_starts_at(s, i))
}

/// The file that has to exist before the database behind a URL can be
/// opened: the URL's file path without its query, unless that is empty or
/// names a database in memory.
pub open spec fn sqlite_file_to_create_spec(url: Seq<char>) -> Option<Seq<char>> {
    match sqlite_file_path_spec(url) {
        None => None,
        Some(path) => {
            let file = without_query(path);
            if file.len() == 0 || file == MEMORY_PATH@ || file == MEMORY_FILE@ {
                None
            } else {
                Some(file)
            }
        },
    }
}

/// The query of a string begins at one place only.
pub proof fn lemma_query_start_unique(s: Seq<char>, i: int, k: int)
    requires
        query_starts_at(s, i),
        query_starts_at(s, k),
    ensures
        i == k,
        without_query(s) == s.take(i),
{
    if i < k {
        assert(s[i] != QUERY_MARK);
    } else if k < i {
        assert(s[k] != QUERY_MARK);
    }
    let c = choose|c: int| query_starts_at(s, c);
    if i < c {
        assert(s[i] != QUERY_MARK);
    } else if c < i {
        assert(s[c] != QUERY_MARK);
    }
}

fn starts_with(s: &str, len: usize, prefix: &str) -> (yes: bool)
    requires
        len == s@.len(),
    ensures
        yes == prefix@.is_prefix_of(s@),
{
    let n = prefix.unicode_len();
    if n > len {
        return false;
    }
    let mut i: usize = 0;
    while i < n
        invariant
            i <= n <= len,
            n == prefix@.len(),
            len == s@.len(),
            forall|j: int| 0 <= j < i ==> s@[j] == prefix@[j],
        decreases n - i,
    {
        if s.get_char(i) != prefix.get_char(i) {
            assert(s@.subrange(0, n as int)[i as int] != prefix@[i as int]);
            return false;
        }
        i = i + 1;
    }
    assert(s@.subrange(0, n as int) =~= prefix@);
    true
}

fn strip_prefix<'a>(s: &'a str, len: usize, prefix: &str) -> (rest: Option<&'a str>)
    requires
        len == s@.len(),
    ensures
        match rest {
            Some(r) => prefix@.is_prefix_of(s@) && r@ == s@.skip(prefix@.len() as int),
            None => !prefix@.is_prefix_of(s@),
        },
{
    if starts_with(s, len, prefix) {
        Some(s.substring_char(prefix.unicode_len(), len))
    } else {
        None
    }
}

fn equals(s: &str, len: usize, other: &str) -> (yes: bool)
    requires
        len == s@.len(),
    ensures
        yes == (s@ == other@),
{
    let same = other.unicode_len() == len && starts_with(s, len, other);
    assert(other@.len() == s@.len() && other@.is_prefix_of(s@) ==> other@ =~= s@);
    same
}

/// The file path in the database URL `db_url`, if it has one.
pub fn sqlite_file_path_from_url(db_url: &str) -> (path: Option<&str>)
    ensures
        match path {
            Some(p) => sqlite_file_path_spec(db_url@) == Some(p@),
            None => sqlite_file_path_spec(db_url@) is None,
        },
{
    let len = db_url.unicode_len();
    if equals(db_url, len, MEMORY_URL) {
        return None;
    }
    if let Some(rest) = strip_prefix(db_url, len, SCHEME_SLASHES) {
        return Some(rest);
    }
    if let Some(rest) = strip_prefix(db_url, len, SCHEME) {
        // `sqlite:./db.sqlite` has no slashes to drop, and a URL with them
        // was answered above.
        let stripped = strip_prefix(rest, rest.unicode_len(), SLASHES);
        proof {
            reveal_strlit("sqlite://");
            reveal_strlit("sqlite:");
            reveal_strlit("//");
            if stripped is Some {
                assert(SCHEME_SLASHES@ =~= SCHEME@ + SLASHES@);
                assert(db_url@.subrange(0, 9) =~= db_url@.subrange(0, 7) + rest@.subrange(0, 2));
            }
        }
        return Some(
            match stripped {
                Some(inner) => inner,
                None => rest,
            },
        );
    }
    None
}

fn find_query(s: &str, len: usize) -> (at: usize)
    requires
        len == s@.len(),
    ensures
        query_starts_at(s@, at as int),
{
    let mut n: usize = 0;
    for c in it: s.chars()
        invariant
            n == it.index(),
            it.seq() == s@,
            len == s@.len(),
            forall|j: int| 0 <= j < n ==> s@[j] != QUERY_MARK,
    {
        if c == QUERY_MARK {
            return n;
        }
        n = n + 1;
    }
    n
}

/// The file that has to exist before the database at `db_url` can be
/// opened, if any.
pub fn sqlite_file_to_create(db_url: &str) -> (file: Option<&str>)
    ensures
        match file {
            Some(p) => sqlite_file_to_create_spec(db_url@) == Some(p@),
            None => sqlite_file_to_create_spec(db_url@) is None,
        },
{
    let path = match sqlite_file_path_from_url(db_url) {
        Some(p) => p,
        None => {
            return None;
        },
    };
    let len = path.unicode_len();
    let end = find_query(path, len);
    proof {
        lemma_query_start_unique(path@, end as int, end as int);
    }
    let file = path.substring_char(0, end);
    if end == 0 || equals(file, end, MEMORY_PATH) || equals(file, end, MEMORY_FILE) {
        return None;
    }
    Some(file)
}

} // verus!

//! Version strings: reading them, ordering them, and finding the one that a
//! remote manifest declares.
use vstd::prelude::*;

use crate::text::{
    chars_of, has_prefix, lemma_split_nonempty, parse_u64, split_bounds, split_on, strip_bounds,
    trim, u64_of,
};

verus! {

/// Why a version could not be read or compared.
#[derive(Debug, Clone, Copy, PartialEq, Eq, Structural)]
pub enum VersionError {
    /// No line of the manifest declares a quoted version.
    VersionNotFound,
    /// A component of a version is not an unsigned 64-bit integer.
    InvalidVersion,
}

/// The numeric components of a version string, read between its dots; `None`
/// when some component is not the text of a `u64`.
pub open spec fn version_parts(s: Seq<char>) -> Option<Seq<u64>> {
    let pieces = split_on(s, '.');
    if forall|k: int| 0 <= k < pieces.len() ==> (#[trigger] u64_of(pieces[k])) is Some {
        Some(pieces.map_values(|p: Seq<char>| u64_of(p).unwrap()))
    } else {
        None
    }
}

/// Component `i` of a version, zero past its end.
pub open spec fn part_at(p: Seq<u64>, i: int) -> int {
    if 0 <= i < p.len() {
        p[i] as int
    } else {
        0
    }
}

/// Version `a` is older than version `b`: at the first position where their
/// zero-padded components differ, the component of `b` is the larger.
pub open spec fn is_older(a: Seq<u64>, b: Seq<u64>) -> bool {
    exists|i: int|
        0 <= i && #[trigger] part_at(a, i) < part_at(b, i) && forall|j: int|
            0 <= j < i ==> #[trigger] part_at(a, j) == part_at(b, j)
}

/// No version is older than itself: equal versions compare as "not older".
pub proof fn lemma_not_older_than_itself(a: Seq<u64>)
    ensures
        !is_older(a, a),
{
}

/// Of two versions, at most one is older than the other.
pub proof fn lemma_older_asymmetric(a: Seq<u64>, b: Seq<u64>)
    ensures
        is_older(a, b) ==> !is_older(b, a),
{
    if is_older(a, b) && is_older(b, a) {
        let i = choose|i: int|
            0 <= i && #[trigger] part_at(a, i) < part_at(b, i) && forall|j: int|
                0 <= j < i ==> #[trigger] part_at(a, j) == part_at(b, j);
        let k = choose|k: int|
            0 <= k && #[trigger] part_at(b, k) < part_at(a, k) && forall|j: int|
                0 <= j < k ==> #[trigger] part_at(b, j) == part_at(a, j);
        if i < k {
            assert(part_at(b, i) == part_at(a, i));
        } else if k < i {
            assert(part_at(a, k) == part_at(b, k));
        }
    }
}

/// Whether the version with components `a` is older than the one with `b`.
pub fn parts_older(a: &Vec<u64>, b: &Vec<u64>) -> (r: bool)
    ensures
        r == is_older(a@, b@),
{
    let n: usize = if a.len() >= b.len() {
        a.len()
    } else {
        b.len()
    };
    let mut i: usize = 0;
    while i < n
        invariant
            i <= n,
            n == a@.len() || n == b@.len(),
            a@.len() <= n && b@.len() <= n,
            forall|j: int| 0 <= j < i ==> #[trigger] part_at(a@, j) == part_at(b@, j),
        decreases n - i,
    {
        let x: u64 = if i < a.len() {
            a[i]
        } else {
            0
        };
        let y: u64 = if i < b.len() {
            b[i]
        } else {
            0
        };
        assert(part_at(a@, i as int) == x && part_at(b@, i as int) == y);
        if y > x {
            return true;
        } else if x > y {
            assert forall|k: int|
                0 <= k && #[trigger] part_at(a@, k) < part_at(b@, k) implies !(forall|j: int|
                0 <= j < k ==> #[trigger] part_at(a@, j) == part_at(b@, j)) by {
                assert(k > i);
                assert(part_at(a@, i as int) != part_at(b@, i as int));
            }
            return false;
        }
        i += 1;
    }
    assert forall|k: int| 0 <= k implies !(#[trigger] part_at(a@, k) < part_at(b@, k)) by {
        if k >= n {
            assert(part_at(a@, k) == 0 && part_at(b@, k) == 0);
        }
    }
    false
}

/// Reads the components of a version string.
pub fn parse_version(s: &str) -> (r: Option<Vec<u64>>)
    ensures
        match r {
            Some(v) => version_parts(s@) == Some(v@),
            None => version_parts(s@) is None,
        },
{
    let t = chars_of(s);
    assert(t@.subrange(0, t@.len() as int) =~= s@);
    let bounds = split_bounds(&t, 0, t.len(), '.');
    let ghost pieces = split_on(s@, '.');
    let mut parts: Vec<u64> = Vec::new();
    let mut k: usize = 0;
    while k < bounds.len()
        invariant
            k <= bounds@.len() == pieces.len(),
            pieces == split_on(s@, '.'),
            parts@ == pieces.take(k as int).map_values(|p: Seq<char>| u64_of(p).unwrap()),
            forall|j: int| 0 <= j < k ==> (#[trigger] u64_of(pieces[j])) is Some,
            forall|j: int|
                0 <= j < bounds@.len() ==> #[trigger] bounds@[j].0 <= bounds@[j].1 <= t@.len()
                    && t@.subrange(bounds@[j].0 as int, bounds@[j].1 as int) == pieces[j],
        decreases bounds@.len() - k,
    {
        let (lo, hi) = bounds[k];
        assert(bounds@[k as int].0 <= bounds@[k as int].1);
        match parse_u64(&t, lo, hi) {
            None => {
                return None;
            },
            Some(x) => {
                parts.push(x);
                assert(pieces.take(k + 1).map_values(|p: Seq<char>| u64_of(p).unwrap())
                    =~= pieces.take(k as int).map_values(|p: Seq<char>| u64_of(p).unwrap()).push(
                    x,
                ));
            },
        }
        k += 1;
    }
    assert(pieces.take(k as int) =~= pieces);
    Some(parts)
}

/// Compares two version strings: `Ok(true)` when `compiled_version` is older
/// than `repo_version`, numerically and component by component.
pub fn compare_versions(compiled_version: &str, repo_version: &str) -> (r: Result<
    bool,
    VersionError,
>)
    ensures
        r == match (version_parts(compiled_version@), version_parts(repo_version@)) {
            (Some(a), Some(b)) => Ok(is_older(a, b)),
            _ => Err(VersionError::InvalidVersion),
        },
{
    let compiled_parts = match parse_version(compiled_version) {
        Some(p) => p,
        None => {
            return Err(VersionError::InvalidVersion);
        },
    };
    let repo_parts = match parse_version(repo_version) {
        Some(p) => p,
        None => {
            return Err(VersionError::InvalidVersion);
        },
    };
    Ok(parts_older(&compiled_parts, &repo_parts))
}

/// The word that begins the line declaring a version.
pub open spec fn version_key() -> Seq<char> {
    seq!['v', 'e', 'r', 's', 'i', 'o', 'n']
}

/// Whether a manifest line declares the version: it begins with `version`.
pub open spec fn is_version_line(l: Seq<char>) -> bool {
    l.len() >= version_key().len() && l.take(version_key().len() as int) == version_key()
}

/// The first of `lines` that declares the version.
pub open spec fn first_version_line(lines: Seq<Seq<char>>) -> Option<Seq<char>>
    decreases lines.len(),
{
    if lines.len() == 0 {
        None
    } else if is_version_line(lines[0]) {
        Some(lines[0])
    } else {
        first_version_line(lines.drop_first())
    }
}

/// The version text of a declaring line: the part between its first and
/// second `=`, trimmed of white space, inside one pair of double quotes.
pub open spec fn quoted_value(line: Seq<char>) -> Option<Seq<char>> {
    let fields = split_on(line, '=');
    if fields.len() < 2 {
        None
    } else {
        let v = trim(fields[1]);
        if v.len() >= 2 && v[0] == '"' && v.last() == '"' {
            Some(v.subrange(1, v.len() - 1))
        } else {
            None
        }
    }
}

/// The version that a manifest declares, on its first line that begins with
/// `version`. Lines end at `\n`; a carriage return before it is white space
/// and falls to the trimming.
pub open spec fn manifest_version(text: Seq<char>) -> Option<Seq<char>> {
    match first_version_line(split_on(text, '\n')) {
        Some(l) => quoted_value(l),
        None => None,
    }
}

fn quoted_value_bounds(t: &Vec<char>, lo: usize, hi: usize) -> (r: Option<(usize, usize)>)
    requires
        lo <= hi <= t.len(),
    ensures
        match r {
            Some((a, b)) => a <= b <= t@.len() && quoted_value(t@.subrange(lo as int, hi as int))
                == Some(t@.subrange(a as int, b as int)),
            None => quoted_value(t@.subrange(lo as int, hi as int)) is None,
        },
{
    let fields = split_bounds(t, lo, hi, '=');
    if fields.len() < 2 {
        return None;
    }
    let (flo, fhi) = fields[1];
    assert(fields@[1].0 <= fields@[1].1);
    let (a, b) = strip_bounds(t, flo, fhi, false);
    let ghost v = t@.subrange(a as int, b as int);
    if b - a >= 2 && t[a] == '"' && t[b - 1] == '"' {
        assert(v[0] == t@[a as int] && v.last() == t@[b - 1]);
        assert(v.subrange(1, v.len() - 1) =~= t@.subrange(a + 1, b - 1));
        Some((a + 1, b - 1))
    } else {
        proof {
            if v.len() >= 2 {
                assert(v[0] == t@[a as int] && v.last() == t@[b - 1]);
            }
        }
        None
    }
}

fn manifest_version_bounds(t: &Vec<char>) -> (r: Option<(usize, usize)>)
    ensures
        match r {
            Some((a, b)) => a <= b <= t@.len() && manifest_version(t@) == Some(
                t@.subrange(a as int, b as int),
            ),
            None => manifest_version(t@) is None,
        },
{
    assert(t@.subrange(0, t@.len() as int) =~= t@);
    let lines = split_bounds(t, 0, t.len(), '\n');
    let ghost ls = split_on(t@, '\n');
    let key: Vec<char> = vec!['v', 'e', 'r', 's', 'i', 'o', 'n'];
    assert(key@ =~= version_key());
    let mut k: usize = 0;
    assert(ls.subrange(0, ls.len() as int) =~= ls);
    while k < lines.len()
        invariant
            k <= lines@.len() == ls.len(),
            ls == split_on(t@, '\n'),
            key@ == version_key(),
            first_version_line(ls) == first_version_line(ls.subrange(k as int, ls.len() as int)),
            forall|j: int|
                0 <= j < lines@.len() ==> #[trigger] lines@[j].0 <= lines@[j].1 <= t@.len()
                    && t@.subrange(lines@[j].0 as int, lines@[j].1 as int) == ls[j],
        decreases lines@.len() - k,
    {
        let (lo, hi) = lines[k];
        assert(lines@[k as int].0 <= lines@[k as int].1);
        let ghost rest = ls.subrange(k as int, ls.len() as int);
        assert(rest[0] == ls[k as int]);
        assert(rest.drop_first() =~= ls.subrange(k + 1, ls.len() as int));
        if has_prefix(t, lo, hi, &key) {
            assert(ls[k as int].take(7) =~= t@.subrange(lo as int, lo + 7));
            return quoted_value_bounds(t, lo, hi);
        }
        proof {
            if ls[k as int].len() >= 7 {
                assert(ls[k as int].take(7) =~= t@.subrange(lo as int, lo + 7));
            }
        }
        k += 1;
    }
    None
}

/// The outcome of comparing a compiled-in version with a remote manifest:
/// whether the compiled version is older, and the version the manifest declares.
pub open spec fn remote_version_check(manifest: Seq<char>, compiled: Seq<char>) -> Result<
    (bool, Seq<char>),
    VersionError,
> {
    match manifest_version(manifest) {
        None => Err(VersionError::VersionNotFound),
        Some(v) => match (version_parts(compiled), version_parts(v)) {
            (Some(a), Some(b)) => Ok((is_older(a, b), v)),
            _ => Err(VersionError::InvalidVersion),
        },
    }
}

/// Reads the version that a fetched manifest declares and compares
/// `compiled_version` with it.
pub fn is_current_version_older(manifest: &str, compiled_version: &str) -> (r: Result<
    (bool, String),
    VersionError,
>)
    ensures
        match r {
            Ok((older, v)) => remote_version_check(manifest@, compiled_version@) == Ok::<
                (bool, Seq<char>),
                VersionError,
            >((older, v@)),
            Err(e) => remote_version_check(manifest@, compiled_version@) == Err::<
                (bool, Seq<char>),
                VersionError,
            >(e),
        },
{
    let t = chars_of(manifest);
    let (a, b) = match manifest_version_bounds(&t) {
        Some(ab) => ab,
        None => {
            return Err(VersionError::VersionNotFound);
        },
    };
    let repo_version = manifest.substring_char(a, b).to_owned();
    match compare_versions(compiled_version, repo_version.as_str()) {
        Ok(older) => Ok((older, repo_version)),
        Err(e) => Err(e),
    }
}

/// The version reported when the remote one cannot be had.
pub open spec fn unknown_version() -> Seq<char> {
    seq!['0', '.', '0', '.', '0']
}

/// The advisory check made at startup. Without a manifest (the fetch failed),
/// or when it cannot be read or compared, it reports "not older" and version
/// `0.0.0`, so that a network fault never blocks normal operation.
pub fn check_remote_version(manifest: Option<&str>, compiled_version: &str) -> (r: (bool, String))
    ensures
        match manifest {
            Some(m) => match remote_version_check(m@, compiled_version@) {
                Ok((older, v)) => r.0 == older && r.1@ == v,
                Err(_) => !r.0 && r.1@ == unknown_version(),
            },
            None => !r.0 && r.1@ == unknown_version(),
        },
{
    let fallback = "0.0.0";
    proof {
        reveal_strlit("0.0.0");
    }
    assert(fallback@ =~= unknown_version());
    match manifest {
        Some(m) => match is_current_version_older(m, compiled_version) {
            Ok(checked) => checked,
            Err(_) => (false, fallback.to_owned()),
        },
        None => (false, fallback.to_owned()),
    }
}

} // verus!

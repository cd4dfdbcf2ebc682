//! Relative paths and the protected path.
//!
//! Exclusion and protection are decided on the path relative to the
//! enumeration root, never the absolute path. Before any comparison a
//! relative path is normalized: separators become `/` and trailing
//! separators are dropped, so that spelling differences cannot defeat
//! the protected-path guard.

use vstd::prelude::*;
use vstd::string::*;

verus! {

/// One path separator, normalized.
pub open spec fn sep_char(c: char) -> char {
    if c == '\\' {
        '/'
    } else {
        c
    }
}

/// Every separator mapped to `/`.
pub open spec fn map_sep(s: Seq<char>) -> Seq<char> {
    s.map_values(|c: char| sep_char(c))
}

/// Trailing separators dropped.
pub open spec fn strip_trailing(s: Seq<char>) -> Seq<char>
    decreases s.len(),
{
    if s.len() > 0 && s.last() == '/' {
        strip_trailing(s.drop_last())
    } else {
        s
    }
}

/// The normal form a relative path is compared in.
pub open spec fn normal_form(s: Seq<char>) -> Seq<char> {
    strip_trailing(map_sep(s))
}

/// Whether a relative path denotes the protected per-configuration
/// metadata file.
pub open spec fn is_protected_rel(s: Seq<char>) -> bool {
    normal_form(s) == normal_form("dotconfig.toml"@)
}

/// The fixed relative path of the per-configuration metadata file. It is
/// never implicitly copied by either sync direction.
pub fn protected_path() -> (r: &'static str)
    ensures
        r@ == "dotconfig.toml"@,
{
    "dotconfig.toml"
}

/// True exactly when the two string slices hold the same characters.
pub fn str_eq(a: &str, b: &str) -> (r: bool)
    ensures
        r == (a@ == b@),
{
    let owned_a = String::from_str(a);
    let owned_b = String::from_str(b);
    owned_a == owned_b
}

/// Normalizes a relative path: separators become `/`, trailing
/// separators are dropped.
pub fn normalize_rel(p: &str) -> (r: String)
    ensures
        r@ == normal_form(p@),
{
    let n = p.unicode_len();
    let mut replaced = String::new();
    let mut i: usize = 0;
    while i < n
        invariant
            n == p@.len(),
            i <= n,
            replaced@ == map_sep(p@.take(i as int)),
        decreases n - i,
    {
        let c = p.get_char(i);
        if c == '\\' {
            replaced.append("/");
            proof {
                reveal_strlit("/");
            }
        } else {
            let piece = p.substring_char(i, i + 1);
            replaced.append(piece);
        }
        proof {
            assert(p@.take(i + 1) =~= p@.take(i as int).push(p@[i as int]));
            assert(map_sep(p@.take(i + 1)) =~= map_sep(p@.take(i as int)).push(
                sep_char(p@[i as int]),
            ));
            if p@[i as int] == '\\' {
                assert(replaced@ =~= map_sep(p@.take(i + 1)));
            } else {
                assert(p@.subrange(i as int, i + 1) =~= seq![p@[i as int]]);
                assert(replaced@ =~= map_sep(p@.take(i + 1)));
            }
        }
        i += 1;
    }
    proof {
        assert(p@.take(n as int) =~= p@);
    }
    let slice = replaced.as_str();
    let total = slice.unicode_len();
    let mut end = total;
    proof {
        assert(slice@.take(total as int) =~= slice@);
    }
    while end > 0 && slice.get_char(end - 1) == '/'
        invariant
            total == slice@.len(),
            end <= total,
            slice@ == map_sep(p@),
            strip_trailing(slice@.take(end as int)) == strip_trailing(slice@),
        decreases end,
    {
        proof {
            assert(slice@.take(end as int).last() == slice@[end - 1]);
            assert(slice@.take(end as int).drop_last() =~= slice@.take(end - 1));
        }
        end = end - 1;
    }
    proof {
        if end > 0 {
            assert(slice@.take(end as int).last() == slice@[end - 1]);
        }
        assert(strip_trailing(slice@.take(end as int)) == slice@.take(end as int));
    }
    let kept = slice.substring_char(0, end);
    proof {
        assert(kept@ =~= slice@.take(end as int));
    }
    String::from_str(kept)
}

/// Whether this relative path, in normal form, equals the protected path.
pub fn is_protected(rel: &str) -> (r: bool)
    ensures
        r == is_protected_rel(rel@),
{
    let a = normalize_rel(rel);
    let b = normalize_rel(protected_path());
    a == b
}

/// Leading separators dropped.
pub open spec fn strip_leading(s: Seq<char>) -> Seq<char>
    decreases s.len(),
{
    if s.len() > 0 && s.first() == '/' {
        strip_leading(s.drop_first())
    } else {
        s
    }
}

/// The root prefix ends at a path-component boundary: at the path's
/// end, or right before a separator.
pub open spec fn root_boundary(root: Seq<char>, path: Seq<char>) -> bool {
    root.len() == 0 || path.len() == root.len() || path[root.len() as int] == '/'
}

/// What `strip_root` yields: the path with the root prefix and the
/// separators after it removed, or nothing when the root is no prefix
/// ending at a component boundary.
pub open spec fn strip_root_spec(root: Seq<char>, path: Seq<char>) -> Option<Seq<char>> {
    if path.len() >= root.len() && path.take(root.len() as int) == root && root_boundary(
        root,
        path,
    ) {
        Some(strip_leading(path.skip(root.len() as int)))
    } else {
        None
    }
}

/// Computes the path relative to an enumeration root: the root prefix
/// and the separators following it are removed. Yields nothing when the
/// path does not start with the root. Both arguments are expected in
/// normal form (see [`normalize_rel`]).
pub fn strip_root(root: &str, path: &str) -> (r: Option<String>)
    ensures
        match r {
            Some(s) => strip_root_spec(root@, path@) == Some(s@),
            None => strip_root_spec(root@, path@) is None,
        },
{
    let rl = root.unicode_len();
    let pl = path.unicode_len();
    if pl < rl {
        return None;
    }
    let prefix = path.substring_char(0, rl);
    proof {
        assert(prefix@ =~= path@.take(rl as int));
    }
    if !str_eq(prefix, root) {
        return None;
    }
    if rl > 0 && pl > rl && path.get_char(rl) != '/' {
        return None;
    }
    let mut start = rl;
    while start < pl && path.get_char(start) == '/'
        invariant
            pl == path@.len(),
            rl <= start <= pl,
            strip_leading(path@.skip(start as int)) == strip_leading(path@.skip(rl as int)),
        decreases pl - start,
    {
        proof {
            assert(path@.skip(start as int).first() == path@[start as int]);
            assert(path@.skip(start as int).drop_first() =~= path@.skip(start + 1));
        }
        start += 1;
    }
    proof {
        if start < pl {
            assert(path@.skip(start as int).first() == path@[start as int]);
        }
        assert(strip_leading(path@.skip(start as int)) == path@.skip(start as int));
    }
    let rest = path.substring_char(start, pl);
    proof {
        assert(rest@ =~= path@.skip(start as int));
    }
    Some(String::from_str(rest))
}

} // verus!

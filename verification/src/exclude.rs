//! Glob-based exclusion.
//!
//! The exclude patterns of one operation are drawn from two lists, the
//! configuration-level one and the target- or pull-level one, and are
//! unioned into a single predicate: a relative path is excluded when any
//! pattern matches it. A malformed pattern is a recoverable
//! configuration defect reported with the offending pattern and the list
//! it came from; a set whose compiled form globset rejects (it caps the
//! compiled size) is a recoverable defect too, never an abort.
//!
//! Pattern syntax and matching are globset's; the engine treats both as
//! opaque functions of the patterns and the path.

use vstd::prelude::*;
use crate::errors::{PatternOrigin, SyncError};

verus! {

#[verifier::external_type_specification]
#[verifier::external_body]
pub struct ExGlob(globset::Glob);

#[verifier::external_type_specification]
#[verifier::external_body]
pub struct ExGlobSet(globset::GlobSet);

#[verifier::external_type_specification]
#[verifier::external_body]
pub struct ExGlobSetBuilder(globset::GlobSetBuilder);

/// Whether globset accepts this pattern; decided by the pattern alone.
pub uninterp spec fn pattern_valid(p: Seq<char>) -> bool;

/// The pattern a parsed glob was built from.
pub uninterp spec fn glob_pattern(g: globset::Glob) -> Seq<char>;

/// The patterns added so far to a set under construction, in order.
pub uninterp spec fn builder_patterns(b: globset::GlobSetBuilder) -> Seq<Seq<char>>;

/// The patterns a compiled set matches for, in order.
pub uninterp spec fn set_patterns(s: globset::GlobSet) -> Seq<Seq<char>>;

/// Whether globset can compile this list of patterns into one match
/// set; decided by the list alone.
pub uninterp spec fn set_compiles(patterns: Seq<Seq<char>>) -> bool;

/// Whether a pattern matches a path; decided by the two alone.
pub uninterp spec fn glob_match(pattern: Seq<char>, path: Seq<char>) -> bool;

/// A path is excluded when any pattern of the union matches it.
pub open spec fn matches_any(patterns: Seq<Seq<char>>, path: Seq<char>) -> bool {
    exists|i: int| 0 <= i < patterns.len() && glob_match(patterns[i], path)
}

/// Relies on globset::Glob::new: it parses the pattern, succeeding or
/// failing on the pattern alone, and the returned glob carries that
/// pattern.
#[verifier::external_body]
fn glob_new(p: &str) -> (r: Result<globset::Glob, ()>)
    ensures
        r is Ok <==> pattern_valid(p@),
        r is Ok ==> glob_pattern(r->Ok_0) == p@,
{
    match globset::Glob::new(p) {
        Ok(g) => Ok(g),
        Err(_) => Err(()),
    }
}

/// Relies on globset::GlobSetBuilder::new: the set starts empty.
#[verifier::external_body]
fn builder_new() -> (r: globset::GlobSetBuilder)
    ensures
        builder_patterns(r) == Seq::<Seq<char>>::empty(),
{
    globset::GlobSetBuilder::new()
}

/// Relies on globset::GlobSetBuilder::add: the glob joins the set
/// under construction, after the ones already added.
#[verifier::external_body]
fn builder_add(b: &mut globset::GlobSetBuilder, g: globset::Glob)
    ensures
        builder_patterns(*final(b)) == builder_patterns(*old(b)).push(glob_pattern(g)),
{
    b.add(g);
}

/// Relies on globset::GlobSetBuilder::build: compiling succeeds or
/// fails on the added globs alone (a compiled-size cap can reject globs
/// that parsed), it returns that failure as an error rather than
/// aborting, and the built set matches for exactly the added globs.
#[verifier::external_body]
fn builder_build(b: &globset::GlobSetBuilder) -> (r: Result<globset::GlobSet, ()>)
    ensures
        r is Ok <==> set_compiles(builder_patterns(*b)),
        r is Ok ==> set_patterns(r->Ok_0) == builder_patterns(*b),
{
    match b.build() {
        Ok(s) => Ok(s),
        Err(_) => Err(()),
    }
}

/// Relies on globset::GlobSet::is_match: true exactly when any glob in
/// the set matches the path; per glob that is decided by the pattern
/// and the path alone.
#[verifier::external_body]
fn set_is_match(s: &globset::GlobSet, path: &str) -> (r: bool)
    ensures
        r == (exists|i: int|
            0 <= i < set_patterns(*s).len() && glob_match(
                #[trigger] set_patterns(*s)[i],
                path@,
            )),
{
    s.is_match(path)
}

/// The views of a list of owned patterns.
pub open spec fn views_of(v: Seq<String>) -> Seq<Seq<char>> {
    v.map_values(|s: String| s@)
}

/// Every pattern of the list is accepted by globset.
pub open spec fn all_valid(ps: Seq<Seq<char>>) -> bool {
    forall|i: int| 0 <= i < ps.len() ==> pattern_valid(ps[i])
}

/// `p` is the first pattern of the list that globset rejects.
pub open spec fn is_first_invalid(ps: Seq<Seq<char>>, p: Seq<char>) -> bool {
    exists|i: int|
        0 <= i < ps.len() && ps[i] == p && !pattern_valid(p) && all_valid(ps.take(i))
}

/// The compiled union of the exclude patterns of one operation:
/// match-if-any-pattern-matches.
#[derive(Debug)]
pub struct ExcludeMatcher {
    set: globset::GlobSet,
}

impl ExcludeMatcher {
    /// The patterns the matcher was compiled from, in order:
    /// configuration-level ones first, then target- or pull-level ones.
    pub closed spec fn patterns(&self) -> Seq<Seq<char>> {
        set_patterns(self.set)
    }

    /// Compiles the union of the two exclude lists. A malformed pattern
    /// is reported with its text and the list it came from — the first
    /// offender, scanning the configuration-level list first; a set
    /// globset cannot compile is reported as such. Neither aborts.
    pub fn compile(config_excl: &Vec<String>, target_excl: &Vec<String>) -> (r: Result<
        ExcludeMatcher,
        SyncError,
    >)
        ensures
            r is Ok <==> all_valid(views_of(config_excl@)) && all_valid(views_of(target_excl@))
                && set_compiles(views_of(config_excl@) + views_of(target_excl@)),
            r is Ok ==> (r->Ok_0).patterns() == views_of(config_excl@) + views_of(target_excl@),
            r is Err ==> match r->Err_0 {
                SyncError::GlobSyntax { pattern, origin } => match origin {
                    PatternOrigin::Config => is_first_invalid(views_of(config_excl@), pattern@),
                    PatternOrigin::Target => all_valid(views_of(config_excl@))
                        && is_first_invalid(views_of(target_excl@), pattern@),
                },
                SyncError::GlobCompile => all_valid(views_of(config_excl@)) && all_valid(
                    views_of(target_excl@),
                ) && !set_compiles(views_of(config_excl@) + views_of(target_excl@)),
                _ => false,
            },
    {
        let mut builder = builder_new();
        let mut i: usize = 0;
        while i < config_excl.len()
            invariant
                i <= config_excl@.len(),
                builder_patterns(builder) == views_of(config_excl@.take(i as int)),
                all_valid(views_of(config_excl@.take(i as int))),
            decreases config_excl@.len() - i,
        {
            let pat = &config_excl[i];
            match glob_new(pat.as_str()) {
                Ok(g) => {
                    builder_add(&mut builder, g);
                },
                Err(_) => {
                    proof {
                        assert(views_of(config_excl@)[i as int] == pat@);
                        assert(views_of(config_excl@).take(i as int) =~= views_of(
                            config_excl@.take(i as int),
                        ));
                    }
                    return Err(SyncError::GlobSyntax {
                        pattern: pat.clone(),
                        origin: PatternOrigin::Config,
                    });
                },
            }
            proof {
                assert(views_of(config_excl@.take(i + 1)) =~= views_of(
                    config_excl@.take(i as int),
                ).push(config_excl@[i as int]@));
            }
            i += 1;
        }
        proof {
            assert(config_excl@.take(i as int) =~= config_excl@);
        }
        let mut j: usize = 0;
        while j < target_excl.len()
            invariant
                j <= target_excl@.len(),
                all_valid(views_of(config_excl@)),
                builder_patterns(builder) == views_of(config_excl@) + views_of(
                    target_excl@.take(j as int),
                ),
                all_valid(views_of(target_excl@.take(j as int))),
            decreases target_excl@.len() - j,
        {
            let pat = &target_excl[j];
            match glob_new(pat.as_str()) {
                Ok(g) => {
                    builder_add(&mut builder, g);
                },
                Err(_) => {
                    proof {
                        assert(views_of(target_excl@)[j as int] == pat@);
                        assert(views_of(target_excl@).take(j as int) =~= views_of(
                            target_excl@.take(j as int),
                        ));
                    }
                    return Err(SyncError::GlobSyntax {
                        pattern: pat.clone(),
                        origin: PatternOrigin::Target,
                    });
                },
            }
            proof {
                assert(views_of(target_excl@.take(j + 1)) =~= views_of(
                    target_excl@.take(j as int),
                ).push(target_excl@[j as int]@));
                assert(builder_patterns(builder) =~= views_of(config_excl@) + views_of(
                    target_excl@.take(j + 1),
                ));
            }
            j += 1;
        }
        proof {
            assert(target_excl@.take(j as int) =~= target_excl@);
        }
        match builder_build(&builder) {
            Ok(set) => Ok(ExcludeMatcher { set }),
            Err(_) => Err(SyncError::GlobCompile),
        }
    }

    /// Whether any pattern of the union matches the relative path.
    pub fn is_match(&self, rel: &str) -> (r: bool)
        ensures
            r == matches_any(self.patterns(), rel@),
    {
        set_is_match(&self.set, rel)
    }
}

} // verus!

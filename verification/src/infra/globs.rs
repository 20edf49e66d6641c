//! Compiling glob patterns with globset, each compiled value carrying the
//! patterns it was made from.
//!
//! `Glob::new` accepts or refuses a pattern by the pattern alone, and
//! `GlobSetBuilder::build` builds or fails by the globs added to it, so by
//! their patterns in order; the names below stand for those two outcomes.
//! Only the items of this module make the values that carry patterns.
use vstd::prelude::*;
use globset::{Glob, GlobSet, GlobSetBuilder};

verus! {

#[verifier::external_type_specification]
#[verifier::external_body]
pub struct ExGlob(Glob);

#[verifier::external_type_specification]
#[verifier::external_body]
pub struct ExGlobSet(GlobSet);

#[verifier::external_type_specification]
#[verifier::external_body]
pub struct ExGlobSetBuilder(GlobSetBuilder);

#[verifier::external_type_specification]
#[verifier::external_body]
pub struct ExGlobError(globset::Error);

/// Whether `Glob::new` accepts a pattern.
pub uninterp spec fn glob_valid(pattern: Seq<char>) -> bool;

/// Whether `GlobSetBuilder::build` succeeds on the globs of these patterns,
/// added in this order (it compiles their regular expressions, which can
/// exceed the regex crate's size limits).
pub uninterp spec fn globs_build(patterns: Seq<Seq<char>>) -> bool;

/// A compiled glob and its pattern.
pub struct PatternGlob {
    glob: Glob,
    pattern: Ghost<Seq<char>>,
}

impl View for PatternGlob {
    type V = Seq<char>;

    closed spec fn view(&self) -> Seq<char> {
        self.pattern@
    }
}

/// A glob set builder and the patterns of the globs added to it, in order.
pub struct PatternSetBuilder {
    builder: GlobSetBuilder,
    patterns: Ghost<Seq<Seq<char>>>,
}

impl View for PatternSetBuilder {
    type V = Seq<Seq<char>>;

    closed spec fn view(&self) -> Seq<Seq<char>> {
        self.patterns@
    }
}

/// `Glob::new`: the glob of a pattern, or globset's error when the pattern
/// is invalid.
#[verifier::external_body]
pub(crate) fn new_glob(pattern: &str) -> (r: Result<PatternGlob, globset::Error>)
    ensures
        r is Ok <==> glob_valid(pattern@),
        r matches Ok(g) ==> g@ == pattern@,
{
    match Glob::new(pattern) {
        Ok(glob) => Ok(PatternGlob { glob, pattern: Ghost(pattern@) }),
        Err(e) => Err(e),
    }
}

/// `GlobSetBuilder::new`: a builder with no globs.
#[verifier::external_body]
pub(crate) fn new_glob_set_builder() -> (r: PatternSetBuilder)
    ensures
        r@ == Seq::<Seq<char>>::empty(),
{
    PatternSetBuilder { builder: GlobSetBuilder::new(), patterns: Ghost(Seq::empty()) }
}

/// `GlobSetBuilder::add`: the glob goes after those added before.
#[verifier::external_body]
pub(crate) fn add_glob(builder: &mut PatternSetBuilder, glob: PatternGlob)
    ensures
        final(builder)@ == old(builder)@.push(glob@),
{
    builder.builder.add(glob.glob);
    builder.patterns = Ghost(builder.patterns@.push(glob.pattern@));
}

/// A built glob set and the patterns of its globs, in order.
pub struct PatternSet {
    set: GlobSet,
    patterns: Ghost<Seq<Seq<char>>>,
}

impl View for PatternSet {
    type V = Seq<Seq<char>>;

    closed spec fn view(&self) -> Seq<Seq<char>> {
        self.patterns@
    }
}

/// Whether a set of glob patterns matches a path (`GlobSet::is_match`). It
/// is a function of the patterns and the path for one build target: off
/// Unix, globset first turns `\` in the path into `/`.
pub uninterp spec fn globs_match(patterns: Seq<Seq<char>>, path: Seq<char>) -> bool;

/// `GlobSetBuilder::build`: the set of the builder's globs, which carries
/// their patterns.
#[verifier::external_body]
pub(crate) fn build_glob_set(builder: &PatternSetBuilder) -> (r: Result<PatternSet, globset::Error>)
    ensures
        r is Ok <==> globs_build(builder@),
        r matches Ok(s) ==> s@ == builder@,
{
    match builder.builder.build() {
        Ok(set) => Ok(PatternSet { set, patterns: Ghost(builder.patterns@) }),
        Err(e) => Err(e),
    }
}

/// `GlobSet::is_match`.
#[verifier::external_body]
pub(crate) fn set_is_match(set: &PatternSet, path: &str) -> (r: bool)
    ensures
        r == globs_match(set@, path@),
{
    set.set.is_match(path)
}

} // verus!

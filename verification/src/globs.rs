//! Sets of glob patterns.

use crate::text::{cat, texts};
use globset::{Glob, GlobSet, GlobSetBuilder};
use vstd::prelude::*;

verus! {

/// A set of globs that paths are matched against.
#[verifier::external_type_specification]
#[verifier::external_body]
pub struct ExGlobSet(GlobSet);

/// Globs that a set is built from.
#[verifier::external_type_specification]
#[verifier::external_body]
pub struct ExGlobSetBuilder(GlobSetBuilder);

/// The patterns of a set, in the order in which they were added.
pub uninterp spec fn set_globs(set: GlobSet) -> Seq<Seq<char>>;

/// The patterns that a builder holds, in the order in which they were added.
pub uninterp spec fn builder_globs(builder: GlobSetBuilder) -> Seq<Seq<char>>;

/// What `globset::Glob::new` objects to in a pattern; `None` where it accepts
/// it.
pub uninterp spec fn glob_fault(pattern: Seq<char>) -> Option<Seq<char>>;

/// What `globset::GlobSetBuilder::build` objects to in patterns that are
/// valid one by one; `None` where it accepts them.
pub uninterp spec fn set_fault(patterns: Seq<Seq<char>>) -> Option<Seq<char>>;

/// Whether a valid pattern matches a path, with `/` between components.
pub uninterp spec fn glob_matches(pattern: Seq<char>, path: Seq<char>) -> bool;

/// Whether one of the patterns matches a path.
pub open spec fn any_glob(patterns: Seq<Seq<char>>, path: Seq<char>) -> bool {
    exists|i: int| 0 <= i < patterns.len() && glob_matches(#[trigger] patterns[i], path)
}

/// Calls `globset::GlobSetBuilder::new`: it holds no pattern.
#[verifier::external_body]
fn new_builder() -> (b: GlobSetBuilder)
    ensures
        builder_globs(b) == Seq::<Seq<char>>::empty(),
{
    GlobSetBuilder::new()
}

/// Calls `globset::Glob::new`, and `globset::GlobSetBuilder::add` on what it
/// returns: a valid pattern comes last in the builder; of one that is not,
/// the error's text is returned.
#[verifier::external_body]
fn add_glob(builder: &mut GlobSetBuilder, pattern: &str) -> (r: Option<String>)
    ensures
        crate::text::opt_text(r) == glob_fault(pattern@),
        builder_globs(*final(builder)) == (if r is Some {
            builder_globs(*old(builder))
        } else {
            builder_globs(*old(builder)).push(pattern@)
        }),
{
    match Glob::new(pattern) {
        Ok(glob) => {
            builder.add(glob);
            None
        }
        Err(e) => Some(e.to_string()),
    }
}

/// Calls `globset::GlobSetBuilder::build`: the set holds the builder's
/// patterns, or the error's text is returned.
#[verifier::external_body]
fn build_set(builder: &GlobSetBuilder) -> (r: Result<GlobSet, String>)
    ensures
        match r {
            Ok(set) => set_fault(builder_globs(*builder)) is None && set_globs(set)
                == builder_globs(*builder),
            Err(e) => set_fault(builder_globs(*builder)) == Some(e@),
        },
{
    builder.build().map_err(|e| e.to_string())
}

/// Calls `globset::GlobSet::is_match`: whether any pattern of the set matches
/// the path. What a pattern matches is not said further.
#[verifier::external_body]
pub(crate) fn set_matches(set: &GlobSet, path: &str) -> (r: bool)
    ensures
        r == (exists|i: int|
            0 <= i && i < set_globs(*set).len() && glob_matches(
                #[trigger] set_globs(*set)[i],
                path@,
            )),
{
    set.is_match(path)
}

/// The first pattern at or after `i` that is not valid, and why.
pub open spec fn bad_glob(patterns: Seq<Seq<char>>, i: int) -> Option<Seq<char>>
    decreases patterns.len() - i,
{
    if i < 0 || i >= patterns.len() {
        None
    } else {
        match glob_fault(patterns[i]) {
            Some(e) => Some(e),
            None => bad_glob(patterns, i + 1),
        }
    }
}

/// Why patterns make no set, if they make none.
pub open spec fn globs_fault(patterns: Seq<Seq<char>>) -> Option<Seq<char>> {
    match bad_glob(patterns, 0) {
        Some(e) => Some("invalid_glob: "@ + e),
        None => set_fault(patterns),
    }
}

/// Builds a set of the patterns.
pub fn build_globset(patterns: &Vec<String>) -> (r: Result<GlobSet, String>)
    ensures
        match r {
            Ok(set) => globs_fault(texts(patterns@)) is None && set_globs(set) == texts(patterns@),
            Err(e) => globs_fault(texts(patterns@)) == Some(e@),
        },
{
    let ghost all = texts(patterns@);
    let mut builder = new_builder();
    let mut i: usize = 0;
    assert(all.take(0) =~= Seq::<Seq<char>>::empty());
    while i < patterns.len()
        invariant
            all == texts(patterns@),
            i <= patterns@.len(),
            builder_globs(builder) == all.take(i as int),
            bad_glob(all, 0) == bad_glob(all, i as int),
        decreases patterns@.len() - i,
    {
        assert(all[i as int] == patterns@[i as int]@);
        match add_glob(&mut builder, patterns[i].as_str()) {
            Some(e) => {
                return Err(cat("invalid_glob: ", e.as_str()));
            },
            None => {},
        }
        assert(all.take(i + 1) =~= all.take(i as int).push(all[i as int]));
        i = i + 1;
    }
    assert(all.take(all.len() as int) =~= all);
    build_set(&builder)
}

// ---------------------------------------------------------------------------
// Laws
// ---------------------------------------------------------------------------

proof fn lemma_bad_glob(patterns: Seq<Seq<char>>, i: int, k: int)
    requires
        0 <= i <= k < patterns.len(),
        glob_fault(patterns[k]) is Some,
        forall|j: int| 0 <= j < k ==> glob_fault(#[trigger] patterns[j]) is None,
    ensures
        bad_glob(patterns, i) == glob_fault(patterns[k]),
    decreases k - i,
{
    if i < k {
        lemma_bad_glob(patterns, i + 1, k);
    }
}

proof fn lemma_sound_globs(patterns: Seq<Seq<char>>, i: int)
    requires
        0 <= i <= patterns.len(),
        forall|j: int| 0 <= j < patterns.len() ==> glob_fault(#[trigger] patterns[j]) is None,
    ensures
        bad_glob(patterns, i) is None,
    decreases patterns.len() - i,
{
    if i < patterns.len() {
        lemma_sound_globs(patterns, i + 1);
    }
}

/// The first pattern that is not valid is the one that is told of.
pub proof fn first_bad_glob_is_told(patterns: Seq<Seq<char>>, k: int)
    requires
        0 <= k < patterns.len(),
        glob_fault(patterns[k]) is Some,
        forall|j: int| 0 <= j < k ==> glob_fault(#[trigger] patterns[j]) is None,
    ensures
        globs_fault(patterns) == Some("invalid_glob: "@ + glob_fault(patterns[k])->0),
{
    lemma_bad_glob(patterns, 0, k);
}

/// Patterns that are valid one by one are refused only as a set.
pub proof fn sound_globs_are_accepted(patterns: Seq<Seq<char>>)
    requires
        forall|j: int| 0 <= j < patterns.len() ==> glob_fault(#[trigger] patterns[j]) is None,
    ensures
        globs_fault(patterns) == set_fault(patterns),
{
    lemma_sound_globs(patterns, 0);
}

} // verus!

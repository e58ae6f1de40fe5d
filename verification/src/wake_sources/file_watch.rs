//! File-watch wake source: fires when a path below the agent's working
//! directory matches the configured globs and none of the ignored ones.

use crate::decimal::{decimal, to_decimal};
use crate::globs::{any_glob, build_globset, globs_fault, set_globs, set_matches};
use crate::paths::{path_below, strip_base};
use crate::text::{own, texts};
use globset::GlobSet;
use vstd::prelude::*;
use vstd::string::*;

verus! {

/// How long changes are gathered after the first, in milliseconds.
pub const DEBOUNCE_MS: u64 = 200;

/// What is watched, and where.
#[derive(Debug)]
pub struct FileWatchConfig {
    pub globs: Vec<String>,
    pub ignore: Vec<String>,
    pub root: String,
}

/// A change that matched.
#[derive(Debug)]
pub struct MatchedChange {
    pub path: String,
}

/// A file-watch source.
pub struct FileWatchSource {
    pub config: FileWatchConfig,
    pub root_canonical: String,
    pub include_set: GlobSet,
    pub ignore_set: GlobSet,
}

/// What a watcher saw happen to files.
#[derive(Clone, Copy, Debug, PartialEq, Eq, Structural)]
pub enum ChangeKind {
    Create,
    Modify,
    Remove,
    Other,
}

/// Whether a path relative to the root counts: ignored globs win.
pub open spec fn counts(globs: Seq<Seq<char>>, ignore: Seq<Seq<char>>, relative: Seq<char>) -> bool {
    !any_glob(ignore, relative) && any_glob(globs, relative)
}

/// Whether a path relative to the root counts, from what the two sets say of
/// it: ignored globs win.
pub fn wanted(ignored: bool, matched: bool) -> (r: bool)
    ensures
        r == (!ignored && matched),
{
    !ignored && matched
}

/// Why a configuration makes no source, if it makes none. `root` is the
/// canonical form of the root, where it is a directory.
pub open spec fn watch_fault(
    root: Option<String>,
    globs: Seq<Seq<char>>,
    ignore: Seq<Seq<char>>,
) -> Option<Seq<char>> {
    if root is None {
        Some("cwd_gone"@)
    } else {
        match globs_fault(globs) {
            Some(e) => Some(e),
            None => globs_fault(ignore),
        }
    }
}

impl FileWatchSource {
    /// What holds of every source: its sets are those of its configuration.
    pub open spec fn wf(&self) -> bool {
        &&& set_globs(self.include_set) == texts(self.config.globs@)
        &&& set_globs(self.ignore_set) == texts(self.config.ignore@)
    }

    /// A source for a configuration. `root_canonical` is the canonical form of
    /// the root, where it is a directory that exists.
    pub fn new(config: FileWatchConfig, root_canonical: Option<String>) -> (r: Result<
        FileWatchSource,
        String,
    >)
        ensures
            ({
                let fault = watch_fault(
                    root_canonical,
                    texts(config.globs@),
                    texts(config.ignore@),
                );
                match r {
                    Ok(s) => fault is None && s.wf() && s.config == config && Some(
                        s.root_canonical,
                    ) == root_canonical,
                    Err(e) => fault == Some(e@),
                }
            }),
    {
        let root_canonical = match root_canonical {
            Some(root) => root,
            None => return Err(own("cwd_gone")),
        };
        let include_set = match build_globset(&config.globs) {
            Ok(set) => set,
            Err(e) => return Err(e),
        };
        let ignore_set = match build_globset(&config.ignore) {
            Ok(set) => set,
            Err(e) => return Err(e),
        };
        Ok(FileWatchSource { config, root_canonical, include_set, ignore_set })
    }

    /// Whether a path counts: it lies below the root, and relative to it no
    /// ignored glob matches and one of the others does.
    pub fn matches(&self, path: &str) -> (r: bool)
        requires
            self.wf(),
        ensures
            r == (path_below(path@, self.root_canonical@) matches Some(relative) && counts(
                texts(self.config.globs@),
                texts(self.config.ignore@),
                relative,
            )),
    {
        match strip_base(path, self.root_canonical.as_str()) {
            None => false,
            Some(relative) => wanted(
                set_matches(&self.ignore_set, relative.as_str()),
                set_matches(&self.include_set, relative.as_str()),
            ),
        }
    }

    /// The changes that count among what a watcher saw: creations,
    /// modifications and removals of paths that match.
    pub fn matched_changes(&self, kind: ChangeKind, paths: &Vec<String>) -> (r: Vec<MatchedChange>)
        requires
            self.wf(),
        ensures
            r@.map_values(|m: MatchedChange| m.path@) == (if kind == ChangeKind::Other {
                Seq::<Seq<char>>::empty()
            } else {
                texts(paths@).filter(
                    |p: Seq<char>|
                        path_below(p, self.root_canonical@) matches Some(relative) && counts(
                            texts(self.config.globs@),
                            texts(self.config.ignore@),
                            relative,
                        ),
                )
            }),
    {
        let mut r: Vec<MatchedChange> = Vec::new();
        let ghost keep = |p: Seq<char>|
            path_below(p, self.root_canonical@) matches Some(relative) && counts(
                texts(self.config.globs@),
                texts(self.config.ignore@),
                relative,
            );
        let ghost all = texts(paths@);
        let ghost path_of = |m: MatchedChange| m.path@;
        assert(r@.map_values(path_of) =~= Seq::<Seq<char>>::empty());
        if kind == ChangeKind::Other {
            return r;
        }
        assert(all.take(0) =~= Seq::<Seq<char>>::empty());
        assert(all.take(0).filter(keep) =~= Seq::<Seq<char>>::empty()) by {
            reveal(Seq::filter);
        }
        let mut i: usize = 0;
        while i < paths.len()
            invariant
                self.wf(),
                i <= paths@.len(),
                all == texts(paths@),
                path_of == (|m: MatchedChange| m.path@),
                keep == (|p: Seq<char>|
                    path_below(p, self.root_canonical@) matches Some(relative) && counts(
                        texts(self.config.globs@),
                        texts(self.config.ignore@),
                        relative,
                    )),
                r@.map_values(path_of) == all.take(i as int).filter(keep),
            decreases paths@.len() - i,
        {
            let ghost before = r@.map_values(path_of);
            proof {
                assert(all[i as int] == paths@[i as int]@);
                assert(all.take(i + 1) =~= all.take(i as int).push(all[i as int]));
                all.take(i as int).lemma_filter_push(all[i as int], keep);
            }
            if self.matches(paths[i].as_str()) {
                let m = MatchedChange { path: paths[i].clone() };
                r.push(m);
                assert(r@.map_values(path_of) =~= before.push(m.path@));
            }
            i = i + 1;
        }
        assert(all.take(all.len() as int) =~= all);
        r
    }
}

/// The body of the mail about `count` changes that were gathered.
pub open spec fn watch_body(count: nat, first_path: Seq<char>) -> Seq<char> {
    "[file-watch] "@ + decimal(count) + " changes; first: "@ + first_path
}

/// The body of the mail about `count` changes that were gathered.
pub fn debounced_body(count: usize, first_path: &str) -> (r: String)
    ensures
        r@ == watch_body(count as nat, first_path@),
{
    let mut r = own("[file-watch] ");
    r.append(to_decimal(count as u64).as_str());
    r.append(" changes; first: ");
    r.append(first_path);
    r
}

/// A path that an ignored glob matches never counts, whatever else matches
/// it.
pub proof fn ignored_paths_never_fire(
    globs: Seq<Seq<char>>,
    ignore: Seq<Seq<char>>,
    relative: Seq<char>,
)
    requires
        any_glob(ignore, relative),
    ensures
        !counts(globs, ignore, relative),
{
}

/// A path that some glob matches and no ignored one does counts, and a path
/// that no glob matches does not.
pub proof fn matching_paths_fire(
    globs: Seq<Seq<char>>,
    ignore: Seq<Seq<char>>,
    relative: Seq<char>,
    k: int,
)
    requires
        0 <= k < globs.len(),
        crate::globs::glob_matches(globs[k], relative),
    ensures
        counts(globs, ignore, relative) <==> (forall|i: int|
            0 <= i < ignore.len() ==> !crate::globs::glob_matches(#[trigger] ignore[i], relative)),
        !counts(Seq::<Seq<char>>::empty(), ignore, relative),
{
}

/// A source needs a root that is there before its globs are looked at; the
/// globs that fire are looked at before those that are ignored.
pub proof fn watches_need_a_root_and_globs(
    root: Option<String>,
    globs: Seq<Seq<char>>,
    ignore: Seq<Seq<char>>,
)
    ensures
        root is None ==> watch_fault(root, globs, ignore) == Some("cwd_gone"@),
        root is Some && globs_fault(globs) is Some ==> watch_fault(root, globs, ignore)
            == globs_fault(globs),
        root is Some && globs_fault(globs) is None ==> watch_fault(root, globs, ignore)
            == globs_fault(ignore),
{
}

/// The mail about changes says how many there were and names the first.
pub proof fn changes_are_counted_in_mail(count: usize, first_path: &str, body: String)
    requires
        call_ensures(debounced_body, (count, first_path), body),
    ensures
        body@ == "[file-watch] "@ + decimal(count as nat) + " changes; first: "@ + first_path@,
{
}

} // verus!

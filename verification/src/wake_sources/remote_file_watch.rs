//! Remote file-watch wake source: the shadow side of a federated workspace.
//! There is no directory to watch; the paths are those that the home daemon
//! reports, relative as it sent them.

use super::file_watch::{counts, wanted};
use crate::globs::{build_globset, globs_fault, set_globs, set_matches};
use crate::text::{own, texts};
use globset::GlobSet;
use vstd::prelude::*;

verus! {

/// What is watched in which shadow workspace.
#[derive(Debug)]
pub struct RemoteFileWatchConfig {
    pub workspace_id: String,
    pub globs: Vec<String>,
    pub ignore: Vec<String>,
}

/// A remote file-watch source.
pub struct RemoteFileWatchSource {
    pub config: RemoteFileWatchConfig,
    pub include_set: GlobSet,
    pub ignore_set: GlobSet,
}

/// Why a configuration makes no source, if it makes none.
pub open spec fn remote_watch_fault(
    workspace_id: Seq<char>,
    globs: Seq<Seq<char>>,
    ignore: Seq<Seq<char>>,
) -> Option<Seq<char>> {
    if workspace_id.len() == 0 {
        Some("workspace_id_required"@)
    } else {
        match globs_fault(globs) {
            Some(e) => Some(e),
            None => globs_fault(ignore),
        }
    }
}

impl RemoteFileWatchSource {
    /// What holds of every source: its sets are those of its configuration.
    pub open spec fn wf(&self) -> bool {
        &&& set_globs(self.include_set) == texts(self.config.globs@)
        &&& set_globs(self.ignore_set) == texts(self.config.ignore@)
    }

    /// A source for a configuration, which must name a workspace.
    pub fn new(config: RemoteFileWatchConfig) -> (r: Result<RemoteFileWatchSource, String>)
        ensures
            ({
                let fault = remote_watch_fault(
                    config.workspace_id@,
                    texts(config.globs@),
                    texts(config.ignore@),
                );
                match r {
                    Ok(s) => fault is None && s.wf() && s.config == config,
                    Err(e) => fault == Some(e@),
                }
            }),
    {
        if config.workspace_id.as_str().is_empty() {
            return Err(own("workspace_id_required"));
        }
        let include_set = match build_globset(&config.globs) {
            Ok(set) => set,
            Err(e) => return Err(e),
        };
        let ignore_set = match build_globset(&config.ignore) {
            Ok(set) => set,
            Err(e) => return Err(e),
        };
        Ok(RemoteFileWatchSource { config, include_set, ignore_set })
    }

    /// Whether a reported path counts: no ignored glob matches it and one of
    /// the others does.
    pub fn matches(&self, rel_path: &str) -> (r: bool)
        requires
            self.wf(),
        ensures
            r == counts(texts(self.config.globs@), texts(self.config.ignore@), rel_path@),
    {
        wanted(
            set_matches(&self.ignore_set, rel_path),
            set_matches(&self.include_set, rel_path),
        )
    }
}

/// A source needs a workspace before its globs are looked at; the globs that
/// fire are looked at before those that are ignored.
pub proof fn remote_watches_need_a_workspace_and_globs(
    workspace_id: Seq<char>,
    globs: Seq<Seq<char>>,
    ignore: Seq<Seq<char>>,
)
    ensures
        workspace_id.len() == 0 ==> remote_watch_fault(workspace_id, globs, ignore) == Some(
            "workspace_id_required"@,
        ),
        workspace_id.len() > 0 && globs_fault(globs) is Some ==> remote_watch_fault(
            workspace_id,
            globs,
            ignore,
        ) == globs_fault(globs),
        workspace_id.len() > 0 && globs_fault(globs) is None ==> remote_watch_fault(
            workspace_id,
            globs,
            ignore,
        ) == globs_fault(ignore),
{
}

/// A reported path fires where a glob matches it and no ignored glob does.
pub proof fn reported_paths_fire(source: RemoteFileWatchSource, path: &str, k: int, r: bool)
    requires
        source.wf(),
        call_ensures(RemoteFileWatchSource::matches, (&source, path), r),
        0 <= k < source.config.globs@.len(),
        crate::globs::glob_matches(source.config.globs@[k]@, path@),
    ensures
        source.config.ignore@.len() == 0 ==> r,
        forall|i: int|
            0 <= i < source.config.ignore@.len() && crate::globs::glob_matches(
                (#[trigger] source.config.ignore@[i])@,
                path@,
            ) ==> !r,
{
    let globs = texts(source.config.globs@);
    let ignore = texts(source.config.ignore@);
    assert(globs[k] == source.config.globs@[k]@);
    assert forall|i: int|
        0 <= i < source.config.ignore@.len() && crate::globs::glob_matches(
            (#[trigger] source.config.ignore@[i])@,
            path@,
        ) implies !r by {
        assert(ignore[i] == source.config.ignore@[i]@);
    }
}

} // verus!

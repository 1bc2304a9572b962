//! The per-entry decision of a walk, shared read-only by all workers.
use vstd::prelude::*;
use crate::exclusion::{excluded, glob_valid, set_builds, texts, ConfigError, ExclusionMatcher};
use crate::extension_filter::{extension_allowed, normalize, ExtensionFilter};

verus! {

/// What a directory entry is.
#[derive(Clone, Copy, PartialEq, Eq, Structural, Debug)]
pub enum EntryKind {
    Dir,
    File,
    Other,
}

/// What a worker does with an entry.
#[derive(Clone, Copy, PartialEq, Eq, Structural, Debug)]
pub enum Step {
    /// The walk was cancelled: stop without visiting anything more.
    Quit,
    /// An excluded directory: skip it and everything below it.
    Prune,
    /// Go on without reporting this entry.
    Pass,
    /// Report this entry.
    Accept,
}

/// Whether an entry is reported: a regular file, not excluded, with an
/// allowed extension.
pub open spec fn reported(
    patterns: Seq<Seq<char>>,
    exts: Set<Seq<char>>,
    path: Seq<char>,
    kind: EntryKind,
) -> bool {
    kind == EntryKind::File && !excluded(patterns, path) && extension_allowed(exts, path)
}

/// The step for one entry.
pub open spec fn step_of(
    patterns: Seq<Seq<char>>,
    exts: Set<Seq<char>>,
    cancelled: bool,
    path: Seq<char>,
    kind: EntryKind,
) -> Step {
    if cancelled {
        Step::Quit
    } else if excluded(patterns, path) {
        if kind == EntryKind::Dir {
            Step::Prune
        } else {
            Step::Pass
        }
    } else if reported(patterns, exts, path, kind) {
        Step::Accept
    } else {
        Step::Pass
    }
}

/// Exclusion patterns and extension allow-list of a walk.
pub struct PathFilter {
    exclusion: ExclusionMatcher,
    extensions: ExtensionFilter,
}

impl PathFilter {
    /// The exclusion patterns, in order.
    pub closed spec fn patterns(&self) -> Seq<Seq<char>> {
        self.exclusion@
    }

    /// The normalized allowed extensions.
    pub closed spec fn extensions(&self) -> Set<Seq<char>> {
        self.extensions@
    }

    pub closed spec fn wf(&self) -> bool {
        self.extensions.wf()
    }

    /// Compiles the patterns and normalizes the extensions; fails when a
    /// pattern is malformed.
    pub fn new(exclusion_patterns: &[String], extensions: &[String]) -> (r: Result<Self, ConfigError>)
        ensures
            (exists|i: int|
                0 <= i < exclusion_patterns@.len() && !glob_valid(
                    #[trigger] exclusion_patterns@[i]@,
                )) <==> r matches Err(ConfigError::InvalidPattern { .. }),
            r matches Err(ConfigError::InvalidPattern { index, pattern, .. }) ==> crate::exclusion::first_invalid(
                exclusion_patterns@,
                index as int,
            ) && pattern@ == exclusion_patterns@[index as int]@,
            (forall|i: int|
                0 <= i < exclusion_patterns@.len() ==> glob_valid(#[trigger] exclusion_patterns@[i]@))
                && set_builds(texts(exclusion_patterns@)) ==> r is Ok,
            r matches Err(ConfigError::BuildFailed { .. }) ==> !set_builds(texts(exclusion_patterns@)),
            r matches Ok(f) ==> f.wf() && f.patterns() == texts(exclusion_patterns@)
                && forall|e: Seq<char>|
                f.extensions().contains(e) <==> exists|i: int|
                    0 <= i < extensions@.len() && e == normalize(#[trigger] extensions@[i]@),
    {
        let exclusion = match ExclusionMatcher::compile(exclusion_patterns) {
            Ok(m) => m,
            Err(e) => {
                return Err(e);
            },
        };
        let extensions = ExtensionFilter::new(extensions);
        Ok(PathFilter { exclusion, extensions })
    }

    /// Whether the path is excluded by some pattern.
    pub fn is_excluded(&self, path: &str) -> (r: bool)
        ensures
            r == excluded(self.patterns(), path@),
    {
        self.exclusion.matches(path)
    }

    /// Whether the path's extension is allowed.
    pub fn extension_ok(&self, path: &str) -> (r: bool)
        requires
            self.wf(),
        ensures
            r == extension_allowed(self.extensions(), path@),
    {
        self.extensions.is_match(path)
    }

    /// Decides what a worker does with an entry: stop when cancelled, then
    /// the exclusion check (pruning directories), the file-type check and
    /// the extension check, in that order.
    pub fn decide(&self, cancelled: bool, path: &str, kind: EntryKind) -> (r: Step)
        requires
            self.wf(),
        ensures
            r == step_of(self.patterns(), self.extensions(), cancelled, path@, kind),
    {
        if cancelled {
            return Step::Quit;
        }
        if self.is_excluded(path) {
            return match kind {
                EntryKind::Dir => Step::Prune,
                _ => Step::Pass,
            };
        }
        match kind {
            EntryKind::File => {},
            _ => {
                return Step::Pass;
            },
        }
        if self.extension_ok(path) {
            Step::Accept
        } else {
            Step::Pass
        }
    }
}

} // verus!

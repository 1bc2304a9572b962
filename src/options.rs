//! A walk request and the plan it resolves to before any worker starts.
use vstd::prelude::*;
use crate::exclusion::{first_invalid, glob_valid, set_builds, texts, ConfigError};
use crate::extension_filter::normalize;
use crate::filter::PathFilter;

verus! {

/// A walk request as the caller gives it; unset fields take their defaults.
pub struct WalkOptions {
    pub paths: Vec<String>,
    pub include_hidden: Option<bool>,
    pub exclusion_patterns: Option<Vec<String>>,
    pub extensions: Option<Vec<String>>,
    pub threads: Option<u32>,
    pub include_metadata: Option<bool>,
}

/// A resolved walk: the roots, the flags with their defaults applied, and
/// the compiled filter.
pub struct WalkPlan {
    pub roots: Vec<String>,
    pub include_hidden: bool,
    /// Worker count; 0 lets the walker choose.
    pub threads: usize,
    pub include_metadata: bool,
    pub filter: PathFilter,
}

/// The strings of an optional list; none when unset.
pub open spec fn list_or_empty(o: Option<Vec<String>>) -> Seq<String> {
    match o {
        Some(v) => v@,
        None => Seq::empty(),
    }
}

/// The value of an optional flag; `false` when unset.
pub open spec fn flag_or_false(o: Option<bool>) -> bool {
    match o {
        Some(b) => b,
        None => false,
    }
}

fn take_list(o: Option<Vec<String>>) -> (r: Vec<String>)
    ensures
        r@ == list_or_empty(o),
{
    match o {
        Some(v) => v,
        None => Vec::new(),
    }
}

fn take_flag(o: Option<bool>) -> (r: bool)
    ensures
        r == flag_or_false(o),
{
    match o {
        Some(b) => b,
        None => false,
    }
}

/// Resolves a request. An empty list of roots gives `Ok(None)`: nothing to
/// walk, no worker to start, and no pattern is compiled. Otherwise a
/// malformed exclusion pattern fails the request before any worker starts.
pub fn plan_walk(options: WalkOptions) -> (r: Result<Option<WalkPlan>, ConfigError>)
    ensures
        options.paths@.len() == 0 ==> r matches Ok(None),
        options.paths@.len() > 0 ==> ((exists|i: int|
            0 <= i < list_or_empty(options.exclusion_patterns).len() && !glob_valid(
                #[trigger] list_or_empty(options.exclusion_patterns)[i]@,
            )) <==> r matches Err(ConfigError::InvalidPattern { .. })),
        r matches Err(ConfigError::InvalidPattern { index, pattern, .. }) ==> first_invalid(
            list_or_empty(options.exclusion_patterns),
            index as int,
        ) && pattern@ == list_or_empty(options.exclusion_patterns)[index as int]@,
        options.paths@.len() > 0 && (forall|i: int|
            0 <= i < list_or_empty(options.exclusion_patterns).len() ==> glob_valid(
                #[trigger] list_or_empty(options.exclusion_patterns)[i]@,
            )) && set_builds(texts(list_or_empty(options.exclusion_patterns))) ==> r matches Ok(Some(_)),
        r matches Err(ConfigError::BuildFailed { .. }) ==> !set_builds(
            texts(list_or_empty(options.exclusion_patterns)),
        ),
        r matches Ok(Some(p)) ==> {
            &&& options.paths@.len() > 0
            &&& p.roots@ == options.paths@
            &&& p.include_hidden == flag_or_false(options.include_hidden)
            &&& p.include_metadata == flag_or_false(options.include_metadata)
            &&& p.threads == match options.threads {
                Some(t) => t as usize,
                None => 0usize,
            }
            &&& p.filter.wf()
            &&& p.filter.patterns() == texts(list_or_empty(options.exclusion_patterns))
            &&& forall|e: Seq<char>|
                p.filter.extensions().contains(e) <==> exists|i: int|
                    0 <= i < list_or_empty(options.extensions).len() && e == normalize(
                        #[trigger] list_or_empty(options.extensions)[i]@,
                    )
        },
{
    if options.paths.len() == 0 {
        return Ok(None);
    }
    let patterns = take_list(options.exclusion_patterns);
    let extensions = take_list(options.extensions);
    let filter = match PathFilter::new(patterns.as_slice(), extensions.as_slice()) {
        Ok(f) => f,
        Err(e) => {
            return Err(e);
        },
    };
    let threads: usize = match options.threads {
        Some(t) => t as usize,
        None => 0,
    };
    Ok(
        Some(
            WalkPlan {
                roots: options.paths,
                include_hidden: take_flag(options.include_hidden),
                threads,
                include_metadata: take_flag(options.include_metadata),
                filter,
            },
        ),
    )
}

} // verus!

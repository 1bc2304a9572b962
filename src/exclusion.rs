//! Case-insensitive glob patterns that exclude paths from a walk.
use vstd::prelude::*;

verus! {

/// `globset::GlobSet`, a compiled set of globs, held opaque.
#[verifier::external_type_specification]
#[verifier::external_body]
pub struct ExGlobSet(globset::GlobSet);

/// `globset::GlobSetBuilder`, the globs added so far, held opaque.
#[verifier::external_type_specification]
#[verifier::external_body]
pub struct ExGlobSetBuilder(globset::GlobSetBuilder);

/// `globset::Error`, why a glob or a set did not build, held opaque.
#[verifier::external_type_specification]
#[verifier::external_body]
pub struct ExGlobError(globset::Error);

/// Whether a pattern compiles as a case-insensitive glob.
pub uninterp spec fn glob_valid(pattern: Seq<char>) -> bool;

/// Whether the case-insensitive glob compiled from `pattern` matches `path`.
pub uninterp spec fn glob_matches(pattern: Seq<char>, path: Seq<char>) -> bool;

/// Whether a set of case-insensitive globs with these patterns, all valid,
/// builds.
pub uninterp spec fn set_builds(patterns: Seq<Seq<char>>) -> bool;

/// The patterns added to a builder, in order.
pub uninterp spec fn builder_patterns(b: globset::GlobSetBuilder) -> Seq<Seq<char>>;

/// The patterns a compiled set was built from, in order.
pub uninterp spec fn set_patterns(s: globset::GlobSet) -> Seq<Seq<char>>;

/// Relies on `GlobSetBuilder::new`: a builder with no patterns.
#[verifier::external_body]
fn new_builder() -> (r: globset::GlobSetBuilder)
    ensures
        builder_patterns(r) == Seq::<Seq<char>>::empty(),
{
    globset::GlobSetBuilder::new()
}

/// Relies on `GlobBuilder::build` (with `case_insensitive(true)`) to compile
/// the pattern, and on `GlobSetBuilder::add` to append it to the builder.
#[verifier::external_body]
fn add_glob(b: &mut globset::GlobSetBuilder, pattern: &str) -> (r: Result<(), globset::Error>)
    ensures
        r is Ok <==> glob_valid(pattern@),
        r is Ok ==> builder_patterns(*final(b)) == builder_patterns(*old(b)).push(pattern@),
        r is Err ==> builder_patterns(*final(b)) == builder_patterns(*old(b)),
{
    let glob = globset::GlobBuilder::new(pattern).case_insensitive(true).build()?;
    b.add(glob);
    Ok(())
}

/// Relies on `GlobSetBuilder::build`: the set matches with the builder's
/// patterns; whether it builds depends on those patterns alone.
#[verifier::external_body]
fn build_set(b: &globset::GlobSetBuilder) -> (r: Result<globset::GlobSet, globset::Error>)
    ensures
        r is Ok <==> set_builds(builder_patterns(*b)),
        r is Ok ==> set_patterns(r->Ok_0) == builder_patterns(*b),
{
    b.build()
}

/// Relies on `GlobSet::is_match`: true iff some glob of the set matches.
#[verifier::external_body]
fn set_is_match(s: &globset::GlobSet, path: &str) -> (r: bool)
    ensures
        r == (exists|i: int| 0 <= i < set_patterns(*s).len() && glob_matches(#[trigger] set_patterns(*s)[i], path@)),
{
    s.is_match(path)
}

/// Relies on the `Display` impl of `globset::Error` for a readable message.
#[verifier::external_body]
fn error_message(e: &globset::Error) -> String {
    e.to_string()
}

/// Whether some pattern of `patterns` matches `path`.
pub open spec fn excluded(patterns: Seq<Seq<char>>, path: Seq<char>) -> bool {
    exists|i: int| 0 <= i < patterns.len() && glob_matches(#[trigger] patterns[i], path)
}

/// The character sequences of a list of strings.
pub open spec fn texts(v: Seq<String>) -> Seq<Seq<char>> {
    v.map_values(|s: String| s@)
}

/// `index` is the position of the first pattern that does not compile.
pub open spec fn first_invalid(patterns: Seq<String>, index: int) -> bool {
    &&& 0 <= index < patterns.len()
    &&& !glob_valid(patterns[index]@)
    &&& forall|j: int| 0 <= j < index ==> glob_valid(#[trigger] patterns[j]@)
}

/// A malformed exclusion configuration.
pub enum ConfigError {
    /// The pattern at `index` does not compile.
    InvalidPattern { index: usize, pattern: String, message: String },
    /// Every pattern compiled but the set could not be assembled.
    BuildFailed { message: String },
}

/// A compiled, immutable set of exclusion patterns.
pub struct ExclusionMatcher {
    set: globset::GlobSet,
}

impl ExclusionMatcher {
    /// The patterns of the matcher, in order.
    pub closed spec fn view(&self) -> Seq<Seq<char>> {
        set_patterns(self.set)
    }

    /// Compiles every pattern case-insensitively. Fails on the first
    /// pattern that does not compile, naming it.
    pub fn compile(patterns: &[String]) -> (r: Result<Self, ConfigError>)
        ensures
            (exists|i: int| 0 <= i < patterns@.len() && !glob_valid(#[trigger] patterns@[i]@))
                <==> r matches Err(ConfigError::InvalidPattern { .. }),
            r matches Err(ConfigError::InvalidPattern { index, pattern, .. }) ==> first_invalid(
                patterns@,
                index as int,
            ) && pattern@ == patterns@[index as int]@,
            (forall|i: int| 0 <= i < patterns@.len() ==> glob_valid(#[trigger] patterns@[i]@))
                && set_builds(texts(patterns@)) ==> r is Ok,
            r matches Err(ConfigError::BuildFailed { .. }) ==> !set_builds(texts(patterns@)),
            r matches Ok(m) ==> m@ == texts(patterns@),
    {
        let mut b = new_builder();
        let mut n: usize = 0;
        while n < patterns.len()
            invariant
                0 <= n <= patterns@.len(),
                builder_patterns(b) == texts(patterns@).subrange(0, n as int),
                forall|j: int| 0 <= j < n ==> glob_valid(#[trigger] patterns@[j]@),
            decreases patterns@.len() - n,
        {
            match add_glob(&mut b, patterns[n].as_str()) {
                Ok(()) => {},
                Err(e) => {
                    return Err(
                        ConfigError::InvalidPattern {
                            index: n,
                            pattern: patterns[n].clone(),
                            message: error_message(&e),
                        },
                    );
                },
            }
            assert(texts(patterns@).subrange(0, n + 1) =~= texts(patterns@).subrange(
                0,
                n as int,
            ).push(patterns@[n as int]@));
            n = n + 1;
        }
        assert(texts(patterns@).subrange(0, n as int) =~= texts(patterns@));
        match build_set(&b) {
            Ok(set) => Ok(ExclusionMatcher { set }),
            Err(e) => Err(ConfigError::BuildFailed { message: error_message(&e) }),
        }
    }

    /// Whether some pattern of the matcher matches `path`.
    pub fn matches(&self, path: &str) -> (r: bool)
        ensures
            r == excluded(self@, path@),
    {
        set_is_match(&self.set, path)
    }
}

} // verus!

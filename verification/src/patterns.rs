//! Sets of glob patterns compiled by `globset`, for the paths the daemon
//! watches.
//!
//! What `globset` takes for a valid pattern and which paths a pattern
//! matches is not restated here: both are named, and the functions below
//! that are marked as trusted state over those names what each call into
//! `globset` does. None of these statements is proved here.

use vstd::prelude::*;
use globset::{Glob, GlobSet, GlobSetBuilder};
use crate::config::{ConfigError, PatternConfig};

verus! {

/// `globset::Glob`, one parsed pattern.
#[verifier::external_type_specification]
#[verifier::external_body]
pub struct ExGlob(Glob);

/// `globset::GlobSetBuilder`, patterns that wait to be compiled.
#[verifier::external_type_specification]
#[verifier::external_body]
pub struct ExGlobSetBuilder(GlobSetBuilder);

/// `globset::GlobSet`, a compiled set of patterns.
#[verifier::external_type_specification]
#[verifier::external_body]
pub struct ExGlobSet(GlobSet);

/// Whether `globset::Glob::new` takes a text for a pattern.
pub uninterp spec fn glob_parses(pattern: Seq<char>) -> bool;

/// The text a pattern was parsed from.
pub uninterp spec fn glob_text(glob: Glob) -> Seq<char>;

/// The texts of the patterns added to a builder, in their order.
pub uninterp spec fn builder_globs(builder: GlobSetBuilder) -> Seq<Seq<char>>;

/// The texts of the patterns a set was compiled from, in their order.
pub uninterp spec fn set_globs(set: GlobSet) -> Seq<Seq<char>>;

/// Whether `globset::GlobSetBuilder::build` compiles patterns with these
/// texts.
pub uninterp spec fn globs_compile(patterns: Seq<Seq<char>>) -> bool;

/// Whether a set compiled from patterns with these texts matches a path,
/// given as bytes that are read as UTF-8 with replacement.
pub uninterp spec fn globs_match(patterns: Seq<Seq<char>>, path: Seq<u8>) -> bool;

/// The text of a pattern, if there is one.
pub open spec fn parsed_text(glob: Option<Glob>) -> Option<Seq<char>> {
    match glob {
        Some(g) => Some(glob_text(g)),
        None => None,
    }
}

/// The texts of a set's patterns, if there is a set.
pub open spec fn compiled_texts(set: Option<GlobSet>) -> Option<Seq<Seq<char>>> {
    match set {
        Some(s) => Some(set_globs(s)),
        None => None,
    }
}

/// No texts.
pub open spec fn no_globs() -> Seq<Seq<char>> {
    Seq::empty()
}

/// The texts of some strings.
pub open spec fn texts(strings: Seq<String>) -> Seq<Seq<char>> {
    Seq::new(strings.len(), |i: int| strings[i]@)
}

/// Trusted: `Glob::new` parses a text into a pattern that keeps the text,
/// or refuses it.
#[verifier::external_body]
pub(crate) fn glob_new(pattern: &str) -> (glob: Option<Glob>)
    ensures
        parsed_text(glob) == if glob_parses(pattern@) {
            Some(pattern@)
        } else {
            None
        },
{
    Glob::new(pattern).ok()
}

/// Trusted: `GlobSetBuilder::new` makes a builder without patterns.
#[verifier::external_body]
pub(crate) fn builder_new() -> (builder: GlobSetBuilder)
    ensures
        builder_globs(builder) == no_globs(),
{
    GlobSetBuilder::new()
}

/// Trusted: `GlobSetBuilder::add` puts a pattern after those added before.
#[verifier::external_body]
pub(crate) fn builder_add(builder: &mut GlobSetBuilder, glob: Glob)
    ensures
        builder_globs(*final(builder)) == builder_globs(*old(builder)).push(glob_text(glob)),
{
    builder.add(glob);
}

/// Trusted: `GlobSetBuilder::build` compiles the patterns added so far into
/// a set of the same patterns, or fails.
#[verifier::external_body]
pub(crate) fn builder_build(builder: &GlobSetBuilder) -> (set: Option<GlobSet>)
    ensures
        compiled_texts(set) == if globs_compile(builder_globs(*builder)) {
            Some(builder_globs(*builder))
        } else {
            None
        },
{
    builder.build().ok()
}

/// Trusted: `GlobSet::is_match` says whether a pattern of the set matches
/// the path; the answer depends on the patterns and the path alone. The
/// path's bytes are read as UTF-8 with replacement.
#[verifier::external_body]
pub(crate) fn set_is_match(set: &GlobSet, path: &[u8]) -> (matched: bool)
    ensures
        matched == globs_match(set_globs(*set), path@),
{
    set.is_match(&*String::from_utf8_lossy(path))
}

/// The inclusion and exclusion patterns of a configuration, compiled.
pub struct CompiledPatterns {
    include_patterns: GlobSet,
    exclude: GlobSet,
}

/// Whether a place is that of the first text that is no pattern.
pub open spec fn is_first_unparsed(patterns: Seq<Seq<char>>, i: int) -> bool {
    &&& 0 <= i < patterns.len()
    &&& !glob_parses(patterns[i])
    &&& forall|k: int| 0 <= k < i ==> glob_parses(#[trigger] patterns[k])
}

/// Whether all texts are patterns.
pub open spec fn all_parse(patterns: Seq<Seq<char>>) -> bool {
    forall|k: int| 0 <= k < patterns.len() ==> glob_parses(#[trigger] patterns[k])
}

/// Adds the patterns to a fresh builder; the place of the first text that
/// is no pattern is the error.
fn fill_builder(patterns: &Vec<String>) -> (filled: Result<GlobSetBuilder, usize>)
    ensures
        filled is Ok <==> all_parse(texts(patterns@)),
        filled matches Ok(b) ==> builder_globs(b) == texts(patterns@),
        filled matches Err(i) ==> is_first_unparsed(texts(patterns@), i as int),
{
    let mut builder = builder_new();
    let mut i: usize = 0;
    while i < patterns.len()
        invariant
            i <= patterns@.len(),
            builder_globs(builder) == texts(patterns@).take(i as int),
            forall|k: int| 0 <= k < i ==> glob_parses(#[trigger] texts(patterns@)[k]),
        decreases patterns@.len() - i,
    {
        match glob_new(patterns[i].as_str()) {
            None => {
                proof {
                    assert(!glob_parses(texts(patterns@)[i as int]));
                }
                return Err(i);
            },
            Some(glob) => {
                builder_add(&mut builder, glob);
                proof {
                    assert(texts(patterns@).take(i + 1) =~= texts(patterns@).take(i as int).push(
                        patterns@[i as int]@,
                    ));
                }
            },
        }
        i = i + 1;
    }
    proof {
        assert(texts(patterns@).take(patterns@.len() as int) =~= texts(patterns@));
    }
    Ok(builder)
}

impl CompiledPatterns {
    /// The texts of the inclusion patterns.
    pub closed spec fn include_globs(&self) -> Seq<Seq<char>> {
        set_globs(self.include_patterns)
    }

    /// The texts of the exclusion patterns.
    pub closed spec fn exclude_globs(&self) -> Seq<Seq<char>> {
        set_globs(self.exclude)
    }

    /// Whether patterns with these texts can be compiled: every text is a
    /// pattern, and both sets compile.
    pub open spec fn texts_compilable(wanted: Seq<Seq<char>>, unwanted: Seq<Seq<char>>) -> bool {
        &&& all_parse(wanted)
        &&& all_parse(unwanted)
        &&& globs_compile(wanted)
        &&& globs_compile(unwanted)
    }

    /// Whether the patterns of a configuration can be compiled.
    pub open spec fn compilable(config: PatternConfig) -> bool {
        CompiledPatterns::texts_compilable(texts(config.include_patterns@), texts(config.exclude@))
    }

    /// Compiles the patterns of a configuration. The error is the first
    /// inclusion text that is no pattern, else the first such exclusion text,
    /// else the set that does not compile.
    pub fn new(config: &PatternConfig) -> (compiled: Result<CompiledPatterns, ConfigError>)
        ensures
            compiled is Ok <==> CompiledPatterns::compilable(*config),
            compiled matches Ok(p) ==> p.include_globs() == texts(config.include_patterns@)
                && p.exclude_globs() == texts(config.exclude@),
            compiled matches Err(e) ==> match e {
                ConfigError::InvalidIncludePattern(i) => is_first_unparsed(
                    texts(config.include_patterns@),
                    i as int,
                ),
                ConfigError::InvalidExcludePattern(i) => all_parse(texts(config.include_patterns@))
                    && is_first_unparsed(texts(config.exclude@), i as int),
                ConfigError::PatternSetFailed => all_parse(texts(config.include_patterns@)) && all_parse(
                    texts(config.exclude@),
                ),
                _ => false,
            },
    {
        let include_builder = match fill_builder(&config.include_patterns) {
            Ok(b) => b,
            Err(i) => {
                return Err(ConfigError::InvalidIncludePattern(i));
            },
        };
        let exclude_builder = match fill_builder(&config.exclude) {
            Ok(b) => b,
            Err(i) => {
                return Err(ConfigError::InvalidExcludePattern(i));
            },
        };
        let include_patterns = match builder_build(&include_builder) {
            Some(set) => set,
            None => {
                return Err(ConfigError::PatternSetFailed);
            },
        };
        let exclude = match builder_build(&exclude_builder) {
            Some(set) => set,
            None => {
                return Err(ConfigError::PatternSetFailed);
            },
        };
        Ok(CompiledPatterns { include_patterns, exclude })
    }

    /// Whether a path is one to watch: an inclusion pattern matches it and no
    /// exclusion pattern does.
    pub open spec fn watches(&self, path: Seq<u8>) -> bool {
        globs_match(self.include_globs(), path) && !globs_match(self.exclude_globs(), path)
    }

    /// Whether a path is one to watch.
    pub fn should_watch(&self, path: &[u8]) -> (watch: bool)
        ensures
            watch == self.watches(path@),
    {
        if !set_is_match(&self.include_patterns, path) {
            return false;
        }
        !set_is_match(&self.exclude, path)
    }
}

} // verus!

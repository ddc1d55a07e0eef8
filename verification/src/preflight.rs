//! Pre-flight validation: the checks the orchestrator runs over sources and
//! destination before any work is submitted, decided over plain facts that
//! the caller gathers from the filesystem.
use vstd::prelude::*;

use crate::config::Config;
use crate::errors::Error;
use crate::samefile::{same_ids, FileIds};

verus! {

/// What the caller learned about one path: whether it exists, what kind of
/// object it is, and its identity. `ids` is meaningful only when the path
/// exists.
#[derive(Clone, Copy, Debug)]
pub struct PathFacts {
    pub exists: bool,
    pub is_dir: bool,
    pub ids: FileIds,
}

/// Why pre-flight validation refused to start, or nothing when it passed.
#[derive(Clone, Copy, Debug, PartialEq, Eq, Structural)]
pub enum Refusal {
    /// No source paths were given.
    NoSources,
    /// Several sources were given but the destination is not a directory.
    ManySourcesNonDirectory,
    /// A source path does not exist.
    SourceMissing,
    /// A source is a directory but recursion was not requested.
    SourceIsDirectory,
    /// A source and the destination resolve to the same file.
    SameFile,
    /// The destination exists, is not a directory, and clobbering is off.
    DestinationExists,
}

/// The first reason to refuse one source, if any: the source must exist, a
/// directory source needs `recursive`, and a source must not be the same
/// file as an existing destination.
pub open spec fn source_refusal_spec(s: PathFacts, dest: PathFacts, recursive: bool) -> Option<
    Refusal,
> {
    if !s.exists {
        Some(Refusal::SourceMissing)
    } else if s.is_dir && !recursive {
        Some(Refusal::SourceIsDirectory)
    } else if dest.exists && same_ids(s.ids, dest.ids) {
        Some(Refusal::SameFile)
    } else {
        None
    }
}

/// The first refusal over the sources in order, if any.
pub open spec fn first_refusal_spec(ss: Seq<PathFacts>, dest: PathFacts, recursive: bool) -> Option<
    Refusal,
>
    decreases ss.len(),
{
    if ss.len() == 0 {
        None
    } else if source_refusal_spec(ss.first(), dest, recursive) is Some {
        source_refusal_spec(ss.first(), dest, recursive)
    } else {
        first_refusal_spec(ss.drop_first(), dest, recursive)
    }
}

/// The outcome of pre-flight validation: the checks in the order the
/// orchestrator applies them.
pub open spec fn preflight_spec(
    ss: Seq<PathFacts>,
    dest: PathFacts,
    no_clobber: bool,
    recursive: bool,
) -> Option<Refusal> {
    if ss.len() == 0 {
        Some(Refusal::NoSources)
    } else if ss.len() > 1 && !dest.is_dir {
        Some(Refusal::ManySourcesNonDirectory)
    } else if first_refusal_spec(ss, dest, recursive) is Some {
        first_refusal_spec(ss, dest, recursive)
    } else if dest.exists && !dest.is_dir && no_clobber {
        Some(Refusal::DestinationExists)
    } else {
        None
    }
}

proof fn lemma_first_refusal_clean(ss: Seq<PathFacts>, dest: PathFacts, recursive: bool)
    requires
        forall|j: int| 0 <= j < ss.len() ==> source_refusal_spec(#[trigger] ss[j], dest, recursive)
            is None,
    ensures
        first_refusal_spec(ss, dest, recursive) is None,
    decreases ss.len(),
{
    if ss.len() > 0 {
        assert(forall|j: int| 0 <= j < ss.drop_first().len() ==> source_refusal_spec(
            #[trigger] ss.drop_first()[j],
            dest,
            recursive,
        ) is None);
        lemma_first_refusal_clean(ss.drop_first(), dest, recursive);
    }
}

proof fn lemma_first_refusal_hit(ss: Seq<PathFacts>, dest: PathFacts, recursive: bool, i: int)
    requires
        0 <= i < ss.len(),
        forall|j: int| 0 <= j < i ==> source_refusal_spec(#[trigger] ss[j], dest, recursive)
            is None,
        source_refusal_spec(ss[i], dest, recursive) is Some,
    ensures
        first_refusal_spec(ss, dest, recursive) == source_refusal_spec(ss[i], dest, recursive),
    decreases i,
{
    if i > 0 {
        assert(forall|j: int| 0 <= j < i - 1 ==> source_refusal_spec(
            #[trigger] ss.drop_first()[j],
            dest,
            recursive,
        ) is None);
        assert(ss.drop_first()[i - 1] == ss[i]);
        lemma_first_refusal_hit(ss.drop_first(), dest, recursive, i - 1);
    }
}

/// Decide one source against the destination.
fn source_refusal(s: &PathFacts, dest: &PathFacts, recursive: bool) -> (r: Option<Refusal>)
    ensures
        r == source_refusal_spec(*s, *dest, recursive),
{
    if !s.exists {
        Some(Refusal::SourceMissing)
    } else if s.is_dir && !recursive {
        Some(Refusal::SourceIsDirectory)
    } else if dest.exists && s.ids.dev == dest.ids.dev && s.ids.ino == dest.ids.ino {
        Some(Refusal::SameFile)
    } else {
        None
    }
}

/// Run every pre-flight check and report the first refusal, or nothing when
/// the copy may start.
pub fn preflight_check(sources: &Vec<PathFacts>, dest: &PathFacts, config: &Config) -> (r: Option<
    Refusal,
>)
    ensures
        r == preflight_spec(sources@, *dest, config.no_clobber, config.recursive),
{
    if sources.len() == 0 {
        return Some(Refusal::NoSources);
    }
    if sources.len() > 1 && !dest.is_dir {
        return Some(Refusal::ManySourcesNonDirectory);
    }
    let n = sources.len();
    for i in 0..n
        invariant
            n == sources@.len(),
            n >= 1,
            n > 1 ==> dest.is_dir,
            forall|j: int| 0 <= j < i ==> source_refusal_spec(
                #[trigger] sources@[j],
                *dest,
                config.recursive,
            ) is None,
    {
        match source_refusal(&sources[i], dest, config.recursive) {
            Some(refusal) => {
                proof {
                    lemma_first_refusal_hit(sources@, *dest, config.recursive, i as int);
                }
                return Some(refusal);
            },
            None => {},
        }
    }
    proof {
        lemma_first_refusal_clean(sources@, *dest, config.recursive);
    }
    if dest.exists && !dest.is_dir && config.no_clobber {
        return Some(Refusal::DestinationExists);
    }
    None
}

/// The error that one refusal surfaces as: argument problems are
/// `InvalidArguments`, source problems `InvalidSource`, destination conflicts
/// `InvalidDestination`, each with its fixed message.
pub fn refusal_error(r: Refusal) -> (e: Error)
    ensures
        r == Refusal::NoSources ==> e == Error::InvalidArguments("no source files found"),
        r == Refusal::ManySourcesNonDirectory ==> e == Error::InvalidDestination(
            "multiple sources and destination is not a directory",
        ),
        r == Refusal::SourceMissing ==> e == Error::InvalidSource("source does not exist"),
        r == Refusal::SourceIsDirectory ==> e == Error::InvalidSource(
            "source is a directory and recursive not specified",
        ),
        r == Refusal::SameFile ==> e == Error::InvalidDestination(
            "source and destination are the same file",
        ),
        r == Refusal::DestinationExists ==> e == Error::InvalidDestination(
            "destination file exists and no-clobber is set",
        ),
{
    match r {
        Refusal::NoSources => Error::InvalidArguments("no source files found"),
        Refusal::ManySourcesNonDirectory => Error::InvalidDestination(
            "multiple sources and destination is not a directory",
        ),
        Refusal::SourceMissing => Error::InvalidSource("source does not exist"),
        Refusal::SourceIsDirectory => Error::InvalidSource(
            "source is a directory and recursive not specified",
        ),
        Refusal::SameFile => Error::InvalidDestination("source and destination are the same file"),
        Refusal::DestinationExists => Error::InvalidDestination(
            "destination file exists and no-clobber is set",
        ),
    }
}

/// Validate sources and destination, surfacing the first refusal as the
/// error the orchestrator reports. Success is owed exactly when no check
/// refuses.
pub fn preflight(sources: &Vec<PathFacts>, dest: &PathFacts, config: &Config) -> (r: Result<
    (),
    Error,
>)
    ensures
        r.is_ok() <==> preflight_spec(sources@, *dest, config.no_clobber, config.recursive)
            is None,
        preflight_spec(sources@, *dest, config.no_clobber, config.recursive) == Some(
            Refusal::NoSources,
        ) ==> r matches Err(Error::InvalidArguments(_)),
        (preflight_spec(sources@, *dest, config.no_clobber, config.recursive) == Some(
            Refusal::SourceMissing,
        ) || preflight_spec(sources@, *dest, config.no_clobber, config.recursive) == Some(
            Refusal::SourceIsDirectory,
        )) ==> r matches Err(Error::InvalidSource(_)),
        (preflight_spec(sources@, *dest, config.no_clobber, config.recursive) == Some(
            Refusal::ManySourcesNonDirectory,
        ) || preflight_spec(sources@, *dest, config.no_clobber, config.recursive) == Some(
            Refusal::SameFile,
        ) || preflight_spec(sources@, *dest, config.no_clobber, config.recursive) == Some(
            Refusal::DestinationExists,
        )) ==> r matches Err(Error::InvalidDestination(_)),
{
    match preflight_check(sources, dest, config) {
        Some(refusal) => Err(refusal_error(refusal)),
        None => Ok(()),
    }
}

} // verus!

//! One run: resolving the requested inputs, loading what was read of them,
//! and rendering the envelope.
use vstd::prelude::*;
use crate::comment::opt_view;
use crate::envelope::{envelope, inputs_view, render_envelope};
use crate::load::{fetched_view, load_input, load_result, InputReadFailure, ResolvedInput};
use crate::resolve::{resolve, resolve_inputs, sources_view, views_of};

verus! {

/// Loads the first `n` of `sources` from what was read of them: every
/// loaded input, or the failure of the first input whose read failed.
pub open spec fn load_prefix(
    sources: Seq<Option<Seq<char>>>,
    fetched: Seq<Result<Seq<u8>, Seq<char>>>,
    n: nat,
) -> Result<Seq<(Seq<char>, Seq<char>)>, (Seq<char>, Seq<char>)>
    decreases n,
{
    if n == 0 {
        Ok(Seq::empty())
    } else {
        match load_prefix(sources, fetched, (n - 1) as nat) {
            Err(e) => Err(e),
            Ok(done) => match load_result(sources[n - 1], fetched[n - 1]) {
                Ok(x) => Ok(done.push(x)),
                Err(e) => Err(e),
            },
        }
    }
}

/// The outcome of a run over the requested identifiers `files`, where
/// `fetched` holds what reading each resolved input gave, in order: the
/// envelope, or the failure of the first input that could not be read.
pub open spec fn run(
    files: Seq<Seq<char>>,
    tag: Seq<char>,
    comment_prefix: Option<Seq<char>>,
    fetched: Seq<Result<Seq<u8>, Seq<char>>>,
) -> Result<Seq<char>, (Seq<char>, Seq<char>)> {
    let sources = resolve(files);
    match load_prefix(sources, fetched, sources.len()) {
        Ok(inputs) => Ok(envelope(tag, inputs, comment_prefix)),
        Err(e) => Err(e),
    }
}

/// The views of what reading each input gave.
pub open spec fn fetched_views(fetched: Seq<Result<Vec<u8>, String>>) -> Seq<
    Result<Seq<u8>, Seq<char>>,
> {
    fetched.map_values(|f: Result<Vec<u8>, String>| fetched_view(f))
}

/// A run is a function of its requested identifiers, its options and what
/// was read: two runs that agree on these give the same envelope, or the
/// same failure.
pub proof fn lemma_run_deterministic(
    files: Seq<Seq<char>>,
    tag: Seq<char>,
    comment_prefix: Option<Seq<char>>,
    fetched: Seq<Result<Seq<u8>, Seq<char>>>,
    files2: Seq<Seq<char>>,
    tag2: Seq<char>,
    comment_prefix2: Option<Seq<char>>,
    fetched2: Seq<Result<Seq<u8>, Seq<char>>>,
)
    requires
        files2 == files,
        tag2 == tag,
        comment_prefix2 == comment_prefix,
        fetched2 == fetched,
    ensures
        run(files, tag, comment_prefix, fetched) == run(files2, tag2, comment_prefix2, fetched2),
{
}

proof fn lemma_prefix_fails(
    sources: Seq<Option<Seq<char>>>,
    fetched: Seq<Result<Seq<u8>, Seq<char>>>,
    n: nat,
    i: int,
)
    requires
        0 <= i < n,
        fetched[i] is Err,
    ensures
        load_prefix(sources, fetched, n) is Err,
    decreases n,
{
    if i < n - 1 {
        lemma_prefix_fails(sources, fetched, (n - 1) as nat, i);
    }
}

proof fn lemma_failure_persists(
    sources: Seq<Option<Seq<char>>>,
    fetched: Seq<Result<Seq<u8>, Seq<char>>>,
    k: nat,
    n: nat,
)
    requires
        k <= n,
        load_prefix(sources, fetched, k) is Err,
    ensures
        load_prefix(sources, fetched, n) == load_prefix(sources, fetched, k),
    decreases n,
{
    if k < n {
        lemma_failure_persists(sources, fetched, k, (n - 1) as nat);
    }
}

/// When any input cannot be read, the run fails and renders nothing.
pub proof fn lemma_unreadable_input_fails(
    files: Seq<Seq<char>>,
    tag: Seq<char>,
    comment_prefix: Option<Seq<char>>,
    fetched: Seq<Result<Seq<u8>, Seq<char>>>,
    i: int,
)
    requires
        fetched.len() == resolve(files).len(),
        0 <= i < fetched.len(),
        fetched[i] is Err,
    ensures
        run(files, tag, comment_prefix, fetched) is Err,
{
    lemma_prefix_fails(resolve(files), fetched, resolve(files).len(), i);
}

/// Runs the whole pipeline for the requested identifiers `files` under the
/// container tag `container`. `fetched` holds, for each input that
/// `resolve_inputs(files)` lists and in that order, the bytes read from it
/// or the cause of the read failure. Returns the envelope, or the failure of
/// the first input that could not be read, in which case nothing is
/// rendered.
pub fn process_input(
    files: &[String],
    container: &str,
    comment_prefix: Option<&str>,
    fetched: &[Result<Vec<u8>, String>],
) -> (r: Result<String, InputReadFailure>)
    requires
        fetched@.len() == resolve(views_of(files@)).len(),
    ensures
        match r {
            Ok(s) => run(
                views_of(files@),
                container@,
                opt_view(comment_prefix),
                fetched_views(fetched@),
            ) == Ok::<Seq<char>, (Seq<char>, Seq<char>)>(s@),
            Err(e) => run(
                views_of(files@),
                container@,
                opt_view(comment_prefix),
                fetched_views(fetched@),
            ) == Err::<Seq<char>, (Seq<char>, Seq<char>)>(e@),
        },
{
    let sources = resolve_inputs(files);
    let ghost srcs = sources_view(sources@);
    let ghost fv = fetched_views(fetched@);
    let mut loaded: Vec<ResolvedInput> = Vec::new();
    let mut i: usize = 0;
    assert(inputs_view(loaded@) =~= Seq::<(Seq<char>, Seq<char>)>::empty());
    while i < sources.len()
        invariant
            srcs == sources_view(sources@),
            srcs == resolve(views_of(files@)),
            fv == fetched_views(fetched@),
            sources@.len() == fetched@.len(),
            i <= sources@.len(),
            load_prefix(srcs, fv, i as nat) == Ok::<
                Seq<(Seq<char>, Seq<char>)>,
                (Seq<char>, Seq<char>),
            >(inputs_view(loaded@)),
        decreases sources.len() - i,
    {
        let one = load_input(&sources[i], &fetched[i]);
        proof {
            assert(srcs[i as int] == sources@[i as int]@);
            assert(fv[i as int] == fetched_view(fetched@[i as int]));
        }
        match one {
            Ok(x) => {
                let ghost before = loaded@;
                loaded.push(x);
                proof {
                    assert(inputs_view(loaded@) =~= inputs_view(before).push(x@));
                }
            },
            Err(e) => {
                proof {
                    assert(load_result(srcs[i as int], fv[i as int]) == Err::<
                        (Seq<char>, Seq<char>),
                        (Seq<char>, Seq<char>),
                    >(e@));
                    assert(load_prefix(srcs, fv, (i + 1) as nat) == Err::<
                        Seq<(Seq<char>, Seq<char>)>,
                        (Seq<char>, Seq<char>),
                    >(e@));
                    lemma_failure_persists(srcs, fv, (i + 1) as nat, srcs.len());
                }
                return Err(e);
            },
        }
        i = i + 1;
    }
    Ok(render_envelope(container, comment_prefix, loaded.as_slice()))
}

} // verus!

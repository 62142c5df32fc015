//! Turning the requested identifiers into the ordered list of inputs to load.
use vstd::prelude::*;

verus! {

/// One input to load: standard input, or a file named by its path.
#[derive(Debug)]
pub enum Source {
    Stdin,
    File(String),
}

impl View for Source {
    /// `None` for standard input, else the path.
    type V = Option<Seq<char>>;

    open spec fn view(&self) -> Option<Seq<char>> {
        match self {
            Source::Stdin => None,
            Source::File(p) => Some(p@),
        }
    }
}

/// The reserved identifier that asks for standard input.
pub open spec fn is_sentinel(id: Seq<char>) -> bool {
    id == seq!['-']
}

/// What one requested identifier asks for.
pub open spec fn source_of(id: Seq<char>) -> Option<Seq<char>> {
    if is_sentinel(id) {
        None
    } else {
        Some(id)
    }
}

/// The inputs asked for, in order and with repeats: standard input alone
/// when nothing is requested.
pub open spec fn requested(ids: Seq<Seq<char>>) -> Seq<Option<Seq<char>>> {
    if ids.len() == 0 {
        seq![None]
    } else {
        ids.map_values(|id: Seq<char>| source_of(id))
    }
}

/// The first occurrence of each element of `s`, in the order of `s`.
pub open spec fn first_occurrences<A>(s: Seq<A>) -> Seq<A>
    decreases s.len(),
{
    if s.len() == 0 {
        Seq::empty()
    } else if s.drop_last().contains(s.last()) {
        first_occurrences(s.drop_last())
    } else {
        first_occurrences(s.drop_last()).push(s.last())
    }
}

/// The inputs to load for the requested identifiers `ids`.
pub open spec fn resolve(ids: Seq<Seq<char>>) -> Seq<Option<Seq<char>>> {
    first_occurrences(requested(ids))
}

/// The views of a sequence of strings.
pub open spec fn views_of(files: Seq<String>) -> Seq<Seq<char>> {
    files.map_values(|f: String| f@)
}

/// The views of a sequence of sources.
pub open spec fn sources_view(sources: Seq<Source>) -> Seq<Option<Seq<char>>> {
    sources.map_values(|s: Source| s@)
}

/// An element occurs among the first occurrences exactly when it occurs.
pub proof fn lemma_first_occurrences_contains<A>(s: Seq<A>, x: A)
    ensures
        first_occurrences(s).contains(x) <==> s.contains(x),
    decreases s.len(),
{
    if s.len() > 0 {
        lemma_first_occurrences_contains(s.drop_last(), x);
        let p = first_occurrences(s.drop_last());
        if s.drop_last().contains(s.last()) {
            if s.contains(x) {
                let k = choose|k: int| 0 <= k < s.len() && s[k] == x;
                if k < s.len() - 1 {
                    assert(s.drop_last()[k] == x);
                } else {
                    assert(s.drop_last().contains(x));
                }
            }
            if s.drop_last().contains(x) {
                let k = choose|k: int| 0 <= k < s.len() - 1 && s.drop_last()[k] == x;
                assert(s[k] == x);
            }
        } else {
            if s.contains(x) && x != s.last() {
                let k = choose|k: int| 0 <= k < s.len() && s[k] == x;
                assert(s.drop_last()[k] == x);
            }
            if s.drop_last().contains(x) {
                let k = choose|k: int| 0 <= k < s.len() - 1 && s.drop_last()[k] == x;
                assert(s[k] == x);
            }
            if p.push(s.last()).contains(x) && x != s.last() {
                let k = choose|k: int| 0 <= k < p.len() + 1 && p.push(s.last())[k] == x;
                assert(p[k] == x);
            }
            if p.contains(x) {
                let k = choose|k: int| 0 <= k < p.len() && p[k] == x;
                assert(p.push(s.last())[k] == x);
            }
            assert(p.push(s.last())[p.len() as int] == s.last());
            assert(s[s.len() - 1] == s.last());
        }
    }
}

/// No element occurs twice among the first occurrences.
pub proof fn lemma_first_occurrences_distinct<A>(s: Seq<A>)
    ensures
        first_occurrences(s).no_duplicates(),
    decreases s.len(),
{
    if s.len() > 0 {
        lemma_first_occurrences_distinct(s.drop_last());
        lemma_first_occurrences_contains(s.drop_last(), s.last());
        let p = first_occurrences(s.drop_last());
        if !s.drop_last().contains(s.last()) {
            let q = p.push(s.last());
            assert forall|i: int, j: int| 0 <= i < q.len() && 0 <= j < q.len() && i != j
                implies q[i] != q[j] by {
                if i < p.len() && j < p.len() {
                } else if i < p.len() {
                    assert(p.contains(p[i]));
                } else {
                    assert(p.contains(p[j]));
                }
            }
        }
    }
}

/// Repeating an identifier that was already requested changes nothing.
pub proof fn lemma_repeat_has_no_effect(ids: Seq<Seq<char>>, id: Seq<char>)
    requires
        ids.contains(id),
    ensures
        resolve(ids.push(id)) == resolve(ids),
{
    let req = requested(ids.push(id));
    let k = choose|k: int| 0 <= k < ids.len() && ids[k] == id;
    assert(req.drop_last() =~= requested(ids));
    assert(req.drop_last()[k] == req.last());
}

/// Of the files `[a, a, b]`, `a` is loaded once, where it was first
/// requested, and `b` after it.
pub proof fn lemma_duplicate_loaded_once(a: Seq<char>, b: Seq<char>)
    requires
        a != b,
        !is_sentinel(a),
        !is_sentinel(b),
    ensures
        resolve(seq![a, a, b]) == seq![Some(a), Some(b)],
{
    let req = requested(seq![a, a, b]);
    assert(req =~= seq![Some(a), Some(a), Some(b)]);
    let p1 = req.drop_last().drop_last();
    assert(p1 =~= seq![Some(a)]);
    assert(p1.drop_last() =~= Seq::<Option<Seq<char>>>::empty());
    assert(first_occurrences(p1.drop_last()) =~= Seq::<Option<Seq<char>>>::empty());
    assert(!p1.drop_last().contains(p1.last()));
    assert(first_occurrences(p1) =~= seq![Some(a)]);
    assert(req.drop_last().drop_last().contains(Some(a))) by {
        assert(p1[0] == Some(a));
    }
    assert(first_occurrences(req.drop_last()) =~= seq![Some(a)]);
    assert(!req.drop_last().contains(Some(b)));
    assert(resolve(seq![a, a, b]) =~= seq![Some(a), Some(b)]);
}

/// Whether `id` is the reserved identifier for standard input.
fn is_stdin_marker(id: &String) -> (r: bool)
    ensures
        r == is_sentinel(id@),
{
    let s = id.as_str();
    if s.unicode_len() != 1 {
        return false;
    }
    let c = s.get_char(0);
    assert(c == '-' ==> s@ =~= seq!['-']);
    c == '-'
}

/// Whether two sources name the same input.
fn same_source(a: &Source, b: &Source) -> (r: bool)
    ensures
        r == (a@ == b@),
{
    match (a, b) {
        (Source::Stdin, Source::Stdin) => true,
        (Source::File(p), Source::File(q)) => p.eq(q),
        _ => false,
    }
}

/// Whether `sources` already holds `s`.
fn holds_source(sources: &Vec<Source>, s: &Source) -> (r: bool)
    ensures
        r == sources_view(sources@).contains(s@),
{
    let mut i: usize = 0;
    while i < sources.len()
        invariant
            i <= sources@.len(),
            forall|j: int| 0 <= j < i ==> sources@[j]@ != s@,
        decreases sources.len() - i,
    {
        if same_source(&sources[i], s) {
            assert(sources_view(sources@)[i as int] == s@);
            return true;
        }
        i = i + 1;
    }
    proof {
        if sources_view(sources@).contains(s@) {
            let k = choose|k: int|
                0 <= k < sources_view(sources@).len() && sources_view(sources@)[k] == s@;
            assert(sources@[k]@ == s@);
        }
    }
    false
}

/// Returns the inputs to load for the requested identifiers `files`, in the
/// order of their first request, each once. The identifier `-` stands for
/// standard input, which is also the one input when nothing is requested.
pub fn resolve_inputs(files: &[String]) -> (r: Vec<Source>)
    ensures
        sources_view(r@) == resolve(views_of(files@)),
        sources_view(r@).no_duplicates(),
{
    let ghost ids = views_of(files@);
    let ghost req = requested(ids);
    let mut out: Vec<Source> = Vec::new();
    if files.len() == 0 {
        out.push(Source::Stdin);
        proof {
            assert(req.drop_last() =~= Seq::<Option<Seq<char>>>::empty());
            assert(first_occurrences(req.drop_last()) =~= Seq::<Option<Seq<char>>>::empty());
            assert(sources_view(out@) =~= resolve(ids));
            lemma_first_occurrences_distinct(req);
        }
        return out;
    }
    let mut i: usize = 0;
    while i < files.len()
        invariant
            ids == views_of(files@),
            req == requested(ids),
            files@.len() > 0,
            req.len() == files@.len(),
            i <= files@.len(),
            sources_view(out@) == first_occurrences(req.take(i as int)),
        decreases files.len() - i,
    {
        let s = if is_stdin_marker(&files[i]) {
            Source::Stdin
        } else {
            Source::File(files[i].clone())
        };
        proof {
            assert(req[i as int] == source_of(ids[i as int]));
            assert(s@ == req[i as int]);
            assert(req.take(i + 1).drop_last() =~= req.take(i as int));
            lemma_first_occurrences_contains(req.take(i as int), s@);
        }
        if !holds_source(&out, &s) {
            out.push(s);
            proof {
                assert(sources_view(out@) =~= first_occurrences(req.take(i as int)).push(
                    req[i as int],
                ));
            }
        }
        i = i + 1;
    }
    proof {
        assert(req.take(files@.len() as int) =~= req);
        lemma_first_occurrences_distinct(req);
    }
    out
}

} // verus!

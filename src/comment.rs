//! Choice of the line-comment marker that heads each input.
use vstd::prelude::*;

verus! {

/// Index of the last `.` in `name`, or -1 when there is none.
pub open spec fn last_dot(name: Seq<char>) -> int
    decreases name.len(),
{
    if name.len() == 0 {
        -1
    } else if name.last() == '.' {
        name.len() - 1
    } else {
        last_dot(name.drop_last())
    }
}

/// The text after the final `.` of `name`; empty when `name` has no `.`.
pub open spec fn suffix_of(name: Seq<char>) -> Seq<char> {
    if last_dot(name) < 0 {
        Seq::empty()
    } else {
        name.subrange(last_dot(name) + 1, name.len() as int)
    }
}

/// The marker that the suffix of `label` selects.
pub open spec fn marker_for_suffix(suffix: Seq<char>) -> Seq<char> {
    if suffix == seq!['p', 'y'] || suffix == seq!['r', 'b'] {
        seq!['#']
    } else if suffix == seq!['s', 'q', 'l'] {
        seq!['-', '-']
    } else {
        seq!['/', '/']
    }
}

/// The marker for an input labelled `label`: the override when one is given,
/// else the one its suffix selects.
pub open spec fn marker_for(label: Seq<char>, comment_prefix: Option<Seq<char>>) -> Seq<char> {
    match comment_prefix {
        Some(m) => m,
        None => marker_for_suffix(suffix_of(label)),
    }
}

/// The view of an optional string slice.
pub open spec fn opt_view(o: Option<&str>) -> Option<Seq<char>> {
    match o {
        Some(s) => Some(s@),
        None => None,
    }
}

proof fn lemma_last_dot_bounds(name: Seq<char>)
    ensures
        -1 <= last_dot(name) < name.len(),
        last_dot(name) >= 0 ==> name[last_dot(name)] == '.',
    decreases name.len(),
{
    if name.len() > 0 && name.last() != '.' {
        lemma_last_dot_bounds(name.drop_last());
    }
}

/// Returns the file-name suffix of `filename`: the text after its last `.`,
/// or an empty string when it has none.
pub fn get_filetype_suffix(filename: &str) -> (r: String)
    ensures
        r@ == suffix_of(filename@),
{
    let n = filename.unicode_len();
    let mut found = false;
    let mut start: usize = 0;
    let mut i: usize = 0;
    while i < n
        invariant
            n == filename@.len(),
            i <= n,
            found == (last_dot(filename@.take(i as int)) >= 0),
            found ==> start == last_dot(filename@.take(i as int)) + 1,
            start <= i,
        decreases n - i,
    {
        let c = filename.get_char(i);
        proof {
            assert(filename@.take(i + 1).drop_last() =~= filename@.take(i as int));
        }
        if c == '.' {
            found = true;
            start = i + 1;
        }
        i = i + 1;
    }
    assert(filename@.take(n as int) =~= filename@);
    proof {
        lemma_last_dot_bounds(filename@);
    }
    if found {
        String::from_str(filename.substring_char(start, n))
    } else {
        String::new()
    }
}

/// Whether `s` holds exactly the characters of `word`.
fn same_text(s: &str, word: &str) -> (r: bool)
    ensures
        r == (s@ == word@),
{
    let n = s.unicode_len();
    if n != word.unicode_len() {
        return false;
    }
    let mut i: usize = 0;
    while i < n
        invariant
            n == s@.len(),
            n == word@.len(),
            i <= n,
            forall|j: int| 0 <= j < i ==> s@[j] == word@[j],
        decreases n - i,
    {
        if s.get_char(i) != word.get_char(i) {
            return false;
        }
        i = i + 1;
    }
    assert(s@ =~= word@);
    true
}

/// Returns the marker that the suffix of `label` selects: `#` for `py`
/// and `rb`, `--` for `sql`, and `//` for any other suffix or none.
fn suffix_marker(label: &str) -> (r: String)
    ensures
        r@ == marker_for_suffix(suffix_of(label@)),
{
    let suffix = get_filetype_suffix(label);
    proof {
        reveal_strlit("py");
        reveal_strlit("rb");
        reveal_strlit("sql");
        reveal_strlit("#");
        reveal_strlit("--");
        reveal_strlit("//");
        assert("py"@ =~= seq!['p', 'y']);
        assert("rb"@ =~= seq!['r', 'b']);
        assert("sql"@ =~= seq!['s', 'q', 'l']);
        assert("#"@ =~= seq!['#']);
        assert("--"@ =~= seq!['-', '-']);
        assert("//"@ =~= seq!['/', '/']);
    }
    if same_text(suffix.as_str(), "py") || same_text(suffix.as_str(), "rb") {
        String::from_str("#")
    } else if same_text(suffix.as_str(), "sql") {
        String::from_str("--")
    } else {
        String::from_str("//")
    }
}

/// Returns the line-comment marker for an input labelled `label`: the
/// override verbatim when given, else the one its suffix selects.
pub fn comment_marker(label: &str, comment_prefix: Option<&str>) -> (r: String)
    ensures
        r@ == marker_for(label@, opt_view(comment_prefix)),
{
    match comment_prefix {
        Some(m) => m.to_owned(),
        None => suffix_marker(label),
    }
}

} // verus!

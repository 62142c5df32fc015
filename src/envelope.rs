//! Writing the loaded inputs out as one tagged envelope.
use vstd::prelude::*;
use crate::comment::{comment_marker, marker_for, opt_view};
use crate::load::ResolvedInput;

verus! {

/// The opening line `<tag>`.
pub open spec fn open_tag(tag: Seq<char>) -> Seq<char> {
    seq!['<'] + tag + seq!['>', '\n']
}

/// The closing line `</tag>`.
pub open spec fn close_tag(tag: Seq<char>) -> Seq<char> {
    seq!['<', '/'] + tag + seq!['>', '\n']
}

/// One input's block: the header line `marker label`, then its text as is.
pub open spec fn block(input: (Seq<char>, Seq<char>), comment_prefix: Option<Seq<char>>) -> Seq<
    char,
> {
    marker_for(input.0, comment_prefix) + seq![' '] + input.0 + seq!['\n'] + input.1
}

/// The blocks of `inputs` in order, with one blank line between two blocks.
pub open spec fn body(
    inputs: Seq<(Seq<char>, Seq<char>)>,
    comment_prefix: Option<Seq<char>>,
) -> Seq<char>
    decreases inputs.len(),
{
    if inputs.len() == 0 {
        Seq::empty()
    } else if inputs.len() == 1 {
        block(inputs[0], comment_prefix)
    } else {
        body(inputs.drop_last(), comment_prefix) + seq!['\n'] + block(
            inputs.last(),
            comment_prefix,
        )
    }
}

/// The whole envelope of `inputs` under the container tag `tag`.
pub open spec fn envelope(
    tag: Seq<char>,
    inputs: Seq<(Seq<char>, Seq<char>)>,
    comment_prefix: Option<Seq<char>>,
) -> Seq<char> {
    open_tag(tag) + body(inputs, comment_prefix) + close_tag(tag)
}

/// The views of a sequence of loaded inputs.
pub open spec fn inputs_view(inputs: Seq<ResolvedInput>) -> Seq<(Seq<char>, Seq<char>)> {
    inputs.map_values(|x: ResolvedInput| x@)
}

/// Two inputs are set apart by exactly one blank line, and the second
/// input's text runs straight into the closing line.
pub proof fn lemma_two_inputs_separated(
    tag: Seq<char>,
    first: (Seq<char>, Seq<char>),
    second: (Seq<char>, Seq<char>),
    comment_prefix: Option<Seq<char>>,
)
    ensures
        envelope(tag, seq![first, second], comment_prefix) == open_tag(tag) + block(
            first,
            comment_prefix,
        ) + seq!['\n'] + block(second, comment_prefix) + close_tag(tag),
{
    let s = seq![first, second];
    assert(s.drop_last() =~= seq![first]);
    assert(body(s.drop_last(), comment_prefix) == block(first, comment_prefix));
    assert(envelope(tag, s, comment_prefix) =~= open_tag(tag) + block(first, comment_prefix)
        + seq!['\n'] + block(second, comment_prefix) + close_tag(tag));
}

/// Renders `inputs` as one envelope: the line `<container>`, each input's
/// header line `marker label` followed by its text, a blank line between two
/// inputs, and the line `</container>`. The whole envelope is built in
/// memory, so that a caller writes it at once or not at all.
pub fn render_envelope(
    container: &str,
    comment_prefix: Option<&str>,
    inputs: &[ResolvedInput],
) -> (r: String)
    ensures
        r@ == envelope(container@, inputs_view(inputs@), opt_view(comment_prefix)),
{
    let ghost ov = opt_view(comment_prefix);
    let ghost xs = inputs_view(inputs@);
    proof {
        reveal_strlit("<");
        reveal_strlit(">\n");
        reveal_strlit("</");
        reveal_strlit("\n");
        reveal_strlit(" ");
        assert("<"@ =~= seq!['<']);
        assert(">\n"@ =~= seq!['>', '\n']);
        assert("</"@ =~= seq!['<', '/']);
        assert("\n"@ =~= seq!['\n']);
        assert(" "@ =~= seq![' ']);
    }
    let mut out = String::new();
    out.append("<");
    out.append(container);
    out.append(">\n");
    proof {
        assert(xs.take(0) =~= Seq::<(Seq<char>, Seq<char>)>::empty());
        assert(out@ =~= open_tag(container@) + body(xs.take(0), ov));
    }
    let mut i: usize = 0;
    while i < inputs.len()
        invariant
            ov == opt_view(comment_prefix),
            xs == inputs_view(inputs@),
            i <= inputs@.len(),
            "\n"@ == seq!['\n'],
            " "@ == seq![' '],
            out@ == open_tag(container@) + body(xs.take(i as int), ov),
        decreases inputs.len() - i,
    {
        let ghost before = out@;
        if i > 0 {
            out.append("\n");
        }
        let x = &inputs[i];
        let marker = comment_marker(x.label.as_str(), comment_prefix);
        out.append(marker.as_str());
        out.append(" ");
        out.append(x.label.as_str());
        out.append("\n");
        out.append(x.content.as_str());
        proof {
            let t = xs.take(i + 1);
            assert(t.drop_last() =~= xs.take(i as int));
            assert(t.last() == x@);
            if i == 0 {
                assert(t =~= seq![x@]);
                assert(out@ =~= before + block(x@, ov));
            } else {
                assert(out@ =~= before + seq!['\n'] + block(x@, ov));
            }
            assert(out@ =~= open_tag(container@) + body(t, ov));
        }
        i = i + 1;
    }
    out.append("</");
    out.append(container);
    out.append(">\n");
    proof {
        assert(xs.take(inputs@.len() as int) =~= xs);
        assert(out@ =~= envelope(container@, xs, ov));
    }
    out
}

} // verus!

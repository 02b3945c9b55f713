use vstd::prelude::*;
use vstd::seq_lib::lemma_sorted_unique;

use crate::fragments::{names_view, ordered_names, selected_fragments};
use crate::order::{lemma_name_order_total, name_order};

verus! {

/// The text `source $prefix/` that opens each directive.
pub open spec fn source_prefix() -> Seq<u8> {
    seq![115u8, 111u8, 117u8, 114u8, 99u8, 101u8, 32u8, 36u8, 112u8, 114u8, 101u8, 102u8, 105u8, 120u8, 47u8]
}

/// The directive line that includes one fragment: `source $prefix/<name>\n`.
pub open spec fn source_line(name: Seq<u8>) -> Seq<u8> {
    source_prefix() + name + seq![10u8]
}

/// One directive line per fragment, in order.
pub open spec fn directives(frags: Seq<Seq<u8>>) -> Seq<u8>
    decreases frags.len(),
{
    if frags.len() == 0 {
        Seq::empty()
    } else {
        directives(frags.drop_last()) + source_line(frags.last())
    }
}

/// The Composed Configuration Text.
pub open spec fn composed(pre: Seq<u8>, frags: Seq<Seq<u8>>, post: Seq<u8>) -> Seq<u8> {
    pre + directives(frags) + post
}

/// Appends the bytes of `b` to `out`.
pub fn append_bytes(out: &mut Vec<u8>, b: &Vec<u8>)
    ensures
        final(out)@ == old(out)@ + b@,
{
    let mut i: usize = 0;
    while i < b.len()
        invariant
            i <= b.len(),
            out@ == old(out)@ + b@.take(i as int),
        decreases b.len() - i,
    {
        out.push(b[i]);
        i = i + 1;
        assert(out@ =~= old(out)@ + b@.take(i as int));
    }
    assert(b@.take(i as int) =~= b@);
}

/// Appends the directive line for `name` to `out`.
pub fn push_source_line(out: &mut Vec<u8>, name: &Vec<u8>)
    ensures
        final(out)@ == old(out)@ + source_line(name@),
{
    let prefix: Vec<u8> = vec![115u8, 111u8, 117u8, 114u8, 99u8, 101u8, 32u8, 36u8, 112u8, 114u8, 101u8, 102u8, 105u8, 120u8, 47u8];
    assert(prefix@ =~= source_prefix());
    append_bytes(out, &prefix);
    append_bytes(out, name);
    out.push(10u8);
    assert(final(out)@ =~= old(out)@ + source_line(name@));
}

/// The Config Composer's text: the pre-amble, one directive per fragment in
/// the given order, then the post-amble, with nothing in between.
pub fn compose_config(pre: &Vec<u8>, fragments: &Vec<Vec<u8>>, post: &Vec<u8>) -> (r: Vec<u8>)
    ensures
        r@ == composed(pre@, names_view(fragments@), post@),
{
    let mut out: Vec<u8> = Vec::new();
    append_bytes(&mut out, pre);
    assert(out@ =~= pre@);
    let mut i: usize = 0;
    while i < fragments.len()
        invariant
            i <= fragments.len(),
            out@ == pre@ + directives(names_view(fragments@).take(i as int)),
        decreases fragments.len() - i,
    {
        push_source_line(&mut out, &fragments[i]);
        proof {
            let f = names_view(fragments@);
            assert(f.take(i + 1).drop_last() =~= f.take(i as int));
            assert(f.take(i + 1).last() == fragments@[i as int]@);
        }
        i = i + 1;
        assert(out@ =~= pre@ + directives(names_view(fragments@).take(i as int)));
    }
    assert(names_view(fragments@).take(i as int) =~= names_view(fragments@));
    append_bytes(&mut out, post);
    out
}

/// With no fragments the text is the pre-amble directly followed by the
/// post-amble.
pub proof fn lemma_no_fragments(pre: Seq<u8>, post: Seq<u8>)
    ensures
        composed(pre, Seq::empty(), post) == pre + post,
{
    assert(pre + Seq::<u8>::empty() =~= pre);
}

/// Two listings of the same directory contents, in whatever order they were
/// read, select the same fragments in the same order, and so give the same
/// text.
pub proof fn lemma_listing_order_irrelevant(
    a: Seq<Seq<u8>>,
    b: Seq<Seq<u8>>,
    pre: Seq<u8>,
    post: Seq<u8>,
)
    requires
        a.to_multiset() == b.to_multiset(),
    ensures
        ordered_names(a) == ordered_names(b),
        selected_fragments(a) == selected_fragments(b),
        composed(pre, selected_fragments(a), post) == composed(pre, selected_fragments(b), post),
{
    lemma_name_order_total();
    a.lemma_sort_by_ensures(name_order());
    b.lemma_sort_by_ensures(name_order());
    lemma_sorted_unique(ordered_names(a), ordered_names(b), name_order());
}

} // verus!

use vstd::prelude::*;
use vstd::relations::*;

use vstd::seq_lib::lemma_sorted_unique;

use crate::error::GrubError;
use crate::order::{lemma_name_order_total, name_order};

verus! {

/// The bytes of each name.
pub open spec fn names_view(v: Seq<Vec<u8>>) -> Seq<Seq<u8>> {
    v.map_values(|n: Vec<u8>| n@)
}

/// The suffix that marks a fragment: `.cfg`.
pub open spec fn cfg_suffix() -> Seq<u8> {
    seq![46u8, 99u8, 102u8, 103u8]
}

/// A directory entry is a fragment iff its name ends with `.cfg`.
pub open spec fn is_fragment_name(n: Seq<u8>) -> bool {
    n.len() >= 4 && n.subrange(n.len() - 4, n.len() as int) == cfg_suffix()
}

pub open spec fn fragment_pred() -> spec_fn(Seq<u8>) -> bool {
    |n: Seq<u8>| is_fragment_name(n)
}

/// All entry names, in ascending byte order.
pub open spec fn ordered_names(names: Seq<Seq<u8>>) -> Seq<Seq<u8>> {
    names.sort_by(name_order())
}

/// The Ordered Fragment Sequence of a directory listing.
pub open spec fn selected_fragments(names: Seq<Seq<u8>>) -> Seq<Seq<u8>> {
    ordered_names(names).filter(fragment_pred())
}

/// Every name of the sequence is valid UTF-8.
pub open spec fn all_text(s: Seq<Seq<u8>>) -> bool {
    forall|i: int| 0 <= i < s.len() ==> #[trigger] utf8_ok(s[i])
}

/// `i` is the first position of `s` whose name is not valid UTF-8.
pub open spec fn is_first_non_text(s: Seq<Seq<u8>>, i: int) -> bool {
    &&& 0 <= i < s.len()
    &&& !utf8_ok(s[i])
    &&& forall|j: int| 0 <= j < i ==> utf8_ok(s[j])
}

/// `e` reports the first name of `s` that is not valid UTF-8.
pub open spec fn is_encoding_error_of(e: GrubError, s: Seq<Seq<u8>>) -> bool {
    exists|i: int|
        #[trigger] is_first_non_text(s, i) && (e matches GrubError::Encoding(n) && n@ == s[i])
}

/// Whether the bytes are valid UTF-8.
pub uninterp spec fn utf8_ok(b: Seq<u8>) -> bool;

/// Relies on std::str::from_utf8: it succeeds exactly on valid UTF-8.
#[verifier::external_body]
fn is_utf8(b: &Vec<u8>) -> (r: bool)
    ensures
        r == utf8_ok(b@),
{
    std::str::from_utf8(b.as_slice()).is_ok()
}

/// Relies on slice::sort: it keeps every element and orders them by `Ord` of
/// `Vec<u8>`, which compares the bytes lexicographically.
#[verifier::external_body]
fn sort_names(v: &mut Vec<Vec<u8>>)
    ensures
        names_view(final(v)@).to_multiset() == names_view(old(v)@).to_multiset(),
        sorted_by(names_view(final(v)@), name_order()),
{
    v.sort()
}

/// Whether a name ends with `.cfg`.
pub fn is_fragment(name: &Vec<u8>) -> (r: bool)
    ensures
        r == is_fragment_name(name@),
{
    let n = name.len();
    if n < 4 {
        return false;
    }
    let r = name[n - 4] == 46u8 && name[n - 3] == 99u8 && name[n - 2] == 102u8 && name[n - 1]
        == 103u8;
    proof {
        let tail = name@.subrange(n - 4, n as int);
        if r {
            assert(tail =~= cfg_suffix());
        } else {
            assert(tail != cfg_suffix()) by {
                if tail == cfg_suffix() {
                    assert(tail[0] == name@[n - 4]);
                    assert(tail[3] == name@[n - 1]);
                }
            }
        }
    }
    r
}

/// Decides one entry of the drop-in listing, given whether its name is valid
/// UTF-8: `Ok(true)` to take it as a fragment, `Ok(false)` to skip it.
pub fn check_fragment_name(name: &Vec<u8>, text: bool) -> (r: Result<bool, GrubError>)
    ensures
        text ==> r == Ok::<bool, GrubError>(is_fragment_name(name@)),
        !text ==> (r matches Err(GrubError::Encoding(n)) && n@ == name@),
{
    if !text {
        let n = name.clone();
        assert(n@ =~= name@);
        return Err(GrubError::Encoding(n));
    }
    Ok(is_fragment(name))
}

proof fn lemma_sorted_is_ordered(sorted: Seq<Seq<u8>>, names: Seq<Seq<u8>>)
    requires
        sorted.to_multiset() == names.to_multiset(),
        sorted_by(sorted, name_order()),
    ensures
        sorted == ordered_names(names),
{
    lemma_name_order_total();
    names.lemma_sort_by_ensures(name_order());
    lemma_sorted_unique(sorted, ordered_names(names), name_order());
}

/// The Fragment Collector: orders the names of a drop-in listing by their
/// bytes and keeps those ending in `.cfg`. Every name must be valid UTF-8;
/// otherwise the first offending one, in that order, is reported.
pub fn collect_fragments(names: Vec<Vec<u8>>) -> (r: Result<Vec<Vec<u8>>, GrubError>)
    ensures
        r is Ok <==> all_text(ordered_names(names_view(names@))),
        r matches Ok(v) ==> names_view(v@) == selected_fragments(names_view(names@)),
        r matches Err(e) ==> is_encoding_error_of(e, ordered_names(names_view(names@))),
{
    let ghost input = names_view(names@);
    let mut sorted = names;
    sort_names(&mut sorted);
    proof {
        lemma_sorted_is_ordered(names_view(sorted@), input);
    }
    let ghost ord = names_view(sorted@);
    let mut out: Vec<Vec<u8>> = Vec::new();
    let mut i: usize = 0;
    while i < sorted.len()
        invariant
            ord == names_view(sorted@),
            ord == ordered_names(input),
            input == names_view(names@),
            i <= sorted.len(),
            names_view(out@) == ord.take(i as int).filter(fragment_pred()),
            forall|j: int| 0 <= j < i ==> utf8_ok(#[trigger] ord[j]),
        decreases sorted.len() - i,
    {
        let text = is_utf8(&sorted[i]);
        assert(ord[i as int] == sorted@[i as int]@);
        let keep = match check_fragment_name(&sorted[i], text) {
            Ok(k) => k,
            Err(e) => {
                assert(ord[i as int] == sorted@[i as int]@);
                assert(!utf8_ok(ordered_names(input)[i as int]));
                assert(!all_text(ord));
                assert(is_first_non_text(ordered_names(input), i as int));
                return Err(e);
            },
        };
        proof {
            reveal(Seq::filter);
            assert(ord.take(i + 1).drop_last() =~= ord.take(i as int));
        }
        if keep {
            let n = sorted[i].clone();
            assert(n@ =~= sorted@[i as int]@);
            out.push(n);
            assert(names_view(out@) =~= ord.take(i + 1).filter(fragment_pred()));
        } else {
            assert(names_view(out@) =~= ord.take(i + 1).filter(fragment_pred()));
        }
        i = i + 1;
    }
    assert(ord.take(i as int) =~= ord);
    Ok(out)
}

} // verus!

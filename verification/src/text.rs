//! Small operations on text, by characters.

use vstd::prelude::*;

verus! {

/// What follows `prefix` in `text`, if `text` begins with it.
pub open spec fn without_prefix(text: Seq<char>, prefix: Seq<char>) -> Option<Seq<char>> {
    if prefix.is_prefix_of(text) {
        Some(text.skip(prefix.len() as int))
    } else {
        None
    }
}

/// Cuts `prefix` off the front of `text`.
pub fn strip_prefix<'a>(text: &'a str, prefix: &str) -> (rest: Option<&'a str>)
    ensures
        match rest {
            Some(rest) => without_prefix(text@, prefix@) == Some(rest@),
            None => without_prefix(text@, prefix@) is None,
        },
{
    let text_len: usize = text.unicode_len();
    let prefix_len: usize = prefix.unicode_len();
    if text_len < prefix_len {
        return None;
    }
    let mut i: usize = 0;
    while i < prefix_len
        invariant
            i <= prefix_len <= text_len,
            text_len == text@.len(),
            prefix_len == prefix@.len(),
            forall|j: int| 0 <= j < i ==> text@[j] == prefix@[j],
        decreases prefix_len - i,
    {
        if text.get_char(i) != prefix.get_char(i) {
            return None;
        }
        i = i + 1;
    }
    assert(prefix@.is_prefix_of(text@));
    assert(text@.subrange(prefix_len as int, text_len as int) =~= text@.skip(prefix_len as int));
    Some(text.substring_char(prefix_len, text_len))
}

/// Whether two texts hold the same characters.
pub fn same_text(left: &str, right: &str) -> (same: bool)
    ensures
        same == (left@ == right@),
{
    match strip_prefix(left, right) {
        Some(rest) => {
            proof {
                if rest@.len() == 0 {
                    assert(left@ =~= right@);
                }
            }
            rest.is_empty()
        },
        None => {
            proof {
                assert(right@.is_prefix_of(right@));
            }
            false
        },
    }
}

/// One text after the other.
pub fn joined(left: &str, right: &str) -> (both: String)
    ensures
        both@ == left@ + right@,
{
    let mut both = left.to_owned();
    both.append(right);
    both
}

/// A result, its value and its error by their views.
pub open spec fn result_view<T: View, E: View>(result: Result<T, E>) -> Result<T::V, E::V> {
    match result {
        Ok(value) => Ok(value@),
        Err(error) => Err(error@),
    }
}

/// Cutting a prefix off and putting it back are inverse: what is left is the one
/// text that makes up the whole together with the prefix.
pub proof fn law_prefix_and_rest_make_the_text(
    text: Seq<char>,
    prefix: Seq<char>,
    rest: Seq<char>,
)
    ensures
        without_prefix(text, prefix) == Some(rest) <==> text == prefix + rest,
{
    if without_prefix(text, prefix) == Some(rest) {
        assert(text =~= prefix + rest);
    }
    if text == prefix + rest {
        assert(prefix.is_prefix_of(text));
        assert(text.skip(prefix.len() as int) =~= rest);
    }
}

/// A result's view is of the same kind, and tells of its value or of its error.
pub proof fn law_result_view_keeps_the_kind<T: View, E: View>(result: Result<T, E>)
    ensures
        result is Ok <==> result_view(result) is Ok,
        result is Ok ==> result_view(result)->Ok_0 == result->Ok_0@,
        result is Err ==> result_view(result)->Err_0 == result->Err_0@,
{
}

/// A text is cut only behind its prefix, and what is left makes up the whole
/// again; texts are the same just where their characters are; and texts are
/// joined in their order.
pub proof fn law_texts_are_cut_and_joined_in_order(left: &str, right: &str)
    ensures
        forall|rest: Option<&str>| #[trigger]
            call_ensures(strip_prefix, (left, right), rest) ==> {
                &&& rest is Some ==> left@ == right@ + rest->0@
                &&& rest is None ==> forall|other: Seq<char>| left@ != #[trigger] (right@ + other)
            },
        forall|same: bool| #[trigger]
            call_ensures(same_text, (left, right), same) ==> (same <==> left@ == right@),
        forall|both: String| #[trigger]
            call_ensures(joined, (left, right), both) ==> both@ == left@ + right@,
{
    assert forall|rest: Option<&str>| #[trigger]
        call_ensures(strip_prefix, (left, right), rest) implies {
        &&& rest is Some ==> left@ == right@ + rest->0@
        &&& rest is None ==> forall|other: Seq<char>| left@ != #[trigger] (right@ + other)
    } by {
        if rest is Some {
            law_prefix_and_rest_make_the_text(left@, right@, rest->0@);
        } else {
            assert forall|other: Seq<char>| left@ != #[trigger] (right@ + other) by {
                law_prefix_and_rest_make_the_text(left@, right@, other);
            }
        }
    }
}

} // verus!

//! Which names and paths are accepted, letter by letter.

use vstd::prelude::*;

use crate::consistency::{lemma_first_invalid, lemma_none_invalid};
use crate::identifier::{
    has_parent_component, is_identifier_char, parent_component_at, valid_identifier,
};
use crate::model::{is_ensure, is_open, memory_path, spec_refusal, StoreView};
use crate::persistence::{ErrorView, SpecView};

verus! {

/// The identifiers are all names of 1 to 64 characters of which the first is one of `a` to `z`
/// and each other one is one of `a` to `z`, one of `0` to `9`, or an underscore; and no other
/// names are.
pub proof fn identifiers_are_these_names(name: Seq<char>)
    ensures
        valid_identifier(name) <==> {
            &&& 1 <= name.len() <= 64
            &&& 'a' <= name[0] <= 'z'
            &&& forall|i: int|
                1 <= i < name.len() ==> ('a' <= #[trigger] name[i] <= 'z' || '0' <= name[i] <= '9'
                    || name[i] == '_')
        },
{
    if 1 <= name.len() <= 64 && 'a' <= name[0] <= 'z' && (forall|i: int|
        1 <= i < name.len() ==> ('a' <= #[trigger] name[i] <= 'z' || '0' <= name[i] <= '9'
            || name[i] == '_')) {
        assert forall|i: int| 0 <= i < name.len() implies is_identifier_char(
            #[trigger] name[i],
        ) by {}
    }
}

/// A longer identifier is made from a shorter one by any one of the letters, digits and the
/// underscore, up to 64 characters; whatever stands before it, none of them is refused.
pub proof fn identifiers_grow_by_any_letter(name: Seq<char>, c: char)
    requires
        valid_identifier(name),
        name.len() < 64,
    ensures
        valid_identifier(name.push(c)) <==> ('a' <= c <= 'z' || '0' <= c <= '9' || c == '_'),
{
    identifiers_are_these_names(name);
    identifiers_are_these_names(name.push(c));
    assert(name.push(c)[name.len() as int] == c);
    assert forall|i: int| 1 <= i < name.len() implies name.push(c)[i] == name[i] by {}
}

/// One letter alone is an identifier exactly where it is one of `a` to `z`, and no identifier
/// is empty.
pub proof fn identifiers_start_with_a_letter(c: char)
    ensures
        valid_identifier(seq![c]) <==> 'a' <= c <= 'z',
        !valid_identifier(seq![]),
{
    identifiers_are_these_names(seq![c]);
}

/// Whether a name is spelled as a name must be.
pub open spec fn spelled(name: Seq<char>) -> bool {
    &&& 1 <= name.len() <= 64
    &&& 'a' <= name[0] <= 'z'
    &&& forall|i: int|
        1 <= i < name.len() ==> ('a' <= #[trigger] name[i] <= 'z' || '0' <= name[i] <= '9'
            || name[i] == '_')
}

/// A declaration whose names are all spelled as names must be is not refused: its first
/// statement is handed to SQLite.
pub proof fn spelled_declarations_are_not_refused(
    before: StoreView,
    after: StoreView,
    spec: SpecView,
    result: Result<(), ErrorView>,
)
    requires
        is_ensure(before, after, spec, result),
        spelled(spec.name),
        forall|i: int|
            0 <= i < spec.indexed_fields.len() ==> spelled(#[trigger] spec.indexed_fields[i]),
    ensures
        after.history.len() > before.history.len(),
        result matches Err(error) ==> error is Storage,
{
    identifiers_are_these_names(spec.name);
    assert forall|i: int| 0 <= i < spec.indexed_fields.len() implies valid_identifier(
        #[trigger] spec.indexed_fields[i],
    ) by {
        identifiers_are_these_names(spec.indexed_fields[i]);
    }
    lemma_none_invalid(spec.indexed_fields);
    assert(spec_refusal(spec) is None);
}

/// A declaration with a name that is not spelled as a name must be is refused, with the first
/// such name, and nothing is done.
pub proof fn misspelled_declarations_are_refused(
    before: StoreView,
    after: StoreView,
    spec: SpecView,
    result: Result<(), ErrorView>,
    n: int,
)
    requires
        is_ensure(before, after, spec, result),
        !spelled(spec.name) || {
            &&& 0 <= n < spec.indexed_fields.len()
            &&& !spelled(spec.indexed_fields[n])
            &&& forall|i: int| 0 <= i < n ==> spelled(#[trigger] spec.indexed_fields[i])
        },
    ensures
        after == before,
        result == Err::<(), ErrorView>(
            ErrorView::InvalidIdentifier(
                if spelled(spec.name) {
                    spec.indexed_fields[n]
                } else {
                    spec.name
                },
            ),
        ),
{
    identifiers_are_these_names(spec.name);
    if spelled(spec.name) {
        assert forall|i: int| 0 <= i < n implies valid_identifier(
            #[trigger] spec.indexed_fields[i],
        ) by {
            identifiers_are_these_names(spec.indexed_fields[i]);
        }
        identifiers_are_these_names(spec.indexed_fields[n]);
        lemma_first_invalid(spec.indexed_fields, n);
    }
}

/// A path has a `..` component exactly where it is something, `..` and something, the one empty
/// or ending in a slash, the other empty or starting with one.
pub proof fn parent_components_are_these(path: Seq<char>)
    ensures
        has_parent_component(path) <==> exists|head: Seq<char>, tail: Seq<char>|
            {
                &&& path == #[trigger] (head + ".."@ + tail)
                &&& head.len() == 0 || head.last() == '/'
                &&& tail.len() == 0 || tail[0] == '/'
            },
{
    reveal_strlit("..");
    if has_parent_component(path) {
        let i = choose|i: int| parent_component_at(path, i);
        let head = path.take(i);
        let tail = path.skip(i + 2);
        assert(path =~= head + ".."@ + tail);
    }
    if exists|head: Seq<char>, tail: Seq<char>|
        {
            &&& path == #[trigger] (head + ".."@ + tail)
            &&& head.len() == 0 || head.last() == '/'
            &&& tail.len() == 0 || tail[0] == '/'
        } {
        let (head, tail) = choose|head: Seq<char>, tail: Seq<char>|
            {
                &&& path == #[trigger] (head + ".."@ + tail)
                &&& head.len() == 0 || head.last() == '/'
                &&& tail.len() == 0 || tail[0] == '/'
            };
        let i = head.len() as int;
        assert(path[i] == '.' && path[i + 1] == '.');
        assert(head.len() > 0 ==> path[i - 1] == head.last());
        assert(tail.len() > 0 ==> path[i + 2] == tail[0]);
        assert(parent_component_at(path, i));
    }
}

/// `open` refuses the paths with a `..` component, `:memory:` aside, with the error that says
/// so, and opens nothing there.
pub proof fn open_refuses_parent_components_alone(
    path: Seq<char>,
    result: Result<StoreView, ErrorView>,
)
    requires
        is_open(path, result),
    ensures
        memory_path() == ":memory:"@,
        has_parent_component(path) && path != ":memory:"@ ==> result == Err::<StoreView, ErrorView>(
            ErrorView::Storage("invalid path: "@ + "path traversal (..) is not allowed"@),
        ),
        result matches Ok(store) ==> path == ":memory:"@ || !has_parent_component(path),
{
}

} // verus!

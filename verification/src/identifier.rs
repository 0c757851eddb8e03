//! The names that may stand in SQL text, and the paths a database may be opened at.

use vstd::prelude::*;

use crate::text::chars_of;

verus! {

/// The length that no identifier exceeds.
pub const MAX_IDENTIFIER_LEN: usize = 64;

/// Whether `c` is an ASCII lower-case letter.
pub open spec fn is_lower(c: char) -> bool {
    'a' <= c <= 'z'
}

/// Whether `c` may stand behind the first character of an identifier.
pub open spec fn is_identifier_char(c: char) -> bool {
    is_lower(c) || '0' <= c <= '9' || c == '_'
}

/// An identifier: a lower-case letter, then lower-case letters, digits and
/// underscores, 64 characters at most.
pub open spec fn valid_identifier(name: Seq<char>) -> bool {
    &&& 1 <= name.len() <= MAX_IDENTIFIER_LEN
    &&& is_lower(name[0])
    &&& forall|i: int| 0 <= i < name.len() ==> is_identifier_char(#[trigger] name[i])
}

/// Whether `name` may stand in SQL text as an identifier.
pub fn is_valid_identifier(name: &str) -> (valid: bool)
    ensures
        valid == valid_identifier(name@),
{
    let chars = chars_of(name);
    if chars.len() == 0 || chars.len() > MAX_IDENTIFIER_LEN {
        return false;
    }
    if !('a' <= chars[0] && chars[0] <= 'z') {
        return false;
    }
    for i in 0..chars.len()
        invariant
            chars@ == name@,
            forall|j: int| 0 <= j < i ==> is_identifier_char(#[trigger] name@[j]),
    {
        let c = chars[i];
        if !(('a' <= c && c <= 'z') || ('0' <= c && c <= '9') || c == '_') {
            assert(!is_identifier_char(name@[i as int]));
            return false;
        }
    }
    true
}

/// Whether `..` stands at `i` as a whole component of `path`.
pub open spec fn parent_component_at(path: Seq<char>, i: int) -> bool {
    &&& 0 <= i <= path.len() - 2
    &&& path[i] == '.'
    &&& path[i + 1] == '.'
    &&& i == 0 || path[i - 1] == '/'
    &&& i + 2 == path.len() || path[i + 2] == '/'
}

/// Whether a component of `path` is `..`.
pub open spec fn has_parent_component(path: Seq<char>) -> bool {
    exists|i: int| parent_component_at(path, i)
}

/// Screens a database path against traversal: refuses one with a `..` component.
pub fn validate_db_path(path: &str) -> (result: Result<(), String>)
    ensures
        result is Ok <==> !has_parent_component(path@),
        result matches Err(reason) ==> reason@ == "path traversal (..) is not allowed"@,
{
    let chars = chars_of(path);
    let n = chars.len();
    let mut i: usize = 0;
    while i < n
        invariant
            chars@ == path@,
            n == path@.len(),
            i <= n,
            forall|j: int| 0 <= j < i ==> !parent_component_at(path@, j),
        decreases n - i,
    {
        if n - i >= 2 && chars[i] == '.' && chars[i + 1] == '.' && (i == 0 || chars[i - 1] == '/')
            && (n - i == 2 || chars[i + 2] == '/') {
            assert(parent_component_at(path@, i as int));
            return Err("path traversal (..) is not allowed".to_owned());
        }
        i = i + 1;
    }
    Ok(())
}

} // verus!

//! The rule for project names.

use vstd::prelude::*;
use crate::text::{chars_of, same_text};

verus! {

/// The fewest characters a project name may have.
pub const NAME_MIN: usize = 2;

/// The most characters a project name may have.
pub const NAME_MAX: usize = 500;

/// The characters a project name is made of: ASCII letters, digits, `_` and `-`.
pub open spec fn is_name_char(c: char) -> bool {
    ||| 'a' <= c <= 'z'
    ||| 'A' <= c <= 'Z'
    ||| '0' <= c <= '9'
    ||| c == '_'
    ||| c == '-'
}

/// The names the service keeps for its own pages.
pub open spec fn spec_reserved_name(name: Seq<char>) -> bool {
    ||| name == "dashboard"@
    ||| name == "api"@
    ||| name == "social"@
}

/// A name that a project may bear: 2 to 500 name characters, and not reserved.
pub open spec fn spec_valid_name(name: Seq<char>) -> bool {
    &&& NAME_MIN <= name.len() <= NAME_MAX
    &&& forall|i: int| 0 <= i < name.len() ==> is_name_char(#[trigger] name[i])
    &&& !spec_reserved_name(name)
}

/// Whether a project name may hold the character.
pub fn name_char(c: char) -> (r: bool)
    ensures
        r == is_name_char(c),
{
    ('a' <= c && c <= 'z') || ('A' <= c && c <= 'Z') || ('0' <= c && c <= '9') || c == '_' || c
        == '-'
}

/// Whether the service keeps the name for its own pages.
pub fn reserved_name(name: &str) -> (r: bool)
    ensures
        r == spec_reserved_name(name@),
{
    same_text(name, "dashboard") || same_text(name, "api") || same_text(name, "social")
}

/// Whether a project may bear this name.
pub fn valid_name(name: &str) -> (r: bool)
    ensures
        r == spec_valid_name(name@),
{
    let cs = chars_of(name);
    let n: usize = cs.len();
    if n < NAME_MIN || n > NAME_MAX {
        return false;
    }
    let mut i: usize = 0;
    while i < n
        invariant
            n == cs@.len(),
            cs@ == name@,
            i <= n,
            forall|j: int| 0 <= j < i ==> is_name_char(#[trigger] cs@[j]),
        decreases n - i,
    {
        if !name_char(cs[i]) {
            return false;
        }
        i += 1;
    }
    !reserved_name(name)
}

} // verus!

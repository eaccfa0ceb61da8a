//! Workspace switching: going to a workspace, or back from it.

use vstd::prelude::*;
use crate::text::chars_of;

verus! {

/// Whether a character is one of `0` to `9`.
pub open spec fn is_digit(c: char) -> bool {
    '0' <= c <= '9'
}

/// Whether the text is made of digits only.
pub open spec fn all_digits(s: Seq<char>) -> bool {
    forall|i: int| 0 <= i < s.len() ==> is_digit(#[trigger] s[i])
}

/// The number that a text of digits writes.
pub open spec fn decimal_value(s: Seq<char>) -> int
    decreases s.len(),
{
    if s.len() == 0 {
        0
    } else {
        decimal_value(s.drop_last()) * 10 + (s.last() as int - '0' as int)
    }
}

/// The digits of a number text: what follows one leading sign, if there
/// is one.
pub open spec fn digits_of(s: Seq<char>) -> Seq<char> {
    if s.len() > 0 && (s[0] == '-' || s[0] == '+') {
        s.drop_first()
    } else {
        s
    }
}

/// The workspace id that a text writes: an optional sign and one or more
/// digits, nothing else, for a number that a workspace id can hold.
pub open spec fn workspace_id_spec(s: Seq<char>) -> Option<i32> {
    let digits = digits_of(s);
    let value = if s.len() > 0 && s[0] == '-' {
        -decimal_value(digits)
    } else {
        decimal_value(digits)
    };
    if digits.len() > 0 && all_digits(digits) && i32::MIN <= value <= i32::MAX {
        Some(value as i32)
    } else {
        None
    }
}

/// The workspace id that `text` writes, if it writes one.
pub fn workspace_id(text: &str) -> (id: Option<i32>)
    ensures
        id == workspace_id_spec(text@),
{
    let chars = chars_of(text);
    let negative = chars.len() > 0 && chars[0] == '-';
    let start: usize = if chars.len() > 0 && (chars[0] == '-' || chars[0] == '+') {
        1
    } else {
        0
    };
    let ghost digits = digits_of(text@);
    assert(digits =~= chars@.skip(start as int));
    if start == chars.len() {
        return None;
    }
    let limit: i64 = 0x8000_0000;
    let mut value: i64 = 0;
    let mut over = false;
    let mut i: usize = start;
    proof {
        assert(digits.take(0).len() == 0);
    }
    while i < chars.len()
        invariant
            start <= i <= chars@.len(),
            digits == chars@.skip(start as int),
            digits == digits_of(text@),
            limit == 0x8000_0000,
            forall|k: int| 0 <= k < i - start ==> is_digit(#[trigger] digits[k]),
            0 <= value <= limit,
            !over ==> value == decimal_value(digits.take(i - start)),
            over ==> decimal_value(digits.take(i - start)) > limit,
        decreases chars@.len() - i,
    {
        let c = chars[i];
        assert(digits[i - start] == c);
        if !('0' <= c && c <= '9') {
            assert(!is_digit(digits[i - start]));
            return None;
        }
        let d: i64 = (c as u32 - '0' as u32) as i64;
        proof {
            assert(digits.take(i - start + 1).drop_last() =~= digits.take(i - start));
            assert(digits.take(i - start + 1).last() == c);
        }
        if !over {
            let next = value * 10 + d;
            if next > limit {
                over = true;
            } else {
                value = next;
            }
        }
        i += 1;
    }
    proof {
        assert(digits.take(digits.len() as int) =~= digits);
    }
    if over {
        None
    } else if negative {
        Some((-value) as i32)
    } else if value == limit {
        None
    } else {
        Some(value as i32)
    }
}

/// What to ask of the window manager.
#[derive(Clone, Copy, Debug, PartialEq, Eq, Structural)]
pub enum WorkspaceDispatch {
    /// Go to the workspace that was asked for.
    Target,
    /// Go back to the workspace that was active before.
    Previous,
}

/// What a request for workspace `target` leads to while the workspace
/// `active` is shown: back to the previous workspace where the target is
/// shown already, to the target else. Nothing where the target is no
/// workspace id, or the active workspace is not known.
pub fn run(target: &str, active: Option<i32>) -> (dispatch: Option<WorkspaceDispatch>)
    ensures
        dispatch == match (workspace_id_spec(target@), active) {
            (Some(wanted), Some(shown)) => Some(
                if wanted == shown {
                    WorkspaceDispatch::Previous
                } else {
                    WorkspaceDispatch::Target
                },
            ),
            _ => None,
        },
{
    match (workspace_id(target), active) {
        (Some(wanted), Some(shown)) => Some(
            if wanted == shown {
                WorkspaceDispatch::Previous
            } else {
                WorkspaceDispatch::Target
            },
        ),
        _ => None,
    }
}

} // verus!

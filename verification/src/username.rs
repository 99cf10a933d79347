//! Username format rules: 1 to 10 characters, alphanumerics and `.` only,
//! no leading or trailing `.`, no two `.` in a row.
use vstd::prelude::*;
use vstd::string::StrSliceExecFns;

verus! {

/// An ASCII letter or digit.
pub open spec fn is_alnum_char(c: char) -> bool {
    ||| 'a' as u32 <= c as u32 && c as u32 <= 'z' as u32
    ||| 'A' as u32 <= c as u32 && c as u32 <= 'Z' as u32
    ||| '0' as u32 <= c as u32 && c as u32 <= '9' as u32
}

/// A character allowed somewhere in a username.
pub open spec fn is_username_char(c: char) -> bool {
    is_alnum_char(c) || c == '.'
}

/// The username format: 1 to 10 characters, each alphanumeric or `.`,
/// not starting or ending with `.`, and never two `.` in a row.
pub open spec fn valid_username(s: Seq<char>) -> bool {
    &&& 1 <= s.len() <= 10
    &&& forall|i: int| 0 <= i < s.len() ==> is_username_char(#[trigger] s[i])
    &&& s[0] != '.'
    &&& s[s.len() - 1] != '.'
    &&& forall|i: int| 0 < i < s.len() ==> !(#[trigger] s[i] == '.' && s[i - 1] == '.')
}

fn is_alnum(c: char) -> (b: bool)
    ensures
        b == is_alnum_char(c),
{
    let u = c as u32;
    ('a' as u32 <= u && u <= 'z' as u32) || ('A' as u32 <= u && u <= 'Z' as u32) || ('0' as u32
        <= u && u <= '9' as u32)
}

/// Decides whether a string is an acceptable username.
pub fn validate_username(username: &str) -> (b: bool)
    ensures
        b == valid_username(username@),
{
    let n = username.unicode_len();
    if n < 1 || n > 10 {
        return false;
    }
    let mut i: usize = 0;
    while i < n
        invariant
            0 <= i <= n,
            n == username@.len(),
            1 <= n <= 10,
            forall|k: int| 0 <= k < i ==> is_username_char(#[trigger] username@[k]),
            forall|k: int| 0 <= k < i ==> (#[trigger] username@[k] == '.' ==> k + 1 < n),
            forall|k: int|
                0 < k < i ==> !(#[trigger] username@[k] == '.' && username@[k - 1] == '.'),
            i > 0 ==> username@[0] != '.',
        decreases n - i,
    {
        let c = username.get_char(i);
        if !(is_alnum(c) || c == '.') {
            return false;
        }
        if c == '.' {
            if i == 0 || i + 1 == n {
                return false;
            }
            if username.get_char(i - 1) == '.' {
                return false;
            }
        }
        i += 1;
    }
    true
}

} // verus!

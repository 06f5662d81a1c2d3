//! The names of local accounts.

use vstd::prelude::*;
use vstd::string::*;

verus! {

/// The most bytes that a name may have.
pub const MAX_LOCAL_USERNAME_BYTES: usize = 255;

/// A name was refused.
#[derive(Clone, Copy, Debug, PartialEq, Eq, Structural)]
pub struct InvalidLocalUsername;

impl InvalidLocalUsername {
    /// The sentence of this failure.
    pub fn message(&self) -> (r: &'static str)
        ensures
            r@ == "本地用户名无效"@,
    {
        "本地用户名无效"
    }
}

/// Whether a character is white space: one of those that Unicode lists as such.
pub open spec fn is_white_space(c: char) -> bool {
    let n = c as u32;
    ||| 0x9 <= n <= 0xd
    ||| n == 0x20
    ||| n == 0x85
    ||| n == 0xa0
    ||| n == 0x1680
    ||| 0x2000 <= n <= 0x200a
    ||| n == 0x2028
    ||| n == 0x2029
    ||| n == 0x202f
    ||| n == 0x205f
    ||| n == 0x3000
}

/// Whether a character is a control character.
pub open spec fn is_control(c: char) -> bool {
    let n = c as u32;
    n <= 0x1f || 0x7f <= n <= 0x9f
}

/// Whether a text neither begins nor ends with white space.
pub open spec fn is_trimmed(text: Seq<char>) -> bool {
    text.len() > 0 ==> !is_white_space(text[0]) && !is_white_space(text.last())
}

/// Whether a text is the name of a local account: not empty and not too long, without white space
/// around it and without control characters.
pub open spec fn is_local_username(text: Seq<char>) -> bool {
    &&& 1 <= vstd::utf8::encode_utf8(text).len() <= MAX_LOCAL_USERNAME_BYTES
    &&& is_trimmed(text)
    &&& forall|i: int| 0 <= i < text.len() ==> !is_control(#[trigger] text[i])
}

fn white_space(c: char) -> (r: bool)
    ensures
        r == is_white_space(c),
{
    let n: u32 = c as u32;
    (0x9 <= n && n <= 0xd) || n == 0x20 || n == 0x85 || n == 0xa0 || n == 0x1680 || (0x2000 <= n && n
        <= 0x200a) || n == 0x2028 || n == 0x2029 || n == 0x202f || n == 0x205f || n == 0x3000
}

fn control(c: char) -> (r: bool)
    ensures
        r == is_control(c),
{
    let n: u32 = c as u32;
    n <= 0x1f || (0x7f <= n && n <= 0x9f)
}

/// Whether a text neither begins nor ends with white space.
pub fn trimmed(value: &str) -> (r: bool)
    ensures
        r == is_trimmed(value@),
{
    let length: usize = value.unicode_len();
    if length == 0 {
        return true;
    }
    !white_space(value.get_char(0)) && !white_space(value.get_char(length - 1))
}

/// Accepts the name of a local account, as it stands.
pub fn validate_local_username(value: &str) -> (r: Result<(), InvalidLocalUsername>)
    ensures
        r == (if is_local_username(value@) {
            Ok::<(), InvalidLocalUsername>(())
        } else {
            Err(InvalidLocalUsername)
        }),
{
    let bytes: usize = value.as_bytes().len();
    if bytes < 1 || bytes > MAX_LOCAL_USERNAME_BYTES || !trimmed(value) {
        return Err(InvalidLocalUsername);
    }
    let length: usize = value.unicode_len();
    let mut i: usize = 0;
    while i < length
        invariant
            i <= length == value@.len(),
            forall|k: int| 0 <= k < i ==> !is_control(#[trigger] value@[k]),
        decreases length - i,
    {
        if control(value.get_char(i)) {
            assert(is_control(value@[i as int]));
            return Err(InvalidLocalUsername);
        }
        i = i + 1;
    }
    Ok(())
}

/// A name has no control character anywhere and no space at either end, and is not empty. Anything
/// else will do where it is not too long: letters, digits and signs, and spaces within.
pub proof fn law_names_are_plain_text(text: Seq<char>)
    ensures
        is_local_username(text) ==> text.len() > 0 && text[0] as u32 != 0x20 && text.last() as u32
            != 0x20,
        is_local_username(text) ==> forall|i: int|
            0 <= i < text.len() ==> 0x20 <= (#[trigger] text[i]) as u32 && text[i] as u32 != 0x7f,
        is_local_username(text) ==> vstd::utf8::encode_utf8(text).len() <= 255,
        1 <= vstd::utf8::encode_utf8(text).len() <= 255 && text.len() > 0 && text[0] as u32
            != 0x20 && text.last() as u32 != 0x20 && (forall|i: int|
            0 <= i < text.len() ==> 0x20 <= (#[trigger] text[i]) as u32 <= 0x7e || 0x3001
                <= text[i] as u32) ==> is_local_username(text),
{
    if text.len() == 0 {
        assert(vstd::utf8::encode_utf8(text).len() == 0);
    } else {
        let first = text[0];
        let last = text[text.len() - 1];
        assert(text.last() == last);
        if 1 <= vstd::utf8::encode_utf8(text).len() <= 255 && first as u32 != 0x20 && last as u32 != 0x20 && (forall|
            i: int,
        |
            0 <= i < text.len() ==> 0x20 <= (#[trigger] text[i]) as u32 <= 0x7e || 0x3001
                <= text[i] as u32) {
            assert(!is_white_space(first) && !is_white_space(last));
            assert forall|i: int| 0 <= i < text.len() implies !is_control(#[trigger] text[i]) by {}
        }
    }
}

} // verus!

//! Which names can be the name of a config file.

use vstd::prelude::*;

verus! {

/// Whether `name` starts with a drive, as in `C:` or `C:settings`.
pub open spec fn drive_prefixed(name: Seq<char>) -> bool {
    &&& name.len() >= 2
    &&& ('a' <= name[0] <= 'z' || 'A' <= name[0] <= 'Z')
    &&& name[1] == ':'
}

/// Whether `name` is a bare file name: one component of a path, and nothing
/// that would lead elsewhere. Both separators count on every platform. A drive
/// counts where `drives` says that the platform has such prefixes; elsewhere
/// `c:settings` is a name like any other.
pub open spec fn bare(name: Seq<char>, drives: bool) -> bool {
    &&& name.len() > 0
    &&& !name.contains('/')
    &&& !name.contains('\\')
    &&& name != seq!['.']
    &&& name != seq!['.', '.']
    &&& !(drives && drive_prefixed(name))
}

/// The characters of `name`.
fn characters(name: &str) -> (chars: Vec<char>)
    ensures
        chars@ == name@,
{
    let mut chars: Vec<char> = Vec::new();
    for c in it: name.chars()
        invariant
            chars@ == it.seq().take(it.index() as int),
            it.seq() == name@,
    {
        chars.push(c);
    }
    chars
}

/// Whether `file_name` is a bare file name, on a platform that has `drives` or
/// on one that has not.
pub fn is_bare_file_name(file_name: &str, drives: bool) -> (yes: bool)
    ensures
        yes == bare(file_name@, drives),
{
    let chars = characters(file_name);
    let mut i: usize = 0;
    while i < chars.len()
        invariant
            i <= chars.len(),
            chars@ == file_name@,
            forall|j: int| 0 <= j < i ==> chars@[j] != '/' && chars@[j] != '\\',
        decreases chars.len() - i,
    {
        if chars[i] == '/' || chars[i] == '\\' {
            assert(file_name@[i as int] == chars@[i as int]);
            return false;
        }
        i += 1;
    }
    if chars.len() == 0 {
        return false;
    }
    if chars.len() == 1 && chars[0] == '.' {
        assert(file_name@ =~= seq!['.']);
        return false;
    }
    if chars.len() == 2 && chars[0] == '.' && chars[1] == '.' {
        assert(file_name@ =~= seq!['.', '.']);
        return false;
    }
    if drives && chars.len() >= 2 && chars[1] == ':' {
        let first = chars[0];
        if ('a' <= first && first <= 'z') || ('A' <= first && first <= 'Z') {
            return false;
        }
    }
    true
}

/// The UTF-8 form of a character holds an ASCII byte only where it is that
/// character.
proof fn scalar_bytes(scalar: u32, byte: u8)
    requires
        vstd::utf8::is_scalar(scalar),
        byte < 0x80,
        scalar != byte as u32,
    ensures
        !vstd::utf8::encode_scalar(scalar).contains(byte),
{
    assert(scalar <= 0x7f ==> (scalar & 0x7f) as u8 == scalar) by (bit_vector);
    assert(0xC0 | ((scalar >> 6) & 0x1F) as u8 >= 0x80) by (bit_vector);
    assert(0xE0 | ((scalar >> 12) & 0x0F) as u8 >= 0x80) by (bit_vector);
    assert(0xF0 | ((scalar >> 18) & 0x7) as u8 >= 0x80) by (bit_vector);
    assert(0x80 | (scalar & 0x3F) as u8 >= 0x80) by (bit_vector);
    assert(0x80 | ((scalar >> 6) & 0x3F) as u8 >= 0x80) by (bit_vector);
    assert(0x80 | ((scalar >> 12) & 0x3F) as u8 >= 0x80) by (bit_vector);
}

/// The UTF-8 form of a text holds an ASCII byte only where the text holds that
/// character.
proof fn text_bytes(text: Seq<char>, c: char, byte: u8)
    requires
        byte < 0x80,
        c as u32 == byte as u32,
        !text.contains(c),
    ensures
        !vstd::utf8::encode_utf8(text).contains(byte),
    decreases text.len(),
{
    if text.len() > 0 {
        vstd::utf8::char_is_scalar(text[0]);
        assert(text.contains(text[0]));
        vstd::utf8::char_u32_cast(text[0], text[0] as u32);
        vstd::utf8::char_u32_cast(c, c as u32);
        scalar_bytes(text[0] as u32, byte);
        let rest = text.drop_first();
        assert forall|i: int| 0 <= i < rest.len() implies rest[i] != c by {
            assert(text.contains(text[i + 1]));
        }
        text_bytes(rest, c, byte);
        let first = vstd::utf8::encode_scalar(text[0] as u32);
        let bytes = vstd::utf8::encode_utf8(text);
        assert forall|i: int| 0 <= i < bytes.len() implies bytes[i] != byte by {
            if i < first.len() {
                assert(first.contains(first[i]));
            } else {
                assert(vstd::utf8::encode_utf8(rest).contains(
                    vstd::utf8::encode_utf8(rest)[i - first.len()],
                ));
            }
        }
    }
}

/// Two names are the same where their UTF-8 forms are.
pub proof fn same_encoding(left: Seq<char>, right: Seq<char>)
    requires
        vstd::utf8::encode_utf8(left) == vstd::utf8::encode_utf8(right),
    ensures
        left == right,
{
    vstd::utf8::encode_utf8_decode_utf8(left);
    vstd::utf8::encode_utf8_decode_utf8(right);
}

/// Discovery is no path probe. What a bare name adds to a directory is one
/// component: it is not empty, holds no separator, and is neither `.` nor `..`.
pub proof fn bare_names_are_one_component(name: Seq<char>, drives: bool)
    requires
        bare(name, drives),
    ensures
        vstd::utf8::encode_utf8(name).len() > 0,
        !vstd::utf8::encode_utf8(name).contains(0x2fu8),
        !vstd::utf8::encode_utf8(name).contains(0x5cu8),
        vstd::utf8::encode_utf8(name) != seq![0x2eu8],
        vstd::utf8::encode_utf8(name) != seq![0x2eu8, 0x2eu8],
{
    text_bytes(name, '/', 0x2f);
    text_bytes(name, '\\', 0x5c);
    assert((0x2eu32 & 0x7f) as u8 == 0x2e) by (bit_vector);
    let dot: Seq<char> = seq!['.'];
    let dots: Seq<char> = seq!['.', '.'];
    assert(dot.drop_first() =~= Seq::empty());
    assert(dots.drop_first() =~= dot);
    assert(vstd::utf8::encode_utf8(dot) =~= seq![0x2eu8]) by {
        reveal_with_fuel(vstd::utf8::encode_utf8, 2);
    }
    assert(vstd::utf8::encode_utf8(dots) =~= seq![0x2eu8, 0x2eu8]) by {
        reveal_with_fuel(vstd::utf8::encode_utf8, 2);
    }
    if vstd::utf8::encode_utf8(name) == seq![0x2eu8] {
        same_encoding(name, dot);
    }
    if vstd::utf8::encode_utf8(name) == seq![0x2eu8, 0x2eu8] {
        same_encoding(name, dots);
    }
    if vstd::utf8::encode_utf8(name).len() == 0 {
        assert(vstd::utf8::encode_utf8(name) =~= vstd::utf8::encode_utf8(Seq::empty()));
        same_encoding(name, Seq::empty());
    }
}

} // verus!

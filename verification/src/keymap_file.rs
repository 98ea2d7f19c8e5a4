//! The text of a keymap, out of the file that the server hands over.
use std::string::FromUtf8Error;
use vstd::prelude::*;

use crate::error::PortalError;

verus! {

/// Why a byte string is no UTF-8, as the standard library tells it.
#[verifier::external_type_specification]
#[verifier::external_body]
pub struct ExFromUtf8Error(FromUtf8Error);

/// `String::from_utf8`: the string that the bytes encode, or an error where they are
/// no UTF-8.
pub assume_specification[ String::from_utf8 ](vec: Vec<u8>) -> (text: Result<
    String,
    FromUtf8Error,
>)
    ensures
        text is Ok <==> vstd::utf8::valid_utf8(vec@),
        text matches Ok(text) ==> text@ == vstd::utf8::decode_utf8(vec@),
;

/// Why bytes are no keymap text.
#[derive(Debug)]
pub enum KeymapTextError {
    Refused(PortalError),
    NotUtf8(FromUtf8Error),
}

/// The bytes without their terminator, where they have one.
pub open spec fn without_terminator(bytes: Seq<u8>) -> Seq<u8> {
    if bytes.len() > 0 && bytes.last() == 0 {
        bytes.drop_last()
    } else {
        bytes
    }
}

/// Whether bytes are a keymap's text.
pub open spec fn is_keymap_text(bytes: Seq<u8>) -> bool {
    !without_terminator(bytes).contains(0) && vstd::utf8::valid_utf8(without_terminator(bytes))
}

/// The text that the bytes of a keymap hold.
pub open spec fn text_of(bytes: Seq<u8>) -> Seq<char>
    recommends
        is_keymap_text(bytes),
{
    vstd::utf8::decode_utf8(without_terminator(bytes))
}

/// Whether what the server hands over can hold a keymap of `size` bytes.
pub open spec fn file_verdict(is_file: bool, length: u64, size: u32) -> Result<(), PortalError> {
    if is_file && length >= size {
        Ok(())
    } else {
        Err(PortalError::KeymapNotBoundedFile)
    }
}

/// Checks what the server hands over for a keymap of `size` bytes: a regular file
/// that is long enough.
pub fn check_keymap_file(is_file: bool, length: u64, size: u32) -> (fits: Result<(), PortalError>)
    ensures
        fits == if is_file && length >= size {
            Ok(())
        } else {
            Err(PortalError::KeymapNotBoundedFile)
        },
        fits == file_verdict(is_file, length, size),
{
    if !is_file || length < size as u64 {
        return Err(PortalError::KeymapNotBoundedFile);
    }
    Ok(())
}

/// The text of a keymap. A server announces the keymap's length in bytes, with or
/// without a terminating NUL.
pub fn keymap_text(bytes: Vec<u8>) -> (text: Result<String, KeymapTextError>)
    ensures
        text is Ok <==> is_keymap_text(bytes@),
        text matches Ok(text) ==> text@ == text_of(bytes@),
        text matches Err(KeymapTextError::Refused(error)) ==> error
            == PortalError::KeymapEmbeddedNul,
        text matches Err(KeymapTextError::Refused(_)) <==> without_terminator(bytes@).contains(0),
{
    let ghost content = without_terminator(bytes@);
    let mut kept = bytes;
    if kept.len() > 0 && kept[kept.len() - 1] == 0 {
        kept.pop();
    }
    assert(kept@ =~= content);
    let mut i: usize = 0;
    while i < kept.len()
        invariant
            i <= kept@.len(),
            kept@ == content,
            content == without_terminator(bytes@),
            forall|j: int| 0 <= j < i ==> content[j] != 0,
        decreases kept@.len() - i,
    {
        if kept[i] == 0 {
            assert(content[i as int] == 0);
            return Err(KeymapTextError::Refused(PortalError::KeymapEmbeddedNul));
        }
        i += 1;
    }
    match String::from_utf8(kept) {
        Ok(text) => Ok(text),
        Err(error) => Err(KeymapTextError::NotUtf8(error)),
    }
}

/// Whether this is what becomes of the bytes of a keymap that a compiler is to compile.
pub open spec fn loads_as<K, F: FnOnce(String) -> Option<K>>(
    bytes: Seq<u8>,
    compile: F,
    keymap: Result<K, KeymapTextError>,
) -> bool {
    if without_terminator(bytes).contains(0) {
        keymap matches Err(KeymapTextError::Refused(PortalError::KeymapEmbeddedNul))
    } else if !is_keymap_text(bytes) {
        keymap matches Err(KeymapTextError::NotUtf8(_))
    } else {
        match keymap {
            Ok(keymap) => compiles_to(compile, text_of(bytes), Some(keymap)),
            Err(KeymapTextError::Refused(error)) => error == PortalError::KeymapNotLoaded
                && compiles_to(compile, text_of(bytes), None),
            Err(KeymapTextError::NotUtf8(_)) => false,
        }
    }
}

/// Whether `compiled` is what the compiler makes of a text.
pub open spec fn compiles_to<K, F: FnOnce(String) -> Option<K>>(
    compile: F,
    text: Seq<char>,
    compiled: Option<K>,
) -> bool {
    exists|given: String| given@ == text && #[trigger] call_ensures(compile, (given,), compiled)
}

/// The keymap in the bytes that the server hands over. The compiler is given their
/// text, and nothing where they are no text.
pub fn parse_keymap_bytes<K, F: FnOnce(String) -> Option<K>>(bytes: Vec<u8>, compile: F) -> (keymap:
    Result<K, KeymapTextError>)
    requires
        forall|text: String|
            is_keymap_text(bytes@) && text@ == text_of(bytes@) ==> #[trigger] call_requires(
                compile,
                (text,),
            ),
    ensures
        is_keymap_text(bytes@) ==> match keymap {
            Ok(keymap) => compiles_to(compile, text_of(bytes@), Some(keymap)),
            Err(KeymapTextError::Refused(error)) => error == PortalError::KeymapNotLoaded
                && compiles_to(compile, text_of(bytes@), None),
            Err(KeymapTextError::NotUtf8(_)) => false,
        },
        !is_keymap_text(bytes@) ==> match keymap {
            Ok(_) => false,
            Err(KeymapTextError::Refused(error)) => error == PortalError::KeymapEmbeddedNul
                && without_terminator(bytes@).contains(0),
            Err(KeymapTextError::NotUtf8(_)) => !without_terminator(bytes@).contains(0),
        },
        loads_as(bytes@, compile, keymap),
{
    let text = match keymap_text(bytes) {
        Ok(text) => text,
        Err(error) => return Err(error),
    };
    match compile(text) {
        Some(keymap) => {
            assert(call_ensures(compile, (text,), Some(keymap)));
            Ok(keymap)
        },
        None => {
            assert(call_ensures(compile, (text,), None::<K>));
            Err(KeymapTextError::Refused(PortalError::KeymapNotLoaded))
        },
    }
}

/// A NUL character is encoded as a NUL byte.
proof fn lemma_nul_is_encoded(chars: Seq<char>, at: int)
    requires
        0 <= at < chars.len(),
        chars[at] == '\0',
    ensures
        vstd::utf8::encode_utf8(chars).contains(0),
    decreases chars.len(),
{
    let first = vstd::utf8::encode_scalar(chars[0] as u32);
    let rest = vstd::utf8::encode_utf8(chars.drop_first());
    assert(vstd::utf8::encode_utf8(chars) == first + rest);
    if at == 0 {
        assert(vstd::utf8::leading_byte_width_1(0) == 0) by (bit_vector);
        assert((first + rest)[0] == 0);
    } else {
        lemma_nul_is_encoded(chars.drop_first(), at - 1);
        let i = choose|i: int| 0 <= i < rest.len() && rest[i] == 0;
        assert((first + rest)[first.len() + i] == 0);
    }
}

/// A terminator changes nothing: bytes that do not end in NUL hold the same text as
/// the same bytes with a NUL after them.
pub proof fn law_terminator_is_optional(bytes: Seq<u8>)
    requires
        bytes.len() == 0 || bytes.last() != 0,
    ensures
        is_keymap_text(bytes.push(0)) == is_keymap_text(bytes),
        text_of(bytes.push(0)) == text_of(bytes),
{
    assert(bytes.push(0).drop_last() =~= bytes);
}

/// A NUL anywhere but at the end makes bytes no keymap text.
pub proof fn law_embedded_nul_is_refused(bytes: Seq<u8>, at: int)
    requires
        0 <= at < bytes.len() - 1,
        bytes[at] == 0,
    ensures
        !is_keymap_text(bytes),
{
    assert(without_terminator(bytes)[at] == 0);
}

/// The text of a keymap holds no NUL character, so it can be handed to a C function.
pub proof fn law_text_has_no_nul(bytes: Seq<u8>)
    requires
        is_keymap_text(bytes),
    ensures
        !text_of(bytes).contains('\0'),
{
    let text = text_of(bytes);
    vstd::utf8::decode_utf8_encode_utf8(without_terminator(bytes));
    if text.contains('\0') {
        let at = choose|at: int| 0 <= at < text.len() && text[at] == '\0';
        lemma_nul_is_encoded(text, at);
    }
}

/// No byte of an encoded character is NUL but for the NUL character's own.
proof fn lemma_scalar_has_no_nul(c: char)
    requires
        c != '\0',
    ensures
        !vstd::utf8::encode_scalar(c as u32).contains(0),
{
    let v = c as u32;
    vstd::utf8::char_is_scalar(c);
    if vstd::utf8::has_width_1_encoding(v) {
        assert(vstd::utf8::leading_byte_width_1(v) != 0) by (bit_vector)
            requires
                0 < v <= 0x7f,
        ;
    } else {
        assert(vstd::utf8::leading_byte_width_2(v) != 0) by (bit_vector);
        assert(vstd::utf8::leading_byte_width_3(v) != 0) by (bit_vector);
        assert(vstd::utf8::leading_byte_width_4(v) != 0) by (bit_vector);
        assert(vstd::utf8::last_continuation_byte(v) != 0) by (bit_vector);
        assert(vstd::utf8::second_last_continuation_byte(v) != 0) by (bit_vector);
        assert(vstd::utf8::third_last_continuation_byte(v) != 0) by (bit_vector);
    }
}

/// A text without NUL characters is encoded without NUL bytes.
proof fn lemma_text_has_no_nul_byte(text: Seq<char>)
    requires
        !text.contains('\0'),
    ensures
        !vstd::utf8::encode_utf8(text).contains(0),
    decreases text.len(),
{
    if text.len() > 0 {
        let rest = text.drop_first();
        assert(text.contains(text[0]));
        assert forall|c: char| rest.contains(c) implies text.contains(c) by {
            let i = choose|i: int| 0 <= i < rest.len() && rest[i] == c;
            assert(text[i + 1] == c);
        }
        lemma_scalar_has_no_nul(text[0]);
        lemma_text_has_no_nul_byte(rest);
        let head = vstd::utf8::encode_scalar(text[0] as u32);
        let tail = vstd::utf8::encode_utf8(rest);
        assert(vstd::utf8::encode_utf8(text) == head + tail);
        if (head + tail).contains(0) {
            let i = choose|i: int| 0 <= i < (head + tail).len() && (head + tail)[i] == 0;
            if i < head.len() {
                assert(head.contains(head[i]));
            } else {
                assert(tail.contains(tail[i - head.len()]));
            }
        }
    }
}

/// The text of a keymap is the whole of it: it encodes to exactly the bytes handed over,
/// without one terminating NUL where there is one.
pub proof fn law_text_is_whole(bytes: Seq<u8>)
    requires
        is_keymap_text(bytes),
    ensures
        bytes.len() > 0 && bytes.last() == 0 ==> vstd::utf8::encode_utf8(text_of(bytes)).push(0)
            == bytes,
        bytes.len() == 0 || bytes.last() != 0 ==> vstd::utf8::encode_utf8(text_of(bytes)) == bytes,
{
    vstd::utf8::decode_utf8_encode_utf8(without_terminator(bytes));
    if bytes.len() > 0 && bytes.last() == 0 {
        assert(bytes.drop_last().push(0) =~= bytes);
    }
}

/// Every text without NUL characters, of any length, comes through: its encoding is a
/// keymap text, terminated or not, and holds just that text.
pub proof fn law_every_text_comes_through(text: Seq<char>)
    requires
        !text.contains('\0'),
    ensures
        is_keymap_text(vstd::utf8::encode_utf8(text)),
        text_of(vstd::utf8::encode_utf8(text)) == text,
        is_keymap_text(vstd::utf8::encode_utf8(text).push(0)),
        text_of(vstd::utf8::encode_utf8(text).push(0)) == text,
{
    let bytes = vstd::utf8::encode_utf8(text);
    lemma_text_has_no_nul_byte(text);
    vstd::utf8::encode_utf8_valid_utf8(text);
    vstd::utf8::encode_utf8_decode_utf8(text);
    if bytes.len() > 0 {
        assert(bytes.contains(bytes.last()));
    }
    law_terminator_is_optional(bytes);
}

/// Exactly one terminating NUL is taken off, and nothing else ever.
pub proof fn law_one_terminator_is_taken_off(bytes: Seq<u8>)
    ensures
        without_terminator(bytes.push(0)) == bytes,
        bytes.len() > 0 && bytes.last() != 0 ==> without_terminator(bytes) == bytes,
        without_terminator(Seq::<u8>::empty()) == Seq::<u8>::empty(),
{
    assert(bytes.push(0).drop_last() =~= bytes);
}

/// What becomes of bytes, with a compiler whose result depends on the text alone. A NUL
/// before the end is refused; so are bytes that encode no text, which the compiler never
/// sees; every other text is compiled as it is, and refused where it does not compile.
pub proof fn law_loading<K, F: FnOnce(String) -> Option<K>>(
    bytes: Seq<u8>,
    compile: F,
    keymap: Result<K, KeymapTextError>,
    made_of: spec_fn(Seq<char>) -> Option<K>,
)
    requires
        loads_as(bytes, compile, keymap),
        forall|text: String, compiled: Option<K>| #[trigger]
            call_ensures(compile, (text,), compiled) ==> compiled == made_of(text@),
    ensures
        (exists|at: int| 0 <= at < bytes.len() - 1 && #[trigger] bytes[at] == 0) ==> keymap matches Err(
            KeymapTextError::Refused(PortalError::KeymapEmbeddedNul),
        ),
        (forall|at: int| 0 <= at < bytes.len() - 1 ==> #[trigger] bytes[at] != 0) && (forall|
            text: Seq<char>,
        |
            #![trigger vstd::utf8::encode_utf8(text)]
            vstd::utf8::encode_utf8(text) != bytes && vstd::utf8::encode_utf8(text).push(0)
                != bytes) ==> keymap matches Err(KeymapTextError::NotUtf8(_)),
        forall|text: Seq<char>|
            #![trigger vstd::utf8::encode_utf8(text)]
            !text.contains('\0') && (vstd::utf8::encode_utf8(text) == bytes
                || vstd::utf8::encode_utf8(text).push(0) == bytes) ==> match made_of(text) {
                Some(made) => keymap == Ok::<_, KeymapTextError>(made),
                None => keymap matches Err(KeymapTextError::Refused(PortalError::KeymapNotLoaded)),
            },
{
    if exists|at: int| 0 <= at < bytes.len() - 1 && #[trigger] bytes[at] == 0 {
        let at = choose|at: int| 0 <= at < bytes.len() - 1 && #[trigger] bytes[at] == 0;
        law_embedded_nul_is_refused(bytes, at);
        assert(without_terminator(bytes)[at] == 0);
    }
    if is_keymap_text(bytes) {
        law_text_is_whole(bytes);
    }
    if without_terminator(bytes).contains(0) {
        let at = choose|at: int|
            0 <= at < without_terminator(bytes).len() && without_terminator(bytes)[at] == 0;
        assert(bytes[at] == 0);
    }
    assert forall|text: Seq<char>|
        #![trigger vstd::utf8::encode_utf8(text)]
        !text.contains('\0') && (vstd::utf8::encode_utf8(text) == bytes
            || vstd::utf8::encode_utf8(text).push(0) == bytes) implies match made_of(text) {
        Some(made) => keymap == Ok::<_, KeymapTextError>(made),
        None => keymap matches Err(KeymapTextError::Refused(PortalError::KeymapNotLoaded)),
    } by {
        law_every_text_comes_through(text);
    }
}

/// A keymap's file is taken exactly where it is a regular file that holds at least the
/// announced bytes; a longer file is no worse.
pub proof fn law_file_is_bounded(is_file: bool, length: u64, size: u32)
    ensures
        file_verdict(is_file, length, size) is Ok <==> is_file && size <= length,
        file_verdict(is_file, length, size) is Err ==> file_verdict(is_file, length, size)
            == Err::<(), _>(PortalError::KeymapNotBoundedFile),
{
}

} // verus!

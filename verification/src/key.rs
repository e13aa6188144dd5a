//! The key of a hotspot: the last segment of the URI of its metadata.

use vstd::prelude::*;
use vstd::utf8::{
    encode_scalar, encode_utf8, encode_utf8_decode_utf8, encode_utf8_valid_utf8, is_char_boundary,
    is_char_boundary_iff_is_leading_byte, is_char_boundary_iff_not_is_continuation_byte,
    is_char_boundary_start_end_of_seq, pop_first_scalar, valid_utf8, valid_utf8_split,
};

verus! {

/// The byte that parts the segments of a path.
pub const SLASH: u8 = 47;

/// Where the last segment of a path starts: behind its last separator, or at
/// its start where it holds none.
pub open spec fn segment_start<A>(path: Seq<A>, separator: A) -> int
    decreases path.len(),
{
    if path.len() == 0 {
        0
    } else if path.last() == separator {
        path.len() as int
    } else {
        segment_start(path.drop_last(), separator)
    }
}

/// The last segment of a path: what follows its last separator, or all of it
/// where it holds none.
pub open spec fn last_segment<A>(path: Seq<A>, separator: A) -> Seq<A> {
    path.subrange(segment_start(path, separator), path.len() as int)
}

/// The key of the hotspot whose metadata lies at `uri`: what follows the
/// last slash of the URI.
pub open spec fn hotspot_key_of(uri: Seq<char>) -> Seq<char> {
    last_segment(uri, '/')
}

/// The last segment holds no separator, and a separator stands before it
/// unless it is the whole path.
pub proof fn last_segment_is_last<A>(path: Seq<A>, separator: A)
    ensures
        0 <= segment_start(path, separator) <= path.len(),
        forall|i: int| segment_start(path, separator) <= i < path.len() ==> path[i] != separator,
        segment_start(path, separator) > 0 ==> path[segment_start(path, separator) - 1]
            == separator,
    decreases path.len(),
{
    if path.len() > 0 && path.last() != separator {
        let front = path.drop_last();
        last_segment_is_last(front, separator);
        assert forall|i: int| segment_start(path, separator) <= i < path.len() implies path[i]
            != separator by {
            if i < front.len() {
                assert(path[i] == front[i]);
            }
        }
    }
}

/// What follows a path without a separator in it belongs to the path's last
/// segment.
proof fn segment_grows<A>(path: Seq<A>, more: Seq<A>, separator: A)
    requires
        !more.contains(separator),
    ensures
        segment_start(path + more, separator) == segment_start(path, separator),
        last_segment(path + more, separator) == last_segment(path, separator) + more,
    decreases more.len(),
{
    last_segment_is_last(path, separator);
    if more.len() == 0 {
        assert(path + more =~= path);
    } else {
        let front = more.drop_last();
        assert((path + more).drop_last() =~= path + front);
        assert((path + more).last() == more[more.len() - 1]);
        assert(more.contains(more[more.len() - 1]));
        assert forall|i: int| 0 <= i < front.len() implies front[i] != separator by {
            assert(more.contains(more[i]));
        }
        segment_grows(path, front, separator);
    }
    assert(last_segment(path + more, separator) =~= last_segment(path, separator) + more);
}

/// A path without a separator is its own last segment.
pub proof fn path_without_separator_is_one_segment<A>(path: Seq<A>, separator: A)
    requires
        !path.contains(separator),
    ensures
        last_segment(path, separator) == path,
{
    segment_grows(Seq::<A>::empty(), path, separator);
    assert(Seq::<A>::empty() + path =~= path);
    assert(last_segment(Seq::<A>::empty(), separator) + path =~= path);
}

/// In well-formed UTF-8 a character starts behind every byte below 128.
proof fn boundary_behind_ascii(bytes: Seq<u8>, i: int)
    requires
        valid_utf8(bytes),
        0 <= i < bytes.len(),
        bytes[i] < 128,
    ensures
        is_char_boundary(bytes, i + 1),
{
    is_char_boundary_iff_not_is_continuation_byte(bytes, i);
    if i + 1 == bytes.len() {
        is_char_boundary_start_end_of_seq(bytes);
    } else {
        valid_utf8_split(bytes, i);
        let tail = bytes.subrange(i, bytes.len() as int);
        assert(tail[0] == bytes[i]);
        let rest = pop_first_scalar(tail);
        assert(valid_utf8(rest));
        assert(rest.len() > 0);
        assert(rest[0] == bytes[i + 1]);
        is_char_boundary_iff_is_leading_byte(bytes, i + 1);
    }
}

/// In well-formed UTF-8 the last segment starts where a character starts.
proof fn segment_starts_a_character(bytes: Seq<u8>)
    requires
        valid_utf8(bytes),
    ensures
        is_char_boundary(bytes, segment_start(bytes, SLASH)),
{
    last_segment_is_last(bytes, SLASH);
    let start = segment_start(bytes, SLASH);
    if start == 0 {
        is_char_boundary_start_end_of_seq(bytes);
    } else {
        boundary_behind_ascii(bytes, start - 1);
    }
}

/// The bytes of a character behind those of the characters before it.
proof fn encode_push(text: Seq<char>, c: char)
    ensures
        encode_utf8(text.push(c)) == encode_utf8(text) + encode_scalar(c as u32),
    decreases text.len(),
{
    let all = text.push(c);
    if text.len() == 0 {
        assert(all[0] == c);
        assert(all.drop_first() =~= text);
        assert(encode_utf8(text) =~= Seq::<u8>::empty());
        assert(encode_utf8(all) == encode_scalar(c as u32) + encode_utf8(all.drop_first()));
        assert(encode_utf8(all) =~= encode_scalar(c as u32));
        assert(encode_utf8(text) + encode_scalar(c as u32) =~= encode_scalar(c as u32));
    } else {
        assert(all.drop_first() =~= text.drop_first().push(c));
        encode_push(text.drop_first(), c);
        assert(encode_utf8(all) =~= encode_utf8(text) + encode_scalar(c as u32));
    }
}

/// Of all characters only the slash has the byte of a slash among its bytes,
/// and it has no other.
proof fn slash_byte_is_slash(c: char)
    ensures
        c == '/' ==> encode_scalar(c as u32) == seq![SLASH],
        c != '/' ==> !encode_scalar(c as u32).contains(SLASH),
{
    let s = c as u32;
    assert(s <= 0x7f ==> ((s & 0x7F) as u8 == 47 <==> s == 47)) by (bit_vector);
    assert(0xC0u8 | ((s >> 6) & 0x1F) as u8 >= 0x80) by (bit_vector);
    assert(0xE0u8 | ((s >> 12) & 0x0F) as u8 >= 0x80) by (bit_vector);
    assert(0xF0u8 | ((s >> 18) & 0x7) as u8 >= 0x80) by (bit_vector);
    assert(0x80u8 | (s & 0x3F) as u8 >= 0x80) by (bit_vector);
    assert(0x80u8 | ((s >> 6) & 0x3F) as u8 >= 0x80) by (bit_vector);
    assert(0x80u8 | ((s >> 12) & 0x3F) as u8 >= 0x80) by (bit_vector);
    if c == '/' {
        assert(encode_scalar(s) =~= seq![SLASH]);
    }
}

/// The last segment of a text's UTF-8 bytes is the UTF-8 of the text's last
/// segment: splitting at slashes gives the same for characters and for bytes.
pub proof fn segment_of_bytes_is_segment_of_text(text: Seq<char>)
    ensures
        last_segment(encode_utf8(text), SLASH) == encode_utf8(last_segment(text, '/')),
    decreases text.len(),
{
    if text.len() == 0 {
        assert(last_segment(text, '/') =~= text);
        assert(last_segment(encode_utf8(text), SLASH) =~= encode_utf8(text));
    } else {
        let front = text.drop_last();
        let c = text.last();
        let scalar = encode_scalar(c as u32);
        assert(text =~= front.push(c));
        encode_push(front, c);
        slash_byte_is_slash(c);
        if c == '/' {
            assert(encode_utf8(text).last() == SLASH);
            assert(last_segment(text, '/') =~= Seq::<char>::empty());
            assert(last_segment(encode_utf8(text), SLASH) =~= Seq::<u8>::empty());
        } else {
            segment_of_bytes_is_segment_of_text(front);
            segment_grows(encode_utf8(front), scalar, SLASH);
            assert(seq![c][0] == c);
            segment_grows(front, seq![c], '/');
            assert(front + seq![c] =~= text);
            encode_push(last_segment(front, '/'), c);
            assert(last_segment(front, '/') + seq![c] =~= last_segment(front, '/').push(c));
        }
    }
}

/// The key of a hotspot: the last segment of the URI of its metadata. A URI
/// without a slash is the key as it stands.
pub fn hotspot_key(uri: &str) -> (key: &str)
    ensures
        key@ == hotspot_key_of(uri@),
{
    let bytes = uri.as_bytes();
    let mut start: usize = bytes.len();
    assert(bytes@.subrange(0, start as int) == bytes@);
    while start > 0 && bytes[start - 1] != SLASH
        invariant
            start <= bytes@.len(),
            segment_start(bytes@, SLASH) == segment_start(bytes@.subrange(0, start as int), SLASH),
        decreases start,
    {
        assert(bytes@.subrange(0, start as int).drop_last() == bytes@.subrange(
            0,
            start as int - 1,
        ));
        start -= 1;
    }
    proof {
        encode_utf8_valid_utf8(uri@);
        segment_starts_a_character(bytes@);
    }
    let (_, key) = uri.split_at(start);
    proof {
        segment_of_bytes_is_segment_of_text(uri@);
        encode_utf8_decode_utf8(key@);
        encode_utf8_decode_utf8(hotspot_key_of(uri@));
    }
    key
}

} // verus!

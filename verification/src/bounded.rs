//! The fixed-capacity collections of `heapless` that frames, received
//! characters, messages and credentials are kept in, with what each of
//! their operations used here does to their contents.
use vstd::prelude::*;
use vstd::string::StringSliceAdditionalSpecFns;

verus! {

#[verifier::external_type_specification]
#[verifier::external_body]
#[verifier::reject_recursive_types(T)]
pub struct ExBoundedVec<T, const N: usize>(heapless::Vec<T, N>);

#[verifier::external_type_specification]
#[verifier::external_body]
pub struct ExBoundedString<const N: usize>(heapless::String<N>);

/// `Clone for heapless::String<N>`; what the copy holds is not stated here
/// (no verified code reads a copy).
pub assume_specification<const N: usize>[ <heapless::String<N> as Clone>::clone ](
    s: &heapless::String<N>,
) -> heapless::String<N>;

/// The bits held by a frame buffer, in order.
pub uninterp spec fn frame_items(v: heapless::Vec<u8, 16>) -> Seq<u8>;

/// The characters held by a character buffer, in order.
pub uninterp spec fn char_items(v: heapless::Vec<char, 256>) -> Seq<char>;

/// The UTF-8 bytes of a 256-byte string.
pub uninterp spec fn message_bytes(s: heapless::String<256>) -> Seq<u8>;

/// The UTF-8 bytes of a 32-byte string.
pub uninterp spec fn short_bytes(s: heapless::String<32>) -> Seq<u8>;

/// The UTF-8 bytes of a 64-byte string.
pub uninterp spec fn medium_bytes(s: heapless::String<64>) -> Seq<u8>;

/// `heapless::Vec::<u8, 16>::new`: an empty frame buffer.
#[verifier::external_body]
pub(crate) fn frame_new() -> (res: heapless::Vec<u8, 16>)
    ensures
        frame_items(res) == Seq::<u8>::empty(),
{
    heapless::Vec::new()
}

/// `heapless::Vec::<u8, 16>::push`: appends when fewer than 16 bits are
/// held, otherwise hands the bit back and changes nothing.
#[verifier::external_body]
pub(crate) fn frame_push(v: &mut heapless::Vec<u8, 16>, bit: u8) -> (res: Result<(), u8>)
    ensures
        res is Ok <==> frame_items(*old(v)).len() < 16,
        res is Ok ==> frame_items(*final(v)) == frame_items(*old(v)).push(bit),
        res matches Err(b) ==> b == bit,
        res is Err ==> frame_items(*final(v)) == frame_items(*old(v)),
        frame_items(*final(v)).len() <= 16,
{
    v.push(bit)
}

/// `heapless::Vec::<u8, 16>::as_slice`: the bits held.
#[verifier::external_body]
pub(crate) fn frame_slice(v: &heapless::Vec<u8, 16>) -> (res: &[u8])
    ensures
        res@ == frame_items(*v),
        res@.len() <= 16,
{
    v.as_slice()
}

/// `heapless::Vec::<char, 256>::new`: an empty character buffer.
#[verifier::external_body]
pub(crate) fn chars_new() -> (res: heapless::Vec<char, 256>)
    ensures
        char_items(res) == Seq::<char>::empty(),
{
    heapless::Vec::new()
}

/// `heapless::Vec::<char, 256>::push`: appends when fewer than 256
/// characters are held, otherwise hands the character back.
#[verifier::external_body]
pub(crate) fn chars_push(v: &mut heapless::Vec<char, 256>, c: char) -> (res: Result<(), char>)
    ensures
        res is Ok <==> char_items(*old(v)).len() < 256,
        res is Ok ==> char_items(*final(v)) == char_items(*old(v)).push(c),
        res matches Err(b) ==> b == c,
        res is Err ==> char_items(*final(v)) == char_items(*old(v)),
        char_items(*final(v)).len() <= 256,
{
    v.push(c)
}

/// `heapless::Vec::<char, 256>::clear`.
#[verifier::external_body]
pub(crate) fn chars_clear(v: &mut heapless::Vec<char, 256>)
    ensures
        char_items(*final(v)) == Seq::<char>::empty(),
{
    v.clear()
}

/// `heapless::Vec::<char, 256>::len`.
#[verifier::external_body]
pub(crate) fn chars_len(v: &heapless::Vec<char, 256>) -> (res: usize)
    ensures
        res == char_items(*v).len(),
        res <= 256,
{
    v.len()
}

/// The bytes of ASCII characters.
pub open spec fn ascii_bytes(s: Seq<char>) -> Seq<u8> {
    s.map_values(|c: char| c as u8)
}

/// `FromIterator<&char> for heapless::String<256>` over ASCII characters,
/// each of which takes one byte, so that all of them fit.
#[verifier::external_body]
pub(crate) fn chars_collect(v: &heapless::Vec<char, 256>) -> (res: heapless::String<256>)
    requires
        forall|i: int| 0 <= i < char_items(*v).len() ==> (#[trigger] char_items(*v)[i] as u32) < 128,
        char_items(*v).len() <= 256,
    ensures
        message_bytes(res) == ascii_bytes(char_items(*v)),
{
    v.iter().collect()
}

/// `heapless::String::<256>::new`.
#[verifier::external_body]
pub(crate) fn message_new() -> (res: heapless::String<256>)
    ensures
        message_bytes(res) == Seq::<u8>::empty(),
{
    heapless::String::new()
}

/// `heapless::String::<256>::push_str`: appends the bytes of `t` when they
/// fit in 256 bytes in all, otherwise fails and changes nothing.
#[verifier::external_body]
pub(crate) fn message_push_str(s: &mut heapless::String<256>, t: &str) -> (res: Result<(), ()>)
    ensures
        res is Ok <==> message_bytes(*old(s)).len() + t.spec_bytes().len() <= 256,
        res is Ok ==> message_bytes(*final(s)) == message_bytes(*old(s)) + t.spec_bytes(),
        res is Err ==> message_bytes(*final(s)) == message_bytes(*old(s)),
{
    s.push_str(t)
}

/// `heapless::String::<256>::as_str`.
#[verifier::external_body]
pub(crate) fn message_as_str(s: &heapless::String<256>) -> (res: &str)
    ensures
        res.spec_bytes() == message_bytes(*s),
        res.spec_bytes().len() <= 256,
{
    s.as_str()
}

/// `heapless::String::<32>::new`.
#[verifier::external_body]
pub(crate) fn short_new() -> (res: heapless::String<32>)
    ensures
        short_bytes(res) == Seq::<u8>::empty(),
{
    heapless::String::new()
}

/// `heapless::String::<32>::push_str`: as for 256 bytes, with room for 32.
#[verifier::external_body]
pub(crate) fn short_push_str(s: &mut heapless::String<32>, t: &str) -> (res: Result<(), ()>)
    ensures
        res is Ok <==> short_bytes(*old(s)).len() + t.spec_bytes().len() <= 32,
        res is Ok ==> short_bytes(*final(s)) == short_bytes(*old(s)) + t.spec_bytes(),
        res is Err ==> short_bytes(*final(s)) == short_bytes(*old(s)),
{
    s.push_str(t)
}

/// `heapless::String::<32>::as_str`.
#[verifier::external_body]
pub(crate) fn short_as_str(s: &heapless::String<32>) -> (res: &str)
    ensures
        res.spec_bytes() == short_bytes(*s),
        res.spec_bytes().len() <= 32,
{
    s.as_str()
}

/// `heapless::String::<64>::new`.
#[verifier::external_body]
pub(crate) fn medium_new() -> (res: heapless::String<64>)
    ensures
        medium_bytes(res) == Seq::<u8>::empty(),
{
    heapless::String::new()
}

/// `heapless::String::<64>::push_str`: as for 256 bytes, with room for 64.
#[verifier::external_body]
pub(crate) fn medium_push_str(s: &mut heapless::String<64>, t: &str) -> (res: Result<(), ()>)
    ensures
        res is Ok <==> medium_bytes(*old(s)).len() + t.spec_bytes().len() <= 64,
        res is Ok ==> medium_bytes(*final(s)) == medium_bytes(*old(s)) + t.spec_bytes(),
        res is Err ==> medium_bytes(*final(s)) == medium_bytes(*old(s)),
{
    s.push_str(t)
}

/// `heapless::String::<64>::as_str`.
#[verifier::external_body]
pub(crate) fn medium_as_str(s: &heapless::String<64>) -> (res: &str)
    ensures
        res.spec_bytes() == medium_bytes(*s),
        res.spec_bytes().len() <= 64,
{
    s.as_str()
}

} // verus!

//! Small inline buffers (the `smallvec` crate) holding short whitespace runs.
use vstd::prelude::*;
use smallvec::SmallVec;

verus! {

/// A run of characters in a `SmallVec` with four inline slots. Verus cannot
/// read `smallvec`'s declaration (its `Array` bound), so the buffer is held
/// here and reached only through the functions below.
#[verifier::external_body]
pub struct CharBuf {
    inner: SmallVec<[char; 4]>,
}

/// A run of bytes in a `SmallVec` with four inline slots.
#[verifier::external_body]
pub struct ByteBuf {
    inner: SmallVec<[u8; 4]>,
}

/// The characters held by a character buffer, in order.
pub uninterp spec fn char_buf_items(v: CharBuf) -> Seq<char>;

/// The bytes held by a byte buffer, in order.
pub uninterp spec fn byte_buf_items(v: ByteBuf) -> Seq<u8>;

/// `SmallVec::new`: an empty buffer.
#[verifier::external_body]
pub fn char_buf_new() -> (r: CharBuf)
    ensures
        char_buf_items(r) == Seq::<char>::empty(),
{
    CharBuf { inner: SmallVec::new() }
}

/// `SmallVec::push`: appends one item at the end. As with `Vec::push`, the
/// panic on a capacity that memory cannot hold is not stated.
#[verifier::external_body]
pub fn char_buf_push(v: &mut CharBuf, c: char)
    ensures
        char_buf_items(*final(v)) == char_buf_items(*old(v)).push(c),
{
    v.inner.push(c);
}

/// `SmallVec::len`: the number of items held.
#[verifier::external_body]
pub fn char_buf_len(v: &CharBuf) -> (r: usize)
    ensures
        r == char_buf_items(*v).len(),
{
    v.inner.len()
}

/// Indexing (`v[i]`): the item at position `i`; it panics out of bounds, so
/// `i` must be in bounds.
#[verifier::external_body]
pub fn char_buf_get(v: &CharBuf, i: usize) -> (r: char)
    requires
        i < char_buf_items(*v).len(),
    ensures
        r == char_buf_items(*v)[i as int],
{
    v.inner[i]
}

/// `SmallVec::clear`: removes every item.
#[verifier::external_body]
pub fn char_buf_clear(v: &mut CharBuf)
    ensures
        char_buf_items(*final(v)) == Seq::<char>::empty(),
{
    v.inner.clear();
}

/// `SmallVec::new`: an empty buffer.
#[verifier::external_body]
pub fn byte_buf_new() -> (r: ByteBuf)
    ensures
        byte_buf_items(r) == Seq::<u8>::empty(),
{
    ByteBuf { inner: SmallVec::new() }
}

/// `SmallVec::push`: appends one item at the end. As with `Vec::push`, the
/// panic on a capacity that memory cannot hold is not stated.
#[verifier::external_body]
pub fn byte_buf_push(v: &mut ByteBuf, b: u8)
    ensures
        byte_buf_items(*final(v)) == byte_buf_items(*old(v)).push(b),
{
    v.inner.push(b);
}

/// `SmallVec::len`: the number of items held.
#[verifier::external_body]
pub fn byte_buf_len(v: &ByteBuf) -> (r: usize)
    ensures
        r == byte_buf_items(*v).len(),
{
    v.inner.len()
}

/// `SmallVec::is_empty`: whether no item is held.
#[verifier::external_body]
pub fn byte_buf_is_empty(v: &ByteBuf) -> (r: bool)
    ensures
        r == (byte_buf_items(*v).len() == 0),
{
    v.inner.is_empty()
}

/// Indexing (`v[i]`): the item at position `i`; it panics out of bounds, so
/// `i` must be in bounds.
#[verifier::external_body]
pub fn byte_buf_get(v: &ByteBuf, i: usize) -> (r: u8)
    requires
        i < byte_buf_items(*v).len(),
    ensures
        r == byte_buf_items(*v)[i as int],
{
    v.inner[i]
}

/// `SmallVec::clear`: removes every item.
#[verifier::external_body]
pub fn byte_buf_clear(v: &mut ByteBuf)
    ensures
        byte_buf_items(*final(v)) == Seq::<u8>::empty(),
{
    v.inner.clear();
}


} // verus!

use vstd::prelude::*;

verus! {

/// One information element: its element id and its body (the bytes after
/// the two-byte id/length header).
pub type Element = (u8, Seq<u8>);

/// The sequence of information elements that a walk over `s` yields.
///
/// A walk reads an id byte and a length byte, takes that many body bytes and
/// continues after them.  It stops as soon as fewer than two bytes remain or
/// the announced body does not fit in what remains; trailing bytes are
/// ignored.
pub open spec fn elements(s: Seq<u8>) -> Seq<Element>
    decreases s.len(),
{
    if s.len() < 2 {
        seq![]
    } else if 2 + s[1] > s.len() {
        seq![]
    } else {
        seq![(s[0], s.subrange(2, 2 + s[1] as int))] + elements(
            s.subrange(2 + s[1] as int, s.len() as int),
        )
    }
}

/// One step of the walk: at an offset where a whole element fits, the
/// elements from that offset are that element followed by the elements after
/// it.
pub proof fn lemma_elements_step(data: Seq<u8>, pos: int)
    requires
        0 <= pos,
        pos + 1 < data.len(),
        pos + 2 + data[pos + 1] <= data.len(),
    ensures
        elements(data.subrange(pos, data.len() as int)) == seq![
            (data[pos], data.subrange(pos + 2, pos + 2 + data[pos + 1] as int)),
        ] + elements(data.subrange(pos + 2 + data[pos + 1] as int, data.len() as int)),
{
    let s = data.subrange(pos, data.len() as int);
    let l = data[pos + 1] as int;
    assert(s[0] == data[pos]);
    assert(s[1] == data[pos + 1]);
    assert(s.subrange(2, 2 + l) =~= data.subrange(pos + 2, pos + 2 + l));
    assert(s.subrange(2 + l, s.len() as int) =~= data.subrange(pos + 2 + l, data.len() as int));
}

/// Where the walk stops, no element remains.
pub proof fn lemma_elements_stop(data: Seq<u8>, pos: int)
    requires
        0 <= pos <= data.len(),
        pos + 1 >= data.len() || pos + 2 + data[pos + 1] > data.len(),
    ensures
        elements(data.subrange(pos, data.len() as int)) == Seq::<Element>::empty(),
{
    let s = data.subrange(pos, data.len() as int);
    if pos + 1 < data.len() {
        assert(s[1] == data[pos + 1]);
    }
}

/// The walk starts at offset zero.
pub proof fn lemma_elements_start(data: Seq<u8>)
    ensures
        data.subrange(0, data.len() as int) == data,
{
    assert(data.subrange(0, data.len() as int) =~= data);
}

/// Every element body is at most 255 bytes long.
pub proof fn lemma_element_body_len(s: Seq<u8>, i: int)
    requires
        0 <= i < elements(s).len(),
    ensures
        elements(s)[i].1.len() <= 255,
    decreases s.len(),
{
    if s.len() >= 2 && 2 + s[1] <= s.len() {
        if i > 0 {
            lemma_element_body_len(s.subrange(2 + s[1] as int, s.len() as int), i - 1);
        }
    }
}

} // verus!

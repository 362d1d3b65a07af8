//! Widest channel an access point advertises, from its element list.
use vstd::prelude::*;
use crate::parser::elements::{
    elements, lemma_elements_start, lemma_elements_step, lemma_elements_stop, Element,
};
use crate::types::Band;

verus! {

/// What the walk over the elements has seen so far.
pub struct WidthFlags {
    pub ht40: bool,
    pub vht80: bool,
    pub vht160: bool,
    pub eht320: bool,
}

/// Nothing seen yet.
pub open spec fn no_width_flags() -> WidthFlags {
    WidthFlags { ht40: false, vht80: false, vht160: false, eht320: false }
}

/// Effect of one element on the flags.
///
/// HT capabilities (45, non-empty) set the 40 MHz flag to bit 1 of its first
/// byte, overriding an earlier value.  VHT operation (192, non-empty): width
/// 1 means 80 MHz, 2 and 3 mean 80 and 160 MHz.  An EHT Operation element
/// (extended element with extension id 106) of at least 4 bytes reads a
/// width code from bits 2-4 of its second byte: 4 is 320 MHz, 3 is 160 MHz,
/// 2 is 80 MHz.
pub open spec fn width_step(f: WidthFlags, e: Element) -> WidthFlags {
    let (id, d) = e;
    if id == 45 && d.len() >= 1 {
        WidthFlags { ht40: d[0] & 0x02 != 0, ..f }
    } else if id == 192 && d.len() >= 1 {
        if d[0] == 1 {
            WidthFlags { vht80: true, ..f }
        } else if d[0] == 2 || d[0] == 3 {
            WidthFlags { vht80: true, vht160: true, ..f }
        } else {
            f
        }
    } else if id == 255 && d.len() >= 4 && d[0] == 106 {
        let code = (d[1] >> 2u8) & 0x07;
        if code == 4 {
            WidthFlags { eht320: true, ..f }
        } else if code == 3 {
            WidthFlags { vht160: true, ..f }
        } else if code == 2 {
            WidthFlags { vht80: true, ..f }
        } else {
            f
        }
    } else {
        f
    }
}

/// The flags after walking `els` from `f`.
pub open spec fn width_walk(f: WidthFlags, els: Seq<Element>) -> WidthFlags
    decreases els.len(),
{
    if els.len() == 0 {
        f
    } else {
        width_walk(width_step(f, els[0]), els.drop_first())
    }
}

/// The widest width the flags allow, in MHz.
pub open spec fn width_of(f: WidthFlags) -> u16 {
    if f.eht320 {
        320
    } else if f.vht160 {
        160
    } else if f.vht80 {
        80
    } else if f.ht40 {
        40
    } else {
        20
    }
}

/// Channel width that an element list advertises.
pub open spec fn spec_channel_width(ie: Seq<u8>) -> u16 {
    width_of(width_walk(no_width_flags(), elements(ie)))
}

/// Walking an element followed by more elements is walking the rest after
/// the first step.
pub proof fn lemma_width_walk_cons(f: WidthFlags, e: Element, rest: Seq<Element>)
    ensures
        width_walk(f, seq![e] + rest) == width_walk(width_step(f, e), rest),
{
    let s = seq![e] + rest;
    assert(s[0] == e);
    assert(s.drop_first() =~= rest);
}

/// Detect the channel width (in MHz) from information elements.  The channel
/// and band do not take part.
pub fn detect_channel_width(ie_data: &[u8], _channel: u8, _band: Band) -> (w: u16)
    ensures
        w == spec_channel_width(ie_data@),
{
    let ghost data = ie_data@;
    let mut pos: usize = 0;
    let mut ht_40 = false;
    let mut vht_80 = false;
    let mut vht_160 = false;
    let mut eht_320 = false;
    proof {
        lemma_elements_start(data);
    }
    while ie_data.len() - pos >= 2
        invariant
            data == ie_data@,
            pos <= ie_data.len(),
            width_walk(
                WidthFlags { ht40: ht_40, vht80: vht_80, vht160: vht_160, eht320: eht_320 },
                elements(data.subrange(pos as int, data.len() as int)),
            ) == width_walk(no_width_flags(), elements(data)),
        ensures
            elements(data.subrange(pos as int, data.len() as int)) == Seq::<Element>::empty(),
        decreases ie_data.len() - pos,
    {
        let id = ie_data[pos];
        let len = ie_data[pos + 1] as usize;
        if len > ie_data.len() - pos - 2 {
            proof {
                lemma_elements_stop(data, pos as int);
            }
            break;
        }
        let data_slice = &ie_data[pos + 2..pos + 2 + len];
        let ghost before = WidthFlags {
            ht40: ht_40,
            vht80: vht_80,
            vht160: vht_160,
            eht320: eht_320,
        };
        proof {
            lemma_elements_step(data, pos as int);
            assert(data_slice@ == data.subrange(pos + 2, pos + 2 + len));
            lemma_width_walk_cons(
                before,
                (id, data_slice@),
                elements(data.subrange(pos + 2 + len, data.len() as int)),
            );
        }
        if id == 45 && len >= 1 {
            ht_40 = (data_slice[0] & 0x02) != 0;
        } else if id == 192 && len >= 1 {
            let w = data_slice[0];
            if w == 1 {
                vht_80 = true;
            } else if w == 2 || w == 3 {
                vht_80 = true;
                vht_160 = true;
            }
        } else if id == 255 && len >= 4 && data_slice[0] == 106 {
            let width_bits = (data_slice[1] >> 2) & 0x07;
            if width_bits == 4 {
                eht_320 = true;
            } else if width_bits == 3 {
                vht_160 = true;
            } else if width_bits == 2 {
                vht_80 = true;
            }
        }
        pos = pos + 2 + len;
    }
    if eht_320 {
        320
    } else if vht_160 {
        160
    } else if vht_80 {
        80
    } else if ht_40 {
        40
    } else {
        20
    }
}

} // verus!

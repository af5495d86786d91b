//! The snapshot codec: the canvas cell sequence as a byte string that
//! round-trips exactly — cell count, colors, write times and modifier
//! identities — and is validated before being trusted.
//!
//! Layout: the cell count as eight little-endian bytes, then each cell
//! in order as its seven ASCII color bytes, eight bytes of write time,
//! eight bytes of modifier length and four little-endian bytes per
//! modifier character.

use vstd::prelude::*;
use vstd::bytes::lemma_auto_spec_u32_to_from_le_bytes;
use vstd::bytes::lemma_auto_spec_u64_to_from_le_bytes;
use vstd::bytes::spec_u32_from_le_bytes;
use vstd::bytes::spec_u32_to_le_bytes;
use vstd::bytes::spec_u64_from_le_bytes;
use vstd::bytes::spec_u64_to_le_bytes;
use vstd::bytes::u32_from_le_bytes;
use vstd::bytes::u32_to_le_bytes;
use vstd::bytes::u64_from_le_bytes;
use vstd::bytes::u64_to_le_bytes;
use vstd::slice::slice_subrange;
use vstd::string::StrSliceExecFns;
use vstd::string::StringSliceAdditionalSpecFns;
use crate::color::is_valid_hex_color;
use crate::color::lemma_valid_color_ascii;
use crate::color::valid_color;
use crate::pixel::CellModel;
use crate::pixel::Pixel;
use crate::pixel::wf_cell;
use crate::state::cells_model;
use crate::state::wf_cells;

verus! {

/// Bytes of one encoded cell before its modifier characters.
pub const CELL_HEADER_BYTES: usize = 23;

/// A Unicode scalar value: what a four-byte character slot may hold.
pub open spec fn is_scalar_value(v: u32) -> bool {
    v < 0xD800 || (0xE000 <= v && v <= 0x10FFFF)
}

/// Relies on `char::from_u32`: it returns `Some` exactly on Unicode
/// scalar values, and the returned character has the given value.
#[verifier::external_body]
fn char_from_u32(v: u32) -> (r: Option<char>)
    ensures
        r is Some <==> is_scalar_value(v),
        r matches Some(c) ==> c as u32 == v,
{
    char::from_u32(v)
}

/// Relies on `String::push`: it appends exactly one character.
#[verifier::external_body]
fn push_char(s: &mut String, c: char)
    ensures
        final(s)@ == old(s)@.push(c),
{
    s.push(c);
}

/// A color's bytes: its seven characters, each one ASCII byte.
pub open spec fn enc_color(s: Seq<char>) -> Seq<u8> {
    Seq::new(7, |i: int| s[i] as u8)
}

/// A modifier's bytes: each character as four little-endian bytes.
pub open spec fn enc_chars(s: Seq<char>) -> Seq<u8>
    decreases s.len(),
{
    if s.len() == 0 {
        Seq::empty()
    } else {
        spec_u32_to_le_bytes(s.first() as u32) + enc_chars(s.drop_first())
    }
}

/// One cell's bytes: color, write time, modifier length, modifier.
pub open spec fn enc_cell(m: CellModel) -> Seq<u8> {
    enc_color(m.color) + spec_u64_to_le_bytes(m.last_updated) + spec_u64_to_le_bytes(
        m.modifier.len() as u64,
    ) + enc_chars(m.modifier)
}

/// All cells' bytes, in canvas order.
pub open spec fn enc_cells(ms: Seq<CellModel>) -> Seq<u8>
    decreases ms.len(),
{
    if ms.len() == 0 {
        Seq::empty()
    } else {
        enc_cell(ms.first()) + enc_cells(ms.drop_first())
    }
}

/// A whole snapshot: the cell count, then the cells.
pub open spec fn spec_encode(ms: Seq<CellModel>) -> Seq<u8> {
    spec_u64_to_le_bytes(ms.len() as u64) + enc_cells(ms)
}

/// Decodes exactly `n` characters from exactly `data`.
pub open spec fn dec_chars(data: Seq<u8>, n: nat) -> Option<Seq<char>>
    decreases n,
{
    if n == 0 {
        if data.len() == 0 {
            Some(Seq::empty())
        } else {
            None
        }
    } else if data.len() < 4 {
        None
    } else {
        let v = spec_u32_from_le_bytes(data.take(4));
        if is_scalar_value(v) {
            match dec_chars(data.skip(4), (n - 1) as nat) {
                Some(s) => Some(seq![v as char] + s),
                None => None,
            }
        } else {
            None
        }
    }
}

/// Decodes one cell from the front of `data`; yields the cell and the
/// remaining bytes. Rejects a malformed color or character slot.
pub open spec fn dec_cell(data: Seq<u8>) -> Option<(CellModel, Seq<u8>)> {
    if data.len() < CELL_HEADER_BYTES {
        None
    } else {
        let color = Seq::new(7, |i: int| data[i] as char);
        if !valid_color(color) {
            None
        } else {
            let ts = spec_u64_from_le_bytes(data.subrange(7, 15));
            let mlen = spec_u64_from_le_bytes(data.subrange(15, 23));
            let rest = data.skip(23);
            if rest.len() < 4 * (mlen as int) {
                None
            } else {
                match dec_chars(rest.take(4 * (mlen as int)), mlen as nat) {
                    Some(chars) => Some(
                        (
                            CellModel { color, last_updated: ts, modifier: chars },
                            rest.skip(4 * (mlen as int)),
                        ),
                    ),
                    None => None,
                }
            }
        }
    }
}

/// Decodes exactly `n` cells from exactly `data`.
pub open spec fn dec_cells(data: Seq<u8>, n: nat) -> Option<Seq<CellModel>>
    decreases n,
{
    if n == 0 {
        if data.len() == 0 {
            Some(Seq::empty())
        } else {
            None
        }
    } else {
        match dec_cell(data) {
            Some(p) => match dec_cells(p.1, (n - 1) as nat) {
                Some(s) => Some(seq![p.0] + s),
                None => None,
            },
            None => None,
        }
    }
}

/// Decodes a whole snapshot; `None` on any malformation, a truncated
/// byte string, or trailing bytes.
pub open spec fn spec_decode(data: Seq<u8>) -> Option<Seq<CellModel>> {
    if data.len() < 8 {
        None
    } else {
        let n = spec_u64_from_le_bytes(data.take(8));
        dec_cells(data.skip(8), n as nat)
    }
}

/// Every modifier is short enough for its length slot.
pub open spec fn bounded_cells(ms: Seq<CellModel>) -> bool {
    forall|i: int| 0 <= i < ms.len() ==> (#[trigger] ms[i]).modifier.len() <= u64::MAX
}

proof fn lemma_enc_chars_len(s: Seq<char>)
    ensures
        enc_chars(s).len() == 4 * s.len(),
    decreases s.len(),
{
    lemma_auto_spec_u32_to_from_le_bytes();
    if s.len() > 0 {
        lemma_enc_chars_len(s.drop_first());
    }
}

proof fn lemma_enc_chars_push(s: Seq<char>, c: char)
    ensures
        enc_chars(s.push(c)) == enc_chars(s) + spec_u32_to_le_bytes(c as u32),
    decreases s.len(),
{
    lemma_auto_spec_u32_to_from_le_bytes();
    if s.len() == 0 {
        assert(s.push(c).first() == c);
        assert(s.push(c).drop_first() =~= Seq::<char>::empty());
        assert(s.push(c).len() == 1);
        assert(enc_chars(s.push(c)) == spec_u32_to_le_bytes(s.push(c).first() as u32) + enc_chars(
            s.push(c).drop_first(),
        ));
        assert(enc_chars(s.push(c).drop_first()) == Seq::<u8>::empty());
        assert(enc_chars(s) == Seq::<u8>::empty());
        assert(spec_u32_to_le_bytes(c as u32).len() == 4);
        assert(enc_chars(s.push(c)) =~= enc_chars(s) + spec_u32_to_le_bytes(c as u32));
    } else {
        assert(s.push(c).first() == s.first());
        assert(s.push(c).drop_first() =~= s.drop_first().push(c));
        lemma_enc_chars_push(s.drop_first(), c);
        assert(enc_chars(s.push(c)) =~= enc_chars(s) + spec_u32_to_le_bytes(c as u32));
    }
}

proof fn lemma_enc_cell_len(m: CellModel)
    ensures
        enc_cell(m).len() == 23 + 4 * m.modifier.len(),
{
    lemma_auto_spec_u64_to_from_le_bytes();
    lemma_enc_chars_len(m.modifier);
}

proof fn lemma_ascii_char_byte(c: char)
    requires
        (c as u32) < 128,
    ensures
        ((c as u8) as char) == c,
        (c as u8) as u32 == c as u32,
{
    vstd::utf8::char_is_scalar(c);
    vstd::utf8::char_u32_cast(c, c as u32);
    assert(c as u8 == (c as u32) as u8);
}

proof fn lemma_enc_cells_push(ms: Seq<CellModel>, m: CellModel)
    ensures
        enc_cells(ms.push(m)) == enc_cells(ms) + enc_cell(m),
    decreases ms.len(),
{
    lemma_enc_cell_len(m);
    if ms.len() == 0 {
        assert(ms.push(m).first() == m);
        assert(ms.push(m).drop_first() =~= Seq::<CellModel>::empty());
        assert(ms.push(m).len() == 1);
        assert(enc_cells(ms.push(m)) == enc_cell(ms.push(m).first()) + enc_cells(
            ms.push(m).drop_first(),
        ));
        assert(enc_cells(ms.push(m).drop_first()) == Seq::<u8>::empty());
        assert(enc_cells(ms) == Seq::<u8>::empty());
        assert(enc_cells(ms.push(m)) =~= enc_cells(ms) + enc_cell(m));
    } else {
        lemma_enc_cell_len(ms.first());
        assert(ms.push(m).first() == ms.first());
        assert(ms.push(m).drop_first() =~= ms.drop_first().push(m));
        lemma_enc_cells_push(ms.drop_first(), m);
        assert(enc_cells(ms.push(m)) =~= enc_cells(ms) + enc_cell(m));
    }
}

proof fn lemma_dec_chars_enc(s: Seq<char>)
    ensures
        dec_chars(enc_chars(s), s.len()) == Some(s),
    decreases s.len(),
{
    lemma_auto_spec_u32_to_from_le_bytes();
    if s.len() == 0 {
        assert(dec_chars(enc_chars(s), s.len()) == Some(s));
    } else {
        let e = enc_chars(s);
        let head = spec_u32_to_le_bytes(s.first() as u32);
        lemma_enc_chars_len(s.drop_first());
        assert(e.take(4) =~= head);
        assert(e.skip(4) =~= enc_chars(s.drop_first()));
        vstd::utf8::char_is_scalar(s.first());
        vstd::utf8::char_u32_cast(s.first(), s.first() as u32);
        assert(is_scalar_value(s.first() as u32));
        lemma_dec_chars_enc(s.drop_first());
        assert(seq![s.first()] + s.drop_first() =~= s);
    }
}

proof fn lemma_dec_cell_enc(m: CellModel, rest: Seq<u8>)
    requires
        wf_cell(m),
        m.modifier.len() <= u64::MAX,
    ensures
        dec_cell(enc_cell(m) + rest) == Some((m, rest)),
{
    lemma_auto_spec_u64_to_from_le_bytes();
    lemma_enc_chars_len(m.modifier);
    lemma_valid_color_ascii(m.color);
    let data = enc_cell(m) + rest;
    let c7 = enc_color(m.color);
    let t8 = spec_u64_to_le_bytes(m.last_updated);
    let l8 = spec_u64_to_le_bytes(m.modifier.len() as u64);
    let mc = enc_chars(m.modifier);
    assert(data.len() == 23 + mc.len() + rest.len());
    let color = Seq::new(7, |i: int| data[i] as char);
    assert forall|i: int| 0 <= i < 7 implies color[i] == m.color[i] by {
        assert(data[i] == c7[i]);
        assert(c7[i] == m.color[i] as u8);
        assert((m.color[i] as u32) < 128);
        lemma_ascii_char_byte(m.color[i]);
    }
    assert(color =~= m.color);
    assert(valid_color(color));
    assert(data.subrange(7, 15) =~= t8);
    assert(data.subrange(15, 23) =~= l8);
    assert(spec_u64_from_le_bytes(data.subrange(7, 15)) == m.last_updated);
    assert(spec_u64_from_le_bytes(data.subrange(15, 23)) == m.modifier.len() as u64);
    let mlen = m.modifier.len() as u64;
    let tail = data.skip(23);
    assert(tail =~= mc + rest);
    assert(tail.len() >= 4 * (mlen as int));
    assert(tail.take(4 * (mlen as int)) =~= mc);
    assert(tail.skip(4 * (mlen as int)) =~= rest);
    lemma_dec_chars_enc(m.modifier);
    assert(dec_cell(data) == Some((m, rest)));
}

proof fn lemma_dec_cells_enc(ms: Seq<CellModel>)
    requires
        wf_cells(ms),
        bounded_cells(ms),
    ensures
        dec_cells(enc_cells(ms), ms.len()) == Some(ms),
    decreases ms.len(),
{
    if ms.len() == 0 {
        assert(dec_cells(enc_cells(ms), ms.len()) == Some(ms));
    } else {
        let m = ms.first();
        let tail = ms.drop_first();
        assert(wf_cells(tail)) by {
            assert(forall|i: int| 0 <= i < tail.len() ==> tail[i] == ms[i + 1]);
        }
        assert(bounded_cells(tail)) by {
            assert(forall|i: int| 0 <= i < tail.len() ==> tail[i] == ms[i + 1]);
        }
        lemma_dec_cell_enc(m, enc_cells(tail));
        lemma_dec_cells_enc(tail);
        assert(seq![m] + tail =~= ms);
    }
}

/// Law: a snapshot round-trips — decoding an encoded cell sequence
/// reproduces the identical cells: count, colors, write times and
/// modifier identities.
pub proof fn lemma_snapshot_round_trip(ms: Seq<CellModel>)
    requires
        wf_cells(ms),
        bounded_cells(ms),
        ms.len() <= u64::MAX,
    ensures
        spec_decode(spec_encode(ms)) == Some(ms),
{
    lemma_auto_spec_u64_to_from_le_bytes();
    let data = spec_encode(ms);
    assert(data.take(8) =~= spec_u64_to_le_bytes(ms.len() as u64));
    assert(data.skip(8) =~= enc_cells(ms));
    lemma_dec_cells_enc(ms);
}

/// Encodes a cell sequence as its snapshot bytes.
#[verifier::loop_isolation(false)]
pub fn encode_grid(cells: &Vec<Pixel>) -> (out: Vec<u8>)
    requires
        wf_cells(cells_model(cells@)),
    ensures
        out@ == spec_encode(cells_model(cells@)),
{
    let ghost ms = cells_model(cells@);
    let mut out = u64_to_le_bytes(cells.len() as u64);
    let n = cells.len();
    let mut i: usize = 0;
    while i < n
        invariant
            i <= n,
            n == cells@.len(),
            ms == cells_model(cells@),
            wf_cells(ms),
            out@ == spec_u64_to_le_bytes(n as u64) + enc_cells(ms.take(i as int)),
        decreases n - i,
    {
        let p = &cells[i];
        let ghost m = ms[i as int];
        proof {
            assert(m == p@);
            lemma_valid_color_ascii(m.color);
        }
        let ghost cell_base = out@;
        let mut j: usize = 0;
        while j < 7
            invariant
                j <= 7,
                valid_color(p.color@),
                p.color@.len() == 7,
                forall|t: int| 0 <= t < 7 ==> ((#[trigger] p.color@[t]) as u32) < 128,
                out@ == cell_base + enc_color(p.color@).take(j as int),
            decreases 7 - j,
        {
            let ch = p.color.as_str().get_char(j);
            let b = ch as u8;
            out.push(b);
            proof {
                assert(enc_color(p.color@).take(j + 1) =~= enc_color(p.color@).take(j as int).push(
                    p.color@[j as int] as u8,
                ));
            }
            j = j + 1;
        }
        proof {
            assert(enc_color(p.color@).take(7) =~= enc_color(p.color@));
        }
        let mut tsb = u64_to_le_bytes(p.last_updated);
        out.append(&mut tsb);
        let mlen = p.modifier_id.as_str().unicode_len();
        let mut mlb = u64_to_le_bytes(mlen as u64);
        out.append(&mut mlb);
        let ghost chars_base = out@;
        let mut k: usize = 0;
        while k < mlen
            invariant
                k <= mlen,
                mlen == p.modifier_id@.len(),
                out@ == chars_base + enc_chars(p.modifier_id@.take(k as int)),
            decreases mlen - k,
        {
            let ch = p.modifier_id.as_str().get_char(k);
            let mut cb = u32_to_le_bytes(ch as u32);
            out.append(&mut cb);
            proof {
                lemma_enc_chars_push(p.modifier_id@.take(k as int), ch);
                assert(p.modifier_id@.take(k + 1) =~= p.modifier_id@.take(k as int).push(ch));
            }
            k = k + 1;
        }
        proof {
            assert(p.modifier_id@.take(mlen as int) =~= p.modifier_id@);
            lemma_enc_cells_push(ms.take(i as int), m);
            assert(ms.take(i + 1) =~= ms.take(i as int).push(m));
            assert(out@ =~= spec_u64_to_le_bytes(n as u64) + enc_cells(ms.take(i + 1)));
        }
        i = i + 1;
    }
    proof {
        assert(ms.take(n as int) =~= ms);
    }
    out
}

proof fn lemma_dec_cells_needs(data: Seq<u8>, n: nat)
    requires
        data.len() < 23 * n,
    ensures
        dec_cells(data, n) is None,
    decreases n,
{
    if n > 0 {
        if data.len() >= CELL_HEADER_BYTES {
            let mlen = spec_u64_from_le_bytes(data.subrange(15, 23));
            let rest = data.skip(23);
            if rest.len() >= 4 * (mlen as int) {
                match dec_chars(rest.take(4 * (mlen as int)), mlen as nat) {
                    Some(_) => {
                        let after = rest.skip(4 * (mlen as int));
                        assert(after.len() <= data.len() - 23);
                        lemma_dec_cells_needs(after, (n - 1) as nat);
                    },
                    None => {},
                }
            }
        }
    }
}

#[verifier::loop_isolation(false)]
fn decode_cell(data: &Vec<u8>, pos: usize) -> (r: Option<(Pixel, usize)>)
    requires
        pos <= data@.len(),
    ensures
        r is None ==> dec_cell(data@.skip(pos as int)) is None,
        r matches Some((p, newpos)) ==> {
            &&& pos + CELL_HEADER_BYTES <= newpos <= data@.len()
            &&& dec_cell(data@.skip(pos as int)) == Some((p@, data@.skip(newpos as int)))
            &&& wf_cell(p@)
        },
{
    let n = data.len();
    let ghost whole = data@.skip(pos as int);
    if n - pos < CELL_HEADER_BYTES {
        return None;
    }
    let mut color = String::new();
    let mut j: usize = 0;
    while j < 7
        invariant
            j <= 7,
            pos + 23 <= n,
            n == data@.len(),
            color@.len() == j,
            forall|t: int| 0 <= t < j ==> color@[t] == (data@[pos + t] as char),
        decreases 7 - j,
    {
        let b = data[pos + j];
        push_char(&mut color, b as char);
        j = j + 1;
    }
    proof {
        assert(color@ =~= Seq::new(7, |i: int| whole[i] as char));
    }
    if !is_valid_hex_color(color.as_str()) {
        return None;
    }
    let ts = u64_from_le_bytes(slice_subrange(data.as_slice(), pos + 7, pos + 15));
    let mlen64 = u64_from_le_bytes(slice_subrange(data.as_slice(), pos + 15, pos + 23));
    proof {
        assert(data@.subrange(pos + 7, pos + 15) =~= whole.subrange(7, 15));
        assert(data@.subrange(pos + 15, pos + 23) =~= whole.subrange(15, 23));
    }
    let rem = n - pos - 23;
    if mlen64 > (rem as u64) / 4 {
        proof {
            assert(whole.skip(23).len() == rem);
            assert(whole.skip(23).len() < 4 * (mlen64 as int));
        }
        return None;
    }
    let mlen = mlen64 as usize;
    let ghost chunk = whole.skip(23).take(4 * (mlen as int));
    proof {
        assert(whole.skip(23).len() >= 4 * (mlen as int));
        assert(chunk.len() == 4 * (mlen as int));
    }
    let mut modifier = String::new();
    proof {
        assert(chunk =~= data@.subrange(pos + 23, pos + 23 + 4 * (mlen as int)));
        assert(forall|s: Seq<char>| (Seq::<char>::empty() + s) =~= s);
        assert(modifier@ =~= Seq::<char>::empty());
    }
    let mut k: usize = 0;
    let mut cur: usize = pos + 23;
    while k < mlen
        invariant
            k <= mlen,
            cur == pos + 23 + 4 * k,
            pos + 23 + 4 * mlen <= n,
            n == data@.len(),
            whole == data@.skip(pos as int),
            chunk == whole.skip(23).take(4 * (mlen as int)),
            chunk.len() == 4 * (mlen as int),
            modifier@.len() == k,
            dec_chars(chunk, mlen as nat) == (match dec_chars(
                data@.subrange(cur as int, pos + 23 + 4 * (mlen as int)),
                (mlen - k) as nat,
            ) {
                Some(s) => Some(modifier@ + s),
                None => None::<Seq<char>>,
            }),
        decreases mlen - k,
    {
        let ghost tail = data@.subrange(cur as int, pos + 23 + 4 * (mlen as int));
        let v = u32_from_le_bytes(slice_subrange(data.as_slice(), cur, cur + 4));
        proof {
            assert(tail.take(4) =~= data@.subrange(cur as int, cur + 4));
            assert(tail.len() == 4 * ((mlen - k) as int));
        }
        match char_from_u32(v) {
            Some(c) => {
                proof {
                    vstd::utf8::char_u32_cast(c, v);
                    assert(tail.skip(4) =~= data@.subrange(cur + 4, pos + 23 + 4 * (mlen as int)));
                    assert(dec_chars(tail, (mlen - k) as nat) == (match dec_chars(
                        tail.skip(4),
                        (mlen - k - 1) as nat,
                    ) {
                        Some(s) => Some(seq![c] + s),
                        None => None::<Seq<char>>,
                    }));
                }
                let ghost prevmod = modifier@;
                push_char(&mut modifier, c);
                proof {
                    assert(modifier@ == prevmod.push(c));
                    assert(forall|s: Seq<char>|
                        (prevmod + (seq![c] + s)) =~= (prevmod.push(c) + s));
                }
                k = k + 1;
                cur = cur + 4;
            },
            None => {
                proof {
                    assert(dec_chars(tail, (mlen - k) as nat) is None);
                    assert(dec_chars(chunk, mlen as nat) is None);
                }
                return None;
            },
        }
    }
    proof {
        assert(data@.subrange(cur as int, pos + 23 + 4 * (mlen as int)).len() == 0);
        assert(dec_chars(chunk, mlen as nat) == Some(modifier@ + Seq::<char>::empty()));
        assert(modifier@ + Seq::<char>::empty() =~= modifier@);
    }
    let p = Pixel { color, last_updated: ts, modifier_id: modifier };
    proof {
        assert(whole.skip(23).skip(4 * (mlen as int)) =~= data@.skip(cur as int));
        assert(dec_cell(whole) == Some((p@, data@.skip(cur as int))));
    }
    Some((p, cur))
}

/// Decodes snapshot bytes back into the cell sequence, validating
/// colors, character slots, the count and the total length; `None` on
/// any malformation.
#[verifier::loop_isolation(false)]
pub fn decode_grid(data: &Vec<u8>) -> (r: Option<Vec<Pixel>>)
    ensures
        r is None ==> spec_decode(data@) is None,
        r matches Some(cells) ==> {
            &&& spec_decode(data@) == Some(cells_model(cells@))
            &&& wf_cells(cells_model(cells@))
        },
{
    let n_bytes = data.len();
    if n_bytes < 8 {
        return None;
    }
    let n64 = u64_from_le_bytes(slice_subrange(data.as_slice(), 0, 8));
    proof {
        assert(data@.take(8) =~= data@.subrange(0, 8));
    }
    let rem = n_bytes - 8;
    if n64 > (rem as u64) / 23 {
        proof {
            assert(data@.skip(8).len() < 23 * (n64 as int));
            lemma_dec_cells_needs(data@.skip(8), n64 as nat);
        }
        return None;
    }
    let n = n64 as usize;
    let ghost full = dec_cells(data@.skip(8), n64 as nat);
    let mut cells: Vec<Pixel> = Vec::new();
    proof {
        assert(cells_model(cells@) =~= Seq::<CellModel>::empty());
        assert(forall|s: Seq<CellModel>| (Seq::<CellModel>::empty() + s) =~= s);
    }
    let mut pos: usize = 8;
    let mut i: usize = 0;
    while i < n
        invariant
            i <= n,
            n == n64,
            8 <= pos <= data@.len(),
            cells@.len() == i,
            wf_cells(cells_model(cells@)),
            full == dec_cells(data@.skip(8), n64 as nat),
            full == (match dec_cells(data@.skip(pos as int), (n - i) as nat) {
                Some(s) => Some(cells_model(cells@) + s),
                None => None::<Seq<CellModel>>,
            }),
        decreases n - i,
    {
        match decode_cell(data, pos) {
            Some((p, newpos)) => {
                proof {
                    assert(dec_cells(data@.skip(pos as int), (n - i) as nat) == (match dec_cells(
                        data@.skip(newpos as int),
                        (n - i - 1) as nat,
                    ) {
                        Some(s) => Some(seq![p@] + s),
                        None => None::<Seq<CellModel>>,
                    }));
                    assert(cells_model(cells@.push(p)) =~= cells_model(cells@) + seq![p@]);
                    assert(forall|s: Seq<CellModel>|
                        (cells_model(cells@) + (seq![p@] + s)) =~= ((cells_model(cells@)
                            + seq![p@]) + s));
                }
                cells.push(p);
                pos = newpos;
                i = i + 1;
            },
            None => {
                return None;
            },
        }
    }
    if pos != n_bytes {
        proof {
            assert(data@.skip(pos as int).len() > 0);
            assert(dec_cells(data@.skip(pos as int), 0) is None);
        }
        return None;
    }
    proof {
        assert(data@.skip(pos as int).len() == 0);
        assert(dec_cells(data@.skip(pos as int), 0) == Some(Seq::<CellModel>::empty()));
        assert(cells_model(cells@) + Seq::<CellModel>::empty() =~= cells_model(cells@));
    }
    Some(cells)
}

} // verus!

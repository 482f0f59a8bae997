use vstd::prelude::*;
use vstd::bytes::*;
use vstd::slice::slice_subrange;
use crate::error::VegaFusionError;
use crate::scalar::{ScalarVal, ScalarModel};
use crate::table::{Column, ColumnData, ColumnModel, ColDataModel, Table};
use crate::task_value::{TaskValue, TaskValueModel};

verus! {

// ---------------------------------------------------------------------
// The wire form of a task value: a columnar byte block. A scalar is a
// single-cell record; a table is its column count followed by each
// named, typed column. All counts are little-endian 64-bit; characters
// travel as their 32-bit code points.
// Encoding and decoding round-trip exactly; the decoder's contract
// states this for every well-bounded model.
// ---------------------------------------------------------------------

/// Bounds under which a model is encodable: every count fits the
/// machine word, so the decoder can rebuild the value exactly.
pub open spec fn wire_ok_string(s: Seq<char>) -> bool {
    s.len() <= usize::MAX
}

pub open spec fn wire_ok_scalar(m: ScalarModel) -> bool {
    match m {
        ScalarModel::Str(s) => wire_ok_string(s),
        _ => true,
    }
}

// -------------------------- spec encoders ----------------------------

pub open spec fn senc_u64(x: u64) -> Seq<u8> {
    spec_u64_to_le_bytes(x)
}

pub open spec fn senc_u8(x: u8) -> Seq<u8> {
    seq![x]
}

pub open spec fn senc_i64(x: i64) -> Seq<u8> {
    senc_u64(x as u64)
}

pub open spec fn senc_bool(b: bool) -> Seq<u8> {
    if b {
        seq![1u8]
    } else {
        seq![0u8]
    }
}

pub open spec fn senc_char(c: char) -> Seq<u8> {
    spec_u32_to_le_bytes(c as u32)
}

pub open spec fn senc_chars(s: Seq<char>) -> Seq<u8>
    decreases s.len(),
{
    if s.len() == 0 {
        Seq::empty()
    } else {
        senc_char(s[0]) + senc_chars(s.skip(1))
    }
}

pub open spec fn senc_string(s: Seq<char>) -> Seq<u8> {
    senc_u64(s.len() as u64) + senc_chars(s)
}

pub open spec fn senc_scalar(m: ScalarModel) -> Seq<u8> {
    match m {
        ScalarModel::Null => seq![0u8],
        ScalarModel::Bool(b) => seq![1u8] + senc_bool(b),
        ScalarModel::Num(n) => seq![2u8] + senc_i64(n),
        ScalarModel::Str(s) => seq![3u8] + senc_string(s),
        ScalarModel::Date(d) => seq![4u8] + senc_i64(d),
    }
}

// -------------------------- spec decoders ----------------------------

pub open spec fn sdec_u8(b: Seq<u8>, pos: int) -> Option<(u8, int)> {
    if 0 <= pos && pos + 1 <= b.len() {
        Some((b[pos], pos + 1))
    } else {
        None
    }
}

pub open spec fn sdec_u64(b: Seq<u8>, pos: int) -> Option<(u64, int)> {
    if 0 <= pos && pos + 8 <= b.len() {
        Some((spec_u64_from_le_bytes(b.subrange(pos, pos + 8)), pos + 8))
    } else {
        None
    }
}

pub open spec fn sdec_u32(b: Seq<u8>, pos: int) -> Option<(u32, int)> {
    if 0 <= pos && pos + 4 <= b.len() {
        Some((spec_u32_from_le_bytes(b.subrange(pos, pos + 4)), pos + 4))
    } else {
        None
    }
}

pub open spec fn sdec_i64(b: Seq<u8>, pos: int) -> Option<(i64, int)> {
    match sdec_u64(b, pos) {
        None => None,
        Some((x, p)) => Some((x as i64, p)),
    }
}

pub open spec fn sdec_bool(b: Seq<u8>, pos: int) -> Option<(bool, int)> {
    match sdec_u8(b, pos) {
        None => None,
        Some((x, p)) => if x == 1 {
            Some((true, p))
        } else if x == 0 {
            Some((false, p))
        } else {
            None
        },
    }
}

pub open spec fn sdec_char(b: Seq<u8>, pos: int) -> Option<(char, int)> {
    match sdec_u32(b, pos) {
        None => None,
        Some((x, p)) => if vstd::utf8::is_scalar(x) {
            Some((x as char, p))
        } else {
            None
        },
    }
}

pub open spec fn sdec_chars(b: Seq<u8>, pos: int, n: nat) -> Option<(Seq<char>, int)>
    decreases n,
{
    if n == 0 {
        Some((Seq::empty(), pos))
    } else {
        match sdec_char(b, pos) {
            None => None,
            Some((c, p)) => match sdec_chars(b, p, (n - 1) as nat) {
                None => None,
                Some((s, p2)) => Some((seq![c] + s, p2)),
            },
        }
    }
}

pub open spec fn sdec_string(b: Seq<u8>, pos: int) -> Option<(Seq<char>, int)> {
    match sdec_u64(b, pos) {
        None => None,
        Some((n, p)) => if n <= usize::MAX as u64 {
            sdec_chars(b, p, n as nat)
        } else {
            None
        },
    }
}

pub open spec fn sdec_scalar(b: Seq<u8>, pos: int) -> Option<(ScalarModel, int)> {
    match sdec_u8(b, pos) {
        None => None,
        Some((tag, p)) => if tag == 0 {
            Some((ScalarModel::Null, p))
        } else if tag == 1 {
            match sdec_bool(b, p) {
                None => None,
                Some((v, p2)) => Some((ScalarModel::Bool(v), p2)),
            }
        } else if tag == 2 {
            match sdec_i64(b, p) {
                None => None,
                Some((v, p2)) => Some((ScalarModel::Num(v), p2)),
            }
        } else if tag == 3 {
            match sdec_string(b, p) {
                None => None,
                Some((v, p2)) => Some((ScalarModel::Str(v), p2)),
            }
        } else if tag == 4 {
            match sdec_i64(b, p) {
                None => None,
                Some((v, p2)) => Some((ScalarModel::Date(v), p2)),
            }
        } else {
            None
        },
    }
}

// ------------------- decode-of-encode lemmas --------------------------

proof fn lemma_sdec_u64(b: Seq<u8>, pos: int, x: u64)
    requires
        0 <= pos,
        pos + 8 <= b.len(),
        b.subrange(pos, pos + 8) == senc_u64(x),
    ensures
        sdec_u64(b, pos) == Some((x, pos + 8)),
{
    lemma_auto_spec_u64_to_from_le_bytes();
}

proof fn lemma_sdec_u32(b: Seq<u8>, pos: int, x: u32)
    requires
        0 <= pos,
        pos + 4 <= b.len(),
        b.subrange(pos, pos + 4) == spec_u32_to_le_bytes(x),
    ensures
        sdec_u32(b, pos) == Some((x, pos + 4)),
{
    lemma_auto_spec_u32_to_from_le_bytes();
    assert(spec_u32_to_le_bytes(x).len() == 4);
}

proof fn lemma_sdec_i64(b: Seq<u8>, pos: int, x: i64)
    requires
        0 <= pos,
        pos + 8 <= b.len(),
        b.subrange(pos, pos + 8) == senc_i64(x),
    ensures
        sdec_i64(b, pos) == Some((x, pos + 8)),
{
    lemma_sdec_u64(b, pos, x as u64);
    assert((x as u64) as i64 == x) by (bit_vector);
}

proof fn lemma_sdec_bool(b: Seq<u8>, pos: int, v: bool)
    requires
        0 <= pos,
        pos + 1 <= b.len(),
        b.subrange(pos, pos + 1) == senc_bool(v),
    ensures
        sdec_bool(b, pos) == Some((v, pos + 1)),
{
    assert(b[pos] == senc_bool(v)[0]);
}

proof fn lemma_sdec_char(b: Seq<u8>, pos: int, c: char)
    requires
        0 <= pos,
        pos + 4 <= b.len(),
        b.subrange(pos, pos + 4) == senc_char(c),
    ensures
        sdec_char(b, pos) == Some((c, pos + 4)),
{
    lemma_sdec_u32(b, pos, c as u32);
    vstd::utf8::char_is_scalar(c);
    vstd::utf8::char_u32_cast(c, c as u32);
}

proof fn lemma_sdec_chars(b: Seq<u8>, pos: int, s: Seq<char>)
    requires
        0 <= pos,
        pos + senc_chars(s).len() <= b.len(),
        b.subrange(pos, pos + senc_chars(s).len()) == senc_chars(s),
    ensures
        sdec_chars(b, pos, s.len()) == Some((s, pos + senc_chars(s).len())),
    decreases s.len(),
{
    if s.len() == 0 {
        assert(s =~= Seq::<char>::empty());
    } else {
        let e = senc_chars(s);
        let e1 = senc_char(s[0]);
        let e2 = senc_chars(s.skip(1));
        lemma_auto_spec_u32_to_from_le_bytes();
        assert(e1.len() == 4);
        assert(b.subrange(pos, pos + 4) =~= e.subrange(0, 4));
        assert(e.subrange(0, 4) =~= e1);
        lemma_sdec_char(b, pos, s[0]);
        assert(b.subrange(pos + 4, pos + 4 + e2.len() as int) =~= e.subrange(4, e.len() as int));
        assert(e.subrange(4, e.len() as int) =~= e2);
        lemma_sdec_chars(b, pos + 4, s.skip(1));
        assert(seq![s[0]] + s.skip(1) =~= s);
    }
}

proof fn lemma_sdec_string(b: Seq<u8>, pos: int, s: Seq<char>)
    requires
        wire_ok_string(s),
        0 <= pos,
        pos + senc_string(s).len() <= b.len(),
        b.subrange(pos, pos + senc_string(s).len()) == senc_string(s),
    ensures
        sdec_string(b, pos) == Some((s, pos + senc_string(s).len())),
{
    let e = senc_string(s);
    let n = s.len() as u64;
    lemma_auto_spec_u64_to_from_le_bytes();
    assert(b.subrange(pos, pos + 8) =~= e.subrange(0, 8));
    assert(e.subrange(0, 8) =~= senc_u64(n));
    lemma_sdec_u64(b, pos, n);
    let e2 = senc_chars(s);
    assert(b.subrange(pos + 8, pos + 8 + e2.len() as int) =~= e.subrange(8, e.len() as int));
    assert(e.subrange(8, e.len() as int) =~= e2);
    lemma_sdec_chars(b, pos + 8, s);
}

proof fn lemma_sdec_scalar(b: Seq<u8>, pos: int, m: ScalarModel)
    requires
        wire_ok_scalar(m),
        0 <= pos,
        pos + senc_scalar(m).len() <= b.len(),
        b.subrange(pos, pos + senc_scalar(m).len()) == senc_scalar(m),
    ensures
        sdec_scalar(b, pos) == Some((m, pos + senc_scalar(m).len())),
{
    let e = senc_scalar(m);
    assert(b[pos] == e[0]);
    match m {
        ScalarModel::Null => {}
        ScalarModel::Bool(v) => {
            assert(b.subrange(pos + 1, pos + 2) =~= e.subrange(1, 2));
            assert(e.subrange(1, 2) =~= senc_bool(v));
            lemma_sdec_bool(b, pos + 1, v);
        }
        ScalarModel::Num(n) => {
            lemma_auto_spec_u64_to_from_le_bytes();
            assert(b.subrange(pos + 1, pos + 9) =~= e.subrange(1, 9));
            assert(e.subrange(1, 9) =~= senc_i64(n));
            lemma_sdec_i64(b, pos + 1, n);
        }
        ScalarModel::Str(s) => {
            let e2 = senc_string(s);
            assert(b.subrange(pos + 1, pos + 1 + e2.len() as int) =~= e.subrange(1, e.len() as int));
            assert(e.subrange(1, e.len() as int) =~= e2);
            lemma_sdec_string(b, pos + 1, s);
        }
        ScalarModel::Date(d) => {
            lemma_auto_spec_u64_to_from_le_bytes();
            assert(b.subrange(pos + 1, pos + 9) =~= e.subrange(1, 9));
            assert(e.subrange(1, 9) =~= senc_i64(d));
            lemma_sdec_i64(b, pos + 1, d);
        }
    }
}

// -------------------------- exec encoders ----------------------------

fn enc_u64(buf: &mut Vec<u8>, x: u64)
    ensures
        final(buf)@ == old(buf)@ + senc_u64(x),
{
    let mut tmp = u64_to_le_bytes(x);
    buf.append(&mut tmp);
}

fn enc_u8(buf: &mut Vec<u8>, x: u8)
    ensures
        final(buf)@ == old(buf)@ + senc_u8(x),
{
    buf.push(x);
    assert(buf@ =~= old(buf)@ + senc_u8(x));
}

fn enc_i64(buf: &mut Vec<u8>, x: i64)
    ensures
        final(buf)@ == old(buf)@ + senc_i64(x),
{
    enc_u64(buf, x as u64);
}

fn enc_bool(buf: &mut Vec<u8>, b: bool)
    ensures
        final(buf)@ == old(buf)@ + senc_bool(b),
{
    if b {
        enc_u8(buf, 1);
    } else {
        enc_u8(buf, 0);
    }
    assert(buf@ =~= old(buf)@ + senc_bool(b));
}

fn enc_char(buf: &mut Vec<u8>, c: char)
    ensures
        final(buf)@ == old(buf)@ + senc_char(c),
{
    let mut tmp = u32_to_le_bytes(c as u32);
    buf.append(&mut tmp);
}

fn enc_chars(buf: &mut Vec<u8>, s: &str, i: usize)
    requires
        i <= s@.len(),
    ensures
        final(buf)@ == old(buf)@ + senc_chars(s@.skip(i as int)),
    decreases s@.len() - i,
{
    let n = s.unicode_len();
    if i < n {
        let c = s.get_char(i);
        enc_char(buf, c);
        enc_chars(buf, s, i + 1);
        proof {
            let rest = s@.skip(i as int);
            assert(rest[0] == s@[i as int]);
            assert(rest.skip(1) =~= s@.skip(i as int + 1));
            assert(buf@ =~= old(buf)@ + senc_chars(rest));
        }
    } else {
        proof {
            assert(s@.skip(i as int) =~= Seq::<char>::empty());
            assert(buf@ =~= old(buf)@ + senc_chars(s@.skip(i as int)));
        }
    }
}

fn enc_string(buf: &mut Vec<u8>, s: &String)
    ensures
        final(buf)@ == old(buf)@ + senc_string(s@),
{
    let n = s.as_str().unicode_len();
    enc_u64(buf, n as u64);
    enc_chars(buf, s.as_str(), 0);
    proof {
        assert(s@.skip(0) =~= s@);
        assert(buf@ =~= old(buf)@ + senc_string(s@));
    }
}

fn enc_scalar(buf: &mut Vec<u8>, v: &ScalarVal)
    ensures
        final(buf)@ == old(buf)@ + senc_scalar(v@),
{
    match v {
        ScalarVal::Null => {
            enc_u8(buf, 0);
        }
        ScalarVal::Bool(b) => {
            enc_u8(buf, 1);
            enc_bool(buf, *b);
        }
        ScalarVal::Num(n) => {
            enc_u8(buf, 2);
            enc_i64(buf, *n);
        }
        ScalarVal::Str(s) => {
            enc_u8(buf, 3);
            enc_string(buf, s);
        }
        ScalarVal::Date(d) => {
            enc_u8(buf, 4);
            enc_i64(buf, *d);
        }
    }
    assert(buf@ =~= old(buf)@ + senc_scalar(v@));
}

// -------------------------- exec decoders ----------------------------

/// Relies on core::char::from_u32: `Some` exactly on valid Unicode
/// scalar values, returning the character with that code point.
#[verifier::external_body]
fn char_from_u32(x: u32) -> (r: Option<char>)
    ensures
        r is Some <==> vstd::utf8::is_scalar(x),
        r is Some ==> r->0 as u32 == x,
{
    core::char::from_u32(x)
}

/// Relies on `Iterator::collect` for `String`: the collected string
/// holds exactly the given characters in order.
#[verifier::external_body]
pub(crate) fn string_from_chars(v: &Vec<char>) -> (r: String)
    ensures
        r@ == v@,
{
    v.iter().collect()
}

fn dec_u8(bytes: &[u8], pos: usize) -> (r: Option<(u8, usize)>)
    ensures
        match sdec_u8(bytes@, pos as int) {
            None => r is None,
            Some((x, p)) => match r {
                None => false,
                Some((v, q)) => v == x && q as int == p,
            },
        },
{
    if pos < bytes.len() {
        let x = *vstd::slice::slice_index_get(bytes, pos);
        Some((x, pos + 1))
    } else {
        None
    }
}

fn dec_u64(bytes: &[u8], pos: usize) -> (r: Option<(u64, usize)>)
    ensures
        match sdec_u64(bytes@, pos as int) {
            None => r is None,
            Some((x, p)) => match r {
                None => false,
                Some((v, q)) => v == x && q as int == p,
            },
        },
{
    if pos <= bytes.len() && bytes.len() - pos >= 8 {
        let sub = slice_subrange(bytes, pos, pos + 8);
        let x = u64_from_le_bytes(sub);
        Some((x, pos + 8))
    } else {
        None
    }
}

fn dec_u32(bytes: &[u8], pos: usize) -> (r: Option<(u32, usize)>)
    ensures
        match sdec_u32(bytes@, pos as int) {
            None => r is None,
            Some((x, p)) => match r {
                None => false,
                Some((v, q)) => v == x && q as int == p,
            },
        },
{
    if pos <= bytes.len() && bytes.len() - pos >= 4 {
        let sub = slice_subrange(bytes, pos, pos + 4);
        let x = u32_from_le_bytes(sub);
        Some((x, pos + 4))
    } else {
        None
    }
}

fn dec_i64(bytes: &[u8], pos: usize) -> (r: Option<(i64, usize)>)
    ensures
        match sdec_i64(bytes@, pos as int) {
            None => r is None,
            Some((x, p)) => match r {
                None => false,
                Some((v, q)) => v == x && q as int == p,
            },
        },
{
    match dec_u64(bytes, pos) {
        None => None,
        Some((x, p)) => Some((x as i64, p)),
    }
}

fn dec_bool(bytes: &[u8], pos: usize) -> (r: Option<(bool, usize)>)
    ensures
        match sdec_bool(bytes@, pos as int) {
            None => r is None,
            Some((x, p)) => match r {
                None => false,
                Some((v, q)) => v == x && q as int == p,
            },
        },
{
    match dec_u8(bytes, pos) {
        None => None,
        Some((x, p)) => {
            if x == 1 {
                Some((true, p))
            } else if x == 0 {
                Some((false, p))
            } else {
                None
            }
        }
    }
}

fn dec_char(bytes: &[u8], pos: usize) -> (r: Option<(char, usize)>)
    ensures
        match sdec_char(bytes@, pos as int) {
            None => r is None,
            Some((c, p)) => match r {
                None => false,
                Some((v, q)) => v == c && q as int == p,
            },
        },
{
    match dec_u32(bytes, pos) {
        None => None,
        Some((x, p)) => {
            match char_from_u32(x) {
                None => None,
                Some(c) => {
                    proof {
                        vstd::utf8::char_u32_cast(c, x);
                    }
                    Some((c, p))
                }
            }
        }
    }
}

fn dec_chars_into(bytes: &[u8], pos: usize, n: usize, out: &mut Vec<char>) -> (r: Option<usize>)
    ensures
        match sdec_chars(bytes@, pos as int, n as nat) {
            None => r is None,
            Some((s, p)) => (match r {
                None => false,
                Some(q) => q as int == p,
            }) && final(out)@ == old(out)@ + s,
        },
    decreases n,
{
    if n == 0 {
        proof {
            assert(old(out)@ + Seq::<char>::empty() =~= old(out)@);
        }
        Some(pos)
    } else {
        match dec_char(bytes, pos) {
            None => None,
            Some((c, p)) => {
                out.push(c);
                let r = dec_chars_into(bytes, p, n - 1, out);
                proof {
                    if let Some((s, p2)) = sdec_chars(bytes@, p as int, (n - 1) as nat) {
                        assert(old(out)@.push(c) + s =~= old(out)@ + (seq![c] + s));
                    }
                }
                r
            }
        }
    }
}

fn dec_string(bytes: &[u8], pos: usize) -> (r: Option<(String, usize)>)
    ensures
        match sdec_string(bytes@, pos as int) {
            None => r is None,
            Some((s, p)) => match r {
                None => false,
                Some((v, q)) => v@ == s && q as int == p,
            },
        },
{
    match dec_u64(bytes, pos) {
        None => None,
        Some((n64, p)) => {
            if n64 > usize::MAX as u64 {
                None
            } else {
                let n = n64 as usize;
                let mut chars: Vec<char> = Vec::new();
                match dec_chars_into(bytes, p, n, &mut chars) {
                    None => None,
                    Some(p2) => {
                        let s = string_from_chars(&chars);
                        Some((s, p2))
                    }
                }
            }
        }
    }
}

fn dec_scalar(bytes: &[u8], pos: usize) -> (r: Option<(ScalarVal, usize)>)
    ensures
        match sdec_scalar(bytes@, pos as int) {
            None => r is None,
            Some((m, p)) => match r {
                None => false,
                Some((v, q)) => v@ == m && q as int == p,
            },
        },
{
    match dec_u8(bytes, pos) {
        None => None,
        Some((tag, p)) => {
            if tag == 0 {
                Some((ScalarVal::Null, p))
            } else if tag == 1 {
                match dec_bool(bytes, p) {
                    None => None,
                    Some((v, p2)) => Some((ScalarVal::Bool(v), p2)),
                }
            } else if tag == 2 {
                match dec_i64(bytes, p) {
                    None => None,
                    Some((v, p2)) => Some((ScalarVal::Num(v), p2)),
                }
            } else if tag == 3 {
                match dec_string(bytes, p) {
                    None => None,
                    Some((v, p2)) => Some((ScalarVal::Str(v), p2)),
                }
            } else if tag == 4 {
                match dec_i64(bytes, p) {
                    None => None,
                    Some((v, p2)) => Some((ScalarVal::Date(v), p2)),
                }
            } else {
                None
            }
        }
    }
}


// ----------------- column, table and value encoders ------------------

pub open spec fn wire_ok_strings(ss: Seq<Seq<char>>) -> bool {
    &&& ss.len() <= usize::MAX
    &&& forall|i: int| 0 <= i < ss.len() ==> wire_ok_string(#[trigger] ss[i])
}

pub open spec fn wire_ok_data(d: ColDataModel) -> bool {
    match d {
        ColDataModel::Bools(s) => s.len() <= usize::MAX,
        ColDataModel::Nums(s) => s.len() <= usize::MAX,
        ColDataModel::Dates(s) => s.len() <= usize::MAX,
        ColDataModel::Strs(ss) => wire_ok_strings(ss),
    }
}

pub open spec fn wire_ok_column(c: ColumnModel) -> bool {
    wire_ok_string(c.name) && wire_ok_data(c.data)
}

pub open spec fn wire_ok_table(t: Seq<ColumnModel>) -> bool {
    &&& t.len() <= usize::MAX
    &&& forall|i: int| 0 <= i < t.len() ==> wire_ok_column(#[trigger] t[i])
}

/// Bounds under which a task value model is encodable.
pub open spec fn wire_ok_value(m: TaskValueModel) -> bool {
    match m {
        TaskValueModel::Scalar(s) => wire_ok_scalar(s),
        TaskValueModel::Table(t) => wire_ok_table(t),
    }
}

pub open spec fn senc_bools(s: Seq<bool>) -> Seq<u8>
    decreases s.len(),
{
    if s.len() == 0 {
        Seq::empty()
    } else {
        senc_bool(s[0]) + senc_bools(s.skip(1))
    }
}

pub open spec fn senc_i64s(s: Seq<i64>) -> Seq<u8>
    decreases s.len(),
{
    if s.len() == 0 {
        Seq::empty()
    } else {
        senc_i64(s[0]) + senc_i64s(s.skip(1))
    }
}

pub open spec fn senc_strings(ss: Seq<Seq<char>>) -> Seq<u8>
    decreases ss.len(),
{
    if ss.len() == 0 {
        Seq::empty()
    } else {
        senc_string(ss[0]) + senc_strings(ss.skip(1))
    }
}

pub open spec fn senc_data(d: ColDataModel) -> Seq<u8> {
    match d {
        ColDataModel::Bools(s) => seq![0u8] + senc_u64(s.len() as u64) + senc_bools(s),
        ColDataModel::Nums(s) => seq![1u8] + senc_u64(s.len() as u64) + senc_i64s(s),
        ColDataModel::Strs(ss) => seq![2u8] + senc_u64(ss.len() as u64) + senc_strings(ss),
        ColDataModel::Dates(s) => seq![3u8] + senc_u64(s.len() as u64) + senc_i64s(s),
    }
}

pub open spec fn senc_column(c: ColumnModel) -> Seq<u8> {
    senc_string(c.name) + senc_data(c.data)
}

pub open spec fn senc_columns(t: Seq<ColumnModel>) -> Seq<u8>
    decreases t.len(),
{
    if t.len() == 0 {
        Seq::empty()
    } else {
        senc_column(t[0]) + senc_columns(t.skip(1))
    }
}

pub open spec fn senc_table(t: Seq<ColumnModel>) -> Seq<u8> {
    senc_u64(t.len() as u64) + senc_columns(t)
}

/// The byte encoding of a task value model.
pub open spec fn senc_value(m: TaskValueModel) -> Seq<u8> {
    match m {
        TaskValueModel::Scalar(s) => seq![0u8] + senc_scalar(s),
        TaskValueModel::Table(t) => seq![1u8] + senc_table(t),
    }
}

// ----------------- column, table and value decoders ------------------

pub open spec fn sdec_bools(b: Seq<u8>, pos: int, n: nat) -> Option<(Seq<bool>, int)>
    decreases n,
{
    if n == 0 {
        Some((Seq::empty(), pos))
    } else {
        match sdec_bool(b, pos) {
            None => None,
            Some((v, p)) => match sdec_bools(b, p, (n - 1) as nat) {
                None => None,
                Some((s, p2)) => Some((seq![v] + s, p2)),
            },
        }
    }
}

pub open spec fn sdec_i64s(b: Seq<u8>, pos: int, n: nat) -> Option<(Seq<i64>, int)>
    decreases n,
{
    if n == 0 {
        Some((Seq::empty(), pos))
    } else {
        match sdec_i64(b, pos) {
            None => None,
            Some((v, p)) => match sdec_i64s(b, p, (n - 1) as nat) {
                None => None,
                Some((s, p2)) => Some((seq![v] + s, p2)),
            },
        }
    }
}

pub open spec fn sdec_strings(b: Seq<u8>, pos: int, n: nat) -> Option<(Seq<Seq<char>>, int)>
    decreases n,
{
    if n == 0 {
        Some((Seq::empty(), pos))
    } else {
        match sdec_string(b, pos) {
            None => None,
            Some((v, p)) => match sdec_strings(b, p, (n - 1) as nat) {
                None => None,
                Some((s, p2)) => Some((seq![v] + s, p2)),
            },
        }
    }
}

pub open spec fn sdec_data(b: Seq<u8>, pos: int) -> Option<(ColDataModel, int)> {
    match sdec_u8(b, pos) {
        None => None,
        Some((tag, p)) => match sdec_u64(b, p) {
            None => None,
            Some((n, p2)) => if n > usize::MAX as u64 {
                None
            } else if tag == 0 {
                match sdec_bools(b, p2, n as nat) {
                    None => None,
                    Some((s, p3)) => Some((ColDataModel::Bools(s), p3)),
                }
            } else if tag == 1 {
                match sdec_i64s(b, p2, n as nat) {
                    None => None,
                    Some((s, p3)) => Some((ColDataModel::Nums(s), p3)),
                }
            } else if tag == 2 {
                match sdec_strings(b, p2, n as nat) {
                    None => None,
                    Some((s, p3)) => Some((ColDataModel::Strs(s), p3)),
                }
            } else if tag == 3 {
                match sdec_i64s(b, p2, n as nat) {
                    None => None,
                    Some((s, p3)) => Some((ColDataModel::Dates(s), p3)),
                }
            } else {
                None
            },
        },
    }
}

pub open spec fn sdec_column(b: Seq<u8>, pos: int) -> Option<(ColumnModel, int)> {
    match sdec_string(b, pos) {
        None => None,
        Some((name, p)) => match sdec_data(b, p) {
            None => None,
            Some((d, p2)) => Some((ColumnModel { name: name, data: d }, p2)),
        },
    }
}

pub open spec fn sdec_columns(b: Seq<u8>, pos: int, n: nat) -> Option<(Seq<ColumnModel>, int)>
    decreases n,
{
    if n == 0 {
        Some((Seq::empty(), pos))
    } else {
        match sdec_column(b, pos) {
            None => None,
            Some((c, p)) => match sdec_columns(b, p, (n - 1) as nat) {
                None => None,
                Some((s, p2)) => Some((seq![c] + s, p2)),
            },
        }
    }
}

pub open spec fn sdec_table(b: Seq<u8>, pos: int) -> Option<(Seq<ColumnModel>, int)> {
    match sdec_u64(b, pos) {
        None => None,
        Some((n, p)) => if n > usize::MAX as u64 {
            None
        } else {
            sdec_columns(b, p, n as nat)
        },
    }
}

/// The decoding of a byte block into a task value model, if the block
/// begins with a valid encoding at `pos`.
pub open spec fn sdec_value(b: Seq<u8>, pos: int) -> Option<(TaskValueModel, int)> {
    match sdec_u8(b, pos) {
        None => None,
        Some((tag, p)) => if tag == 0 {
            match sdec_scalar(b, p) {
                None => None,
                Some((s, p2)) => Some((TaskValueModel::Scalar(s), p2)),
            }
        } else if tag == 1 {
            match sdec_table(b, p) {
                None => None,
                Some((t, p2)) => Some((TaskValueModel::Table(t), p2)),
            }
        } else {
            None
        },
    }
}

// ---------------- decode-of-encode lemmas, part two -------------------

proof fn lemma_sdec_bools(b: Seq<u8>, pos: int, s: Seq<bool>)
    requires
        0 <= pos,
        pos + senc_bools(s).len() <= b.len(),
        b.subrange(pos, pos + senc_bools(s).len()) == senc_bools(s),
    ensures
        sdec_bools(b, pos, s.len()) == Some((s, pos + senc_bools(s).len())),
    decreases s.len(),
{
    if s.len() == 0 {
        assert(s =~= Seq::<bool>::empty());
    } else {
        let e = senc_bools(s);
        let e1 = senc_bool(s[0]);
        let e2 = senc_bools(s.skip(1));
        let l1 = e1.len() as int;
        assert(b.subrange(pos, pos + l1) =~= e.subrange(0, l1));
        assert(e.subrange(0, l1) =~= e1);
        lemma_sdec_bool(b, pos, s[0]);
        assert(b.subrange(pos + l1, pos + l1 + e2.len() as int) =~= e.subrange(l1, e.len() as int));
        assert(e.subrange(l1, e.len() as int) =~= e2);
        lemma_sdec_bools(b, pos + l1, s.skip(1));
        assert(seq![s[0]] + s.skip(1) =~= s);
    }
}

proof fn lemma_sdec_i64s(b: Seq<u8>, pos: int, s: Seq<i64>)
    requires
        0 <= pos,
        pos + senc_i64s(s).len() <= b.len(),
        b.subrange(pos, pos + senc_i64s(s).len()) == senc_i64s(s),
    ensures
        sdec_i64s(b, pos, s.len()) == Some((s, pos + senc_i64s(s).len())),
    decreases s.len(),
{
    if s.len() == 0 {
        assert(s =~= Seq::<i64>::empty());
    } else {
        let e = senc_i64s(s);
        let e1 = senc_i64(s[0]);
        let e2 = senc_i64s(s.skip(1));
        lemma_auto_spec_u64_to_from_le_bytes();
        let l1 = e1.len() as int;
        assert(b.subrange(pos, pos + l1) =~= e.subrange(0, l1));
        assert(e.subrange(0, l1) =~= e1);
        lemma_sdec_i64(b, pos, s[0]);
        assert(b.subrange(pos + l1, pos + l1 + e2.len() as int) =~= e.subrange(l1, e.len() as int));
        assert(e.subrange(l1, e.len() as int) =~= e2);
        lemma_sdec_i64s(b, pos + l1, s.skip(1));
        assert(seq![s[0]] + s.skip(1) =~= s);
    }
}

proof fn lemma_sdec_strings(b: Seq<u8>, pos: int, ss: Seq<Seq<char>>)
    requires
        wire_ok_strings(ss),
        0 <= pos,
        pos + senc_strings(ss).len() <= b.len(),
        b.subrange(pos, pos + senc_strings(ss).len()) == senc_strings(ss),
    ensures
        sdec_strings(b, pos, ss.len()) == Some((ss, pos + senc_strings(ss).len())),
    decreases ss.len(),
{
    if ss.len() == 0 {
        assert(ss =~= Seq::<Seq<char>>::empty());
    } else {
        let e = senc_strings(ss);
        let e1 = senc_string(ss[0]);
        let e2 = senc_strings(ss.skip(1));
        let l1 = e1.len() as int;
        assert(b.subrange(pos, pos + l1) =~= e.subrange(0, l1));
        assert(e.subrange(0, l1) =~= e1);
        lemma_sdec_string(b, pos, ss[0]);
        assert(b.subrange(pos + l1, pos + l1 + e2.len() as int) =~= e.subrange(l1, e.len() as int));
        assert(e.subrange(l1, e.len() as int) =~= e2);
        assert forall|i: int| 0 <= i < ss.skip(1).len() implies wire_ok_string(#[trigger] ss.skip(1)[i]) by {
            assert(ss.skip(1)[i] == ss[i + 1]);
        }
        lemma_sdec_strings(b, pos + l1, ss.skip(1));
        assert(seq![ss[0]] + ss.skip(1) =~= ss);
    }
}

proof fn lemma_sdec_data(b: Seq<u8>, pos: int, d: ColDataModel)
    requires
        wire_ok_data(d),
        0 <= pos,
        pos + senc_data(d).len() <= b.len(),
        b.subrange(pos, pos + senc_data(d).len()) == senc_data(d),
    ensures
        sdec_data(b, pos) == Some((d, pos + senc_data(d).len())),
{
    let e = senc_data(d);
    assert(b[pos] == e[0]);
    lemma_auto_spec_u64_to_from_le_bytes();
    match d {
        ColDataModel::Bools(s) => {
            let n = s.len() as u64;
            assert(b.subrange(pos + 1, pos + 9) =~= e.subrange(1, 9));
            assert(e.subrange(1, 9) =~= senc_u64(n));
            lemma_sdec_u64(b, pos + 1, n);
            let e2 = senc_bools(s);
            assert(b.subrange(pos + 9, pos + 9 + e2.len() as int) =~= e.subrange(9, e.len() as int));
            assert(e.subrange(9, e.len() as int) =~= e2);
            lemma_sdec_bools(b, pos + 9, s);
        }
        ColDataModel::Nums(s) => {
            let n = s.len() as u64;
            assert(b.subrange(pos + 1, pos + 9) =~= e.subrange(1, 9));
            assert(e.subrange(1, 9) =~= senc_u64(n));
            lemma_sdec_u64(b, pos + 1, n);
            let e2 = senc_i64s(s);
            assert(b.subrange(pos + 9, pos + 9 + e2.len() as int) =~= e.subrange(9, e.len() as int));
            assert(e.subrange(9, e.len() as int) =~= e2);
            lemma_sdec_i64s(b, pos + 9, s);
        }
        ColDataModel::Strs(ss) => {
            let n = ss.len() as u64;
            assert(b.subrange(pos + 1, pos + 9) =~= e.subrange(1, 9));
            assert(e.subrange(1, 9) =~= senc_u64(n));
            lemma_sdec_u64(b, pos + 1, n);
            let e2 = senc_strings(ss);
            assert(b.subrange(pos + 9, pos + 9 + e2.len() as int) =~= e.subrange(9, e.len() as int));
            assert(e.subrange(9, e.len() as int) =~= e2);
            lemma_sdec_strings(b, pos + 9, ss);
        }
        ColDataModel::Dates(s) => {
            let n = s.len() as u64;
            assert(b.subrange(pos + 1, pos + 9) =~= e.subrange(1, 9));
            assert(e.subrange(1, 9) =~= senc_u64(n));
            lemma_sdec_u64(b, pos + 1, n);
            let e2 = senc_i64s(s);
            assert(b.subrange(pos + 9, pos + 9 + e2.len() as int) =~= e.subrange(9, e.len() as int));
            assert(e.subrange(9, e.len() as int) =~= e2);
            lemma_sdec_i64s(b, pos + 9, s);
        }
    }
}

proof fn lemma_sdec_column(b: Seq<u8>, pos: int, c: ColumnModel)
    requires
        wire_ok_column(c),
        0 <= pos,
        pos + senc_column(c).len() <= b.len(),
        b.subrange(pos, pos + senc_column(c).len()) == senc_column(c),
    ensures
        sdec_column(b, pos) == Some((c, pos + senc_column(c).len())),
{
    let e = senc_column(c);
    let e1 = senc_string(c.name);
    let e2 = senc_data(c.data);
    let l1 = e1.len() as int;
    assert(b.subrange(pos, pos + l1) =~= e.subrange(0, l1));
    assert(e.subrange(0, l1) =~= e1);
    lemma_sdec_string(b, pos, c.name);
    assert(b.subrange(pos + l1, pos + l1 + e2.len() as int) =~= e.subrange(l1, e.len() as int));
    assert(e.subrange(l1, e.len() as int) =~= e2);
    lemma_sdec_data(b, pos + l1, c.data);
}

proof fn lemma_sdec_columns(b: Seq<u8>, pos: int, t: Seq<ColumnModel>)
    requires
        forall|i: int| 0 <= i < t.len() ==> wire_ok_column(#[trigger] t[i]),
        0 <= pos,
        pos + senc_columns(t).len() <= b.len(),
        b.subrange(pos, pos + senc_columns(t).len()) == senc_columns(t),
    ensures
        sdec_columns(b, pos, t.len()) == Some((t, pos + senc_columns(t).len())),
    decreases t.len(),
{
    if t.len() == 0 {
        assert(t =~= Seq::<ColumnModel>::empty());
    } else {
        let e = senc_columns(t);
        let e1 = senc_column(t[0]);
        let e2 = senc_columns(t.skip(1));
        let l1 = e1.len() as int;
        assert(b.subrange(pos, pos + l1) =~= e.subrange(0, l1));
        assert(e.subrange(0, l1) =~= e1);
        lemma_sdec_column(b, pos, t[0]);
        assert(b.subrange(pos + l1, pos + l1 + e2.len() as int) =~= e.subrange(l1, e.len() as int));
        assert(e.subrange(l1, e.len() as int) =~= e2);
        assert forall|i: int| 0 <= i < t.skip(1).len() implies wire_ok_column(#[trigger] t.skip(1)[i]) by {
            assert(t.skip(1)[i] == t[i + 1]);
        }
        lemma_sdec_columns(b, pos + l1, t.skip(1));
        assert(seq![t[0]] + t.skip(1) =~= t);
    }
}

proof fn lemma_sdec_table(b: Seq<u8>, pos: int, t: Seq<ColumnModel>)
    requires
        wire_ok_table(t),
        0 <= pos,
        pos + senc_table(t).len() <= b.len(),
        b.subrange(pos, pos + senc_table(t).len()) == senc_table(t),
    ensures
        sdec_table(b, pos) == Some((t, pos + senc_table(t).len())),
{
    let e = senc_table(t);
    let n = t.len() as u64;
    lemma_auto_spec_u64_to_from_le_bytes();
    assert(b.subrange(pos, pos + 8) =~= e.subrange(0, 8));
    assert(e.subrange(0, 8) =~= senc_u64(n));
    lemma_sdec_u64(b, pos, n);
    let e2 = senc_columns(t);
    assert(b.subrange(pos + 8, pos + 8 + e2.len() as int) =~= e.subrange(8, e.len() as int));
    assert(e.subrange(8, e.len() as int) =~= e2);
    lemma_sdec_columns(b, pos + 8, t);
}

proof fn lemma_sdec_value(b: Seq<u8>, pos: int, m: TaskValueModel)
    requires
        wire_ok_value(m),
        0 <= pos,
        pos + senc_value(m).len() <= b.len(),
        b.subrange(pos, pos + senc_value(m).len()) == senc_value(m),
    ensures
        sdec_value(b, pos) == Some((m, pos + senc_value(m).len())),
{
    let e = senc_value(m);
    assert(b[pos] == e[0]);
    match m {
        TaskValueModel::Scalar(s) => {
            let e2 = senc_scalar(s);
            assert(b.subrange(pos + 1, pos + 1 + e2.len() as int) =~= e.subrange(1, e.len() as int));
            assert(e.subrange(1, e.len() as int) =~= e2);
            lemma_sdec_scalar(b, pos + 1, s);
        }
        TaskValueModel::Table(t) => {
            let e2 = senc_table(t);
            assert(b.subrange(pos + 1, pos + 1 + e2.len() as int) =~= e.subrange(1, e.len() as int));
            assert(e.subrange(1, e.len() as int) =~= e2);
            lemma_sdec_table(b, pos + 1, t);
        }
    }
}

/// The wire codec round-trips: decoding the encoding of any
/// well-bounded task value model yields that model again, consuming
/// the whole block.
pub proof fn lemma_wire_round_trip(m: TaskValueModel)
    requires
        wire_ok_value(m),
    ensures
        sdec_value(senc_value(m), 0) == Some((m, senc_value(m).len() as int)),
{
    let b = senc_value(m);
    assert(b.subrange(0, b.len() as int) =~= b);
    lemma_sdec_value(b, 0, m);
}

// --------------------- exec encoders, part two ------------------------

fn enc_bools(buf: &mut Vec<u8>, v: &Vec<bool>, i: usize)
    requires
        i <= v@.len(),
    ensures
        final(buf)@ == old(buf)@ + senc_bools(v@.skip(i as int)),
    decreases v@.len() - i,
{
    let n = v.len();
    if i < n {
        enc_bool(buf, v[i]);
        enc_bools(buf, v, i + 1);
        proof {
            let rest = v@.skip(i as int);
            assert(rest[0] == v@[i as int]);
            assert(rest.skip(1) =~= v@.skip(i as int + 1));
            assert(final(buf)@ =~= old(buf)@ + senc_bools(rest));
        }
    } else {
        proof {
            assert(v@.skip(i as int) =~= Seq::<bool>::empty());
            assert(final(buf)@ =~= old(buf)@ + senc_bools(v@.skip(i as int)));
        }
    }
}

fn enc_i64s(buf: &mut Vec<u8>, v: &Vec<i64>, i: usize)
    requires
        i <= v@.len(),
    ensures
        final(buf)@ == old(buf)@ + senc_i64s(v@.skip(i as int)),
    decreases v@.len() - i,
{
    let n = v.len();
    if i < n {
        enc_i64(buf, v[i]);
        enc_i64s(buf, v, i + 1);
        proof {
            let rest = v@.skip(i as int);
            assert(rest[0] == v@[i as int]);
            assert(rest.skip(1) =~= v@.skip(i as int + 1));
            assert(final(buf)@ =~= old(buf)@ + senc_i64s(rest));
        }
    } else {
        proof {
            assert(v@.skip(i as int) =~= Seq::<i64>::empty());
            assert(final(buf)@ =~= old(buf)@ + senc_i64s(v@.skip(i as int)));
        }
    }
}

fn enc_strings(buf: &mut Vec<u8>, v: &Vec<String>, i: usize)
    requires
        i <= v@.len(),
    ensures
        final(buf)@ == old(buf)@ + senc_strings(v@.map_values(|s: String| s@).skip(i as int)),
    decreases v@.len() - i,
{
    let n = v.len();
    if i < n {
        enc_string(buf, &v[i]);
        enc_strings(buf, v, i + 1);
        proof {
            let m = v@.map_values(|s: String| s@);
            let rest = m.skip(i as int);
            assert(rest[0] == m[i as int]);
            assert(rest.skip(1) =~= m.skip(i as int + 1));
            assert(final(buf)@ =~= old(buf)@ + senc_strings(rest));
        }
    } else {
        proof {
            let m = v@.map_values(|s: String| s@);
            assert(m.skip(i as int) =~= Seq::<Seq<char>>::empty());
            assert(final(buf)@ =~= old(buf)@ + senc_strings(m.skip(i as int)));
        }
    }
}

fn enc_data(buf: &mut Vec<u8>, d: &ColumnData)
    ensures
        final(buf)@ == old(buf)@ + senc_data(d@),
{
    match d {
        ColumnData::Bools(v) => {
            enc_u8(buf, 0);
            enc_u64(buf, v.len() as u64);
            enc_bools(buf, v, 0);
            proof {
                assert(v@.skip(0) =~= v@);
            }
        }
        ColumnData::Nums(v) => {
            enc_u8(buf, 1);
            enc_u64(buf, v.len() as u64);
            enc_i64s(buf, v, 0);
            proof {
                assert(v@.skip(0) =~= v@);
            }
        }
        ColumnData::Strs(v) => {
            enc_u8(buf, 2);
            enc_u64(buf, v.len() as u64);
            enc_strings(buf, v, 0);
            proof {
                let m = v@.map_values(|s: String| s@);
                assert(m.skip(0) =~= m);
            }
        }
        ColumnData::Dates(v) => {
            enc_u8(buf, 3);
            enc_u64(buf, v.len() as u64);
            enc_i64s(buf, v, 0);
            proof {
                assert(v@.skip(0) =~= v@);
            }
        }
    }
    assert(final(buf)@ =~= old(buf)@ + senc_data(d@));
}

fn enc_column(buf: &mut Vec<u8>, c: &Column)
    ensures
        final(buf)@ == old(buf)@ + senc_column(c@),
{
    enc_string(buf, &c.name);
    enc_data(buf, &c.data);
    assert(final(buf)@ =~= old(buf)@ + senc_column(c@));
}

fn enc_columns(buf: &mut Vec<u8>, cols: &Vec<Column>, i: usize)
    requires
        i <= cols@.len(),
    ensures
        final(buf)@ == old(buf)@ + senc_columns(cols@.map_values(|c: Column| c@).skip(i as int)),
    decreases cols@.len() - i,
{
    let n = cols.len();
    if i < n {
        enc_column(buf, &cols[i]);
        enc_columns(buf, cols, i + 1);
        proof {
            let m = cols@.map_values(|c: Column| c@);
            let rest = m.skip(i as int);
            assert(rest[0] == m[i as int]);
            assert(rest.skip(1) =~= m.skip(i as int + 1));
            assert(final(buf)@ =~= old(buf)@ + senc_columns(rest));
        }
    } else {
        proof {
            let m = cols@.map_values(|c: Column| c@);
            assert(m.skip(i as int) =~= Seq::<ColumnModel>::empty());
            assert(final(buf)@ =~= old(buf)@ + senc_columns(m.skip(i as int)));
        }
    }
}

fn enc_table(buf: &mut Vec<u8>, t: &Table)
    ensures
        final(buf)@ == old(buf)@ + senc_table(t@),
{
    enc_u64(buf, t.columns.len() as u64);
    enc_columns(buf, &t.columns, 0);
    proof {
        let m = t.columns@.map_values(|c: Column| c@);
        assert(m.skip(0) =~= m);
        assert(final(buf)@ =~= old(buf)@ + senc_table(t@));
    }
}

/// Encode a task value into its wire byte block.
pub fn encode_task_value(v: &TaskValue) -> (r: Vec<u8>)
    ensures
        r@ == senc_value(v@),
{
    let mut buf: Vec<u8> = Vec::new();
    match v {
        TaskValue::Scalar(s) => {
            enc_u8(&mut buf, 0);
            enc_scalar(&mut buf, s);
        }
        TaskValue::Table(t) => {
            enc_u8(&mut buf, 1);
            enc_table(&mut buf, t);
        }
    }
    proof {
        assert(buf@ =~= senc_value(v@));
    }
    buf
}

// --------------------- exec decoders, part two ------------------------

fn dec_bools_into(bytes: &[u8], pos: usize, n: usize, out: &mut Vec<bool>) -> (r: Option<usize>)
    ensures
        match sdec_bools(bytes@, pos as int, n as nat) {
            None => r is None,
            Some((s, p)) => (match r {
                None => false,
                Some(q) => q as int == p,
            }) && final(out)@ == old(out)@ + s,
        },
    decreases n,
{
    if n == 0 {
        proof {
            assert(old(out)@ + Seq::<bool>::empty() =~= old(out)@);
        }
        Some(pos)
    } else {
        match dec_bool(bytes, pos) {
            None => None,
            Some((v, p)) => {
                out.push(v);
                let r = dec_bools_into(bytes, p, n - 1, out);
                proof {
                    if let Some((s, p2)) = sdec_bools(bytes@, p as int, (n - 1) as nat) {
                        assert(old(out)@.push(v) + s =~= old(out)@ + (seq![v] + s));
                    }
                }
                r
            }
        }
    }
}

fn dec_i64s_into(bytes: &[u8], pos: usize, n: usize, out: &mut Vec<i64>) -> (r: Option<usize>)
    ensures
        match sdec_i64s(bytes@, pos as int, n as nat) {
            None => r is None,
            Some((s, p)) => (match r {
                None => false,
                Some(q) => q as int == p,
            }) && final(out)@ == old(out)@ + s,
        },
    decreases n,
{
    if n == 0 {
        proof {
            assert(old(out)@ + Seq::<i64>::empty() =~= old(out)@);
        }
        Some(pos)
    } else {
        match dec_i64(bytes, pos) {
            None => None,
            Some((v, p)) => {
                out.push(v);
                let r = dec_i64s_into(bytes, p, n - 1, out);
                proof {
                    if let Some((s, p2)) = sdec_i64s(bytes@, p as int, (n - 1) as nat) {
                        assert(old(out)@.push(v) + s =~= old(out)@ + (seq![v] + s));
                    }
                }
                r
            }
        }
    }
}

fn dec_strings_into(bytes: &[u8], pos: usize, n: usize, out: &mut Vec<String>) -> (r: Option<
    usize,
>)
    ensures
        match sdec_strings(bytes@, pos as int, n as nat) {
            None => r is None,
            Some((s, p)) => (match r {
                None => false,
                Some(q) => q as int == p,
            }) && final(out)@.map_values(|x: String| x@) == old(out)@.map_values(|x: String| x@)
                + s,
        },
    decreases n,
{
    if n == 0 {
        proof {
            assert(old(out)@.map_values(|x: String| x@) + Seq::<Seq<char>>::empty() =~= old(
                out,
            )@.map_values(|x: String| x@));
        }
        Some(pos)
    } else {
        match dec_string(bytes, pos) {
            None => None,
            Some((v, p)) => {
                let ghost vv = v@;
                let ghost out0 = out@;
                out.push(v);
                proof {
                    let f = |x: String| x@;
                    assert(out@.map_values(f) =~= out0.map_values(f).push(vv));
                }
                let r = dec_strings_into(bytes, p, n - 1, out);
                proof {
                    let f = |x: String| x@;
                    if let Some((s, p2)) = sdec_strings(bytes@, p as int, (n - 1) as nat) {
                        assert(out0.map_values(f).push(vv) + s =~= out0.map_values(f) + (seq![vv]
                            + s));
                    }
                }
                r
            }
        }
    }
}

fn dec_data(bytes: &[u8], pos: usize) -> (r: Option<(ColumnData, usize)>)
    ensures
        match sdec_data(bytes@, pos as int) {
            None => r is None,
            Some((m, p)) => match r {
                None => false,
                Some((v, q)) => v@ == m && q as int == p,
            },
        },
{
    match dec_u8(bytes, pos) {
        None => None,
        Some((tag, p)) => match dec_u64(bytes, p) {
            None => None,
            Some((n64, p2)) => {
                if n64 > usize::MAX as u64 {
                    None
                } else {
                    let n = n64 as usize;
                    if tag == 0 {
                        let mut cells: Vec<bool> = Vec::new();
                        match dec_bools_into(bytes, p2, n, &mut cells) {
                            None => None,
                            Some(p3) => Some((ColumnData::Bools(cells), p3)),
                        }
                    } else if tag == 1 {
                        let mut cells: Vec<i64> = Vec::new();
                        match dec_i64s_into(bytes, p2, n, &mut cells) {
                            None => None,
                            Some(p3) => Some((ColumnData::Nums(cells), p3)),
                        }
                    } else if tag == 2 {
                        let mut cells: Vec<String> = Vec::new();
                        match dec_strings_into(bytes, p2, n, &mut cells) {
                            None => None,
                            Some(p3) => {
                                proof {
                                    let f = |x: String| x@;
                                    if let Some((s, pp)) = sdec_strings(
                                        bytes@,
                                        p2 as int,
                                        n as nat,
                                    ) {
                                        assert(Seq::<String>::empty().map_values(f) + s =~= s);
                                    }
                                }
                                Some((ColumnData::Strs(cells), p3))
                            }
                        }
                    } else if tag == 3 {
                        let mut cells: Vec<i64> = Vec::new();
                        match dec_i64s_into(bytes, p2, n, &mut cells) {
                            None => None,
                            Some(p3) => Some((ColumnData::Dates(cells), p3)),
                        }
                    } else {
                        None
                    }
                }
            }
        },
    }
}

fn dec_column(bytes: &[u8], pos: usize) -> (r: Option<(Column, usize)>)
    ensures
        match sdec_column(bytes@, pos as int) {
            None => r is None,
            Some((m, p)) => match r {
                None => false,
                Some((v, q)) => v@ == m && q as int == p,
            },
        },
{
    match dec_string(bytes, pos) {
        None => None,
        Some((name, p)) => match dec_data(bytes, p) {
            None => None,
            Some((d, p2)) => Some((Column { name: name, data: d }, p2)),
        },
    }
}

fn dec_columns_into(bytes: &[u8], pos: usize, n: usize, out: &mut Vec<Column>) -> (r: Option<
    usize,
>)
    ensures
        match sdec_columns(bytes@, pos as int, n as nat) {
            None => r is None,
            Some((s, p)) => (match r {
                None => false,
                Some(q) => q as int == p,
            }) && final(out)@.map_values(|c: Column| c@) == old(out)@.map_values(|c: Column| c@)
                + s,
        },
    decreases n,
{
    if n == 0 {
        proof {
            assert(old(out)@.map_values(|c: Column| c@) + Seq::<ColumnModel>::empty() =~= old(
                out,
            )@.map_values(|c: Column| c@));
        }
        Some(pos)
    } else {
        match dec_column(bytes, pos) {
            None => None,
            Some((v, p)) => {
                let ghost vv = v@;
                let ghost out0 = out@;
                out.push(v);
                proof {
                    let f = |c: Column| c@;
                    assert(out@.map_values(f) =~= out0.map_values(f).push(vv));
                }
                let r = dec_columns_into(bytes, p, n - 1, out);
                proof {
                    let f = |c: Column| c@;
                    if let Some((s, p2)) = sdec_columns(bytes@, p as int, (n - 1) as nat) {
                        assert(out0.map_values(f).push(vv) + s =~= out0.map_values(f) + (seq![vv]
                            + s));
                    }
                }
                r
            }
        }
    }
}

fn dec_table(bytes: &[u8], pos: usize) -> (r: Option<(Table, usize)>)
    ensures
        match sdec_table(bytes@, pos as int) {
            None => r is None,
            Some((m, p)) => match r {
                None => false,
                Some((v, q)) => v@ == m && q as int == p,
            },
        },
{
    match dec_u64(bytes, pos) {
        None => None,
        Some((n64, p)) => {
            if n64 > usize::MAX as u64 {
                None
            } else {
                let n = n64 as usize;
                let mut cols: Vec<Column> = Vec::new();
                match dec_columns_into(bytes, p, n, &mut cols) {
                    None => None,
                    Some(p2) => {
                        proof {
                            let f = |c: Column| c@;
                            if let Some((s, pp)) = sdec_columns(bytes@, p as int, n as nat) {
                                assert(Seq::<Column>::empty().map_values(f) + s =~= s);
                            }
                        }
                        Some((Table { columns: cols }, p2))
                    }
                }
            }
        }
    }
}

fn dec_value(bytes: &[u8], pos: usize) -> (r: Option<(TaskValue, usize)>)
    ensures
        match sdec_value(bytes@, pos as int) {
            None => r is None,
            Some((m, p)) => match r {
                None => false,
                Some((v, q)) => v@ == m && q as int == p,
            },
        },
{
    match dec_u8(bytes, pos) {
        None => None,
        Some((tag, p)) => {
            if tag == 0 {
                match dec_scalar(bytes, p) {
                    None => None,
                    Some((s, p2)) => Some((TaskValue::Scalar(s), p2)),
                }
            } else if tag == 1 {
                match dec_table(bytes, p) {
                    None => None,
                    Some((t, p2)) => Some((TaskValue::Table(t), p2)),
                }
            } else {
                None
            }
        }
    }
}

/// Decode a wire byte block back into a task value.
///
/// Together with `encode_task_value` this states the round-trip law:
/// for any well-bounded model, decoding its encoding yields the same
/// model. Success is owed exactly when the bytes are one complete
/// encoding (as `sdec_value` reads them); anything else is rejected.
pub fn decode_task_value(bytes: &[u8]) -> (r: Result<TaskValue, VegaFusionError>)
    ensures
        forall|m: TaskValueModel|
            wire_ok_value(m) && bytes@ == #[trigger] senc_value(m) ==> r is Ok && r->Ok_0@ == m,
        match sdec_value(bytes@, 0) {
            None => r is Err,
            Some((m, p)) => {
                &&& r is Ok <==> p == bytes@.len()
                &&& r is Ok ==> r->Ok_0@ == m
            },
        },
        r is Err ==> r->Err_0 is External,
{
    let n = bytes.len();
    match dec_value(bytes, 0) {
        Some((v, p)) => {
            if p == n {
                proof {
                    assert forall|m: TaskValueModel|
                        wire_ok_value(m) && bytes@ == #[trigger] senc_value(m) implies v@
                        == m by {
                        assert(bytes@.subrange(0, bytes@.len() as int) =~= bytes@);
                        lemma_sdec_value(bytes@, 0, m);
                    }
                }
                Ok(v)
            } else {
                proof {
                    assert forall|m: TaskValueModel|
                        !(wire_ok_value(m) && bytes@ == #[trigger] senc_value(m)) by {
                        if wire_ok_value(m) && bytes@ == senc_value(m) {
                            assert(bytes@.subrange(0, bytes@.len() as int) =~= bytes@);
                            lemma_sdec_value(bytes@, 0, m);
                        }
                    }
                }
                Err(VegaFusionError::external("Trailing bytes after the encoded task value"))
            }
        }
        None => {
            proof {
                assert forall|m: TaskValueModel|
                    !(wire_ok_value(m) && bytes@ == #[trigger] senc_value(m)) by {
                    if wire_ok_value(m) && bytes@ == senc_value(m) {
                        assert(bytes@.subrange(0, bytes@.len() as int) =~= bytes@);
                        lemma_sdec_value(bytes@, 0, m);
                    }
                }
            }
            Err(VegaFusionError::external("Malformed task value byte block"))
        }
    }
}

} // verus!

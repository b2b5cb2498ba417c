//! The transported form of a proof artifact.
//!
//! An artifact travels as one JSON object with its fields in a fixed order,
//! the receipt blob in base64 and the program digest in hex:
//! `{"productFootprintId":...,"proofReceipt":...,"proofReference":...,
//! "pcf":...,"imageId":...}`, with the PCF as a plain decimal number.
//! [`parsed_artifact`] is the exact grammar; the encoder writes into it and
//! the decoder reads all of it, so encoding and then decoding reproduces
//! every field.

use vstd::prelude::*;
use crate::amount::{Amount, char_pos, decimal_value, is_digit, lemma_char_pos_is, valid_decimal};
use crate::product_footprint::ProductProof;

verus! {

/// A text that may stand inside a JSON string without escaping: no quote
/// and no backslash.
pub open spec fn json_string_ok(s: Seq<char>) -> bool {
    forall|i: int| 0 <= i < s.len() ==> #[trigger] s[i] != '"' && s[i] != '\\'
}

/// An artifact whose text fields can travel without escaping.
pub open spec fn artifact_encodable(p: ProductProof) -> bool {
    &&& json_string_ok(p.productFootprintId@)
    &&& json_string_ok(p.proofReceipt@)
    &&& json_string_ok(p.proofReference@)
    &&& json_string_ok(p.imageId@)
}

/// The field views of an artifact, in transport order.
pub open spec fn artifact_fields(p: ProductProof) -> (Seq<char>, Seq<char>, Seq<char>, int, Seq<
    char,
>) {
    (p.productFootprintId@, p.proofReceipt@, p.proofReference@, p.pcf.as_int(), p.imageId@)
}

pub open spec fn lit_head() -> Seq<char> {
    "{\"productFootprintId\":\""@
}

pub open spec fn lit_receipt() -> Seq<char> {
    "\",\"proofReceipt\":\""@
}

pub open spec fn lit_reference() -> Seq<char> {
    "\",\"proofReference\":\""@
}

pub open spec fn lit_pcf() -> Seq<char> {
    "\",\"pcf\":"@
}

pub open spec fn lit_image() -> Seq<char> {
    ",\"imageId\":\""@
}

pub open spec fn lit_tail() -> Seq<char> {
    "\"}"@
}

/// Takes a fixed literal off the front of the text.
pub open spec fn strip(s: Seq<char>, lit: Seq<char>) -> Option<Seq<char>> {
    if lit.len() <= s.len() && s.take(lit.len() as int) == lit {
        Some(s.skip(lit.len() as int))
    } else {
        None
    }
}

/// Takes a string field off the front: everything before the next quote,
/// which must exist; the rest begins at that quote.
pub open spec fn take_field(s: Seq<char>) -> Option<(Seq<char>, Seq<char>)> {
    let k = char_pos(s, '"');
    if k == s.len() {
        None
    } else {
        Some((s.take(k), s.skip(k)))
    }
}

/// The grammar of a transported artifact: what each field reads as, or
/// `None` for any text not of that exact shape.
pub open spec fn parsed_artifact(s: Seq<char>) -> Option<
    (Seq<char>, Seq<char>, Seq<char>, int, Seq<char>),
> {
    match strip(s, lit_head()) {
        None => None,
        Some(s1) => match take_field(s1) {
            None => None,
            Some((id, s2)) => match strip(s2, lit_receipt()) {
                None => None,
                Some(s3) => match take_field(s3) {
                    None => None,
                    Some((receipt, s4)) => match strip(s4, lit_reference()) {
                        None => None,
                        Some(s5) => match take_field(s5) {
                            None => None,
                            Some((reference, s6)) => match strip(s6, lit_pcf()) {
                                None => None,
                                Some(s7) => {
                                    let k = char_pos(s7, ',');
                                    match decimal_value(s7.take(k)) {
                                        None => None,
                                        Some(v) => match strip(s7.skip(k), lit_image()) {
                                            None => None,
                                            Some(s8) => match take_field(s8) {
                                                None => None,
                                                Some((image, s9)) => if s9 == lit_tail() {
                                                    Some((id, receipt, reference, v, image))
                                                } else {
                                                    None
                                                },
                                            },
                                        },
                                    }
                                },
                            },
                        },
                    },
                },
            },
        },
    }
}

proof fn reveal_lits()
    ensures
        lit_head().len() == 23,
        lit_receipt().len() == 18,
        lit_reference().len() == 20,
        lit_pcf().len() == 8,
        lit_image().len() == 12,
        lit_tail().len() == 2,
        lit_head()[22] == '"',
        lit_receipt()[0] == '"',
        lit_receipt()[17] == '"',
        lit_reference()[0] == '"',
        lit_reference()[19] == '"',
        lit_pcf()[0] == '"',
        lit_image()[0] == ',',
        lit_image()[11] == '"',
        lit_tail()[0] == '"',
{
    reveal_strlit("{\"productFootprintId\":\"");
    reveal_strlit("\",\"proofReceipt\":\"");
    reveal_strlit("\",\"proofReference\":\"");
    reveal_strlit("\",\"pcf\":");
    reveal_strlit(",\"imageId\":\"");
    reveal_strlit("\"}");
}

/// Every character of a valid decimal is a digit or the point; in
/// particular none is a comma.
proof fn lemma_valid_decimal_chars(t: Seq<char>)
    requires
        valid_decimal(t),
    ensures
        forall|j: int| 0 <= j < t.len() ==> is_digit(#[trigger] t[j]) || t[j] == '.',
{
    let d = char_pos(t, '.');
    crate::amount::lemma_char_pos_spec(t, '.');
    assert forall|j: int| 0 <= j < t.len() implies is_digit(#[trigger] t[j]) || t[j] == '.' by {
        if d == t.len() {
            assert(t[j] == t[j]);
        } else if j < d {
            assert(t.take(d)[j] == t[j]);
        } else if j > d {
            assert(t.skip(d + 1)[j - d - 1] == t[j]);
        }
    }
}

/// Writes the transported form of an artifact.
#[verifier::rlimit(100)]
#[verifier::spinoff_prover]
pub fn encode_artifact(p: &ProductProof) -> (r: String)
    requires
        artifact_encodable(*p),
    ensures
        parsed_artifact(r@) == Some(artifact_fields(*p)),
{
    let pcf_text = p.pcf.to_decimal_string();
    let mut s = String::new();
    s.append("{\"productFootprintId\":\"");
    s.append(p.productFootprintId.as_str());
    s.append("\",\"proofReceipt\":\"");
    s.append(p.proofReceipt.as_str());
    s.append("\",\"proofReference\":\"");
    s.append(p.proofReference.as_str());
    s.append("\",\"pcf\":");
    s.append(pcf_text.as_str());
    s.append(",\"imageId\":\"");
    s.append(p.imageId.as_str());
    s.append("\"}");
    proof {
        reveal_lits();
        let id = p.productFootprintId@;
        let rc = p.proofReceipt@;
        let rf = p.proofReference@;
        let im = p.imageId@;
        let pt = pcf_text@;
        let t = s@;
        assert(t =~= lit_head() + id + lit_receipt() + rc + lit_reference() + rf + lit_pcf() + pt
            + lit_image() + im + lit_tail());

        // strip the head literal
        assert(t.take(23) =~= lit_head());
        let s1 = t.skip(23);
        assert(s1 =~= id + lit_receipt() + rc + lit_reference() + rf + lit_pcf() + pt + lit_image()
            + im + lit_tail());

        // the id field ends at the first quote, which opens lit_receipt
        assert forall|j: int| 0 <= j < id.len() implies s1[j] != '"' by {
            assert(s1[j] == id[j]);
        }
        assert(s1[id.len() as int] == '"');
        lemma_char_pos_is(s1, '"', id.len() as int);
        assert(s1.take(id.len() as int) =~= id);
        let s2 = s1.skip(id.len() as int);
        assert(s2 =~= lit_receipt() + rc + lit_reference() + rf + lit_pcf() + pt + lit_image() + im
            + lit_tail());

        assert(s2.take(18) =~= lit_receipt());
        let s3 = s2.skip(18);
        assert(s3 =~= rc + lit_reference() + rf + lit_pcf() + pt + lit_image() + im + lit_tail());

        assert forall|j: int| 0 <= j < rc.len() implies s3[j] != '"' by {
            assert(s3[j] == rc[j]);
        }
        assert(s3[rc.len() as int] == '"');
        lemma_char_pos_is(s3, '"', rc.len() as int);
        assert(s3.take(rc.len() as int) =~= rc);
        let s4 = s3.skip(rc.len() as int);
        assert(s4 =~= lit_reference() + rf + lit_pcf() + pt + lit_image() + im + lit_tail());

        assert(s4.take(20) =~= lit_reference());
        let s5 = s4.skip(20);
        assert(s5 =~= rf + lit_pcf() + pt + lit_image() + im + lit_tail());

        assert forall|j: int| 0 <= j < rf.len() implies s5[j] != '"' by {
            assert(s5[j] == rf[j]);
        }
        assert(s5[rf.len() as int] == '"');
        lemma_char_pos_is(s5, '"', rf.len() as int);
        assert(s5.take(rf.len() as int) =~= rf);
        let s6 = s5.skip(rf.len() as int);
        assert(s6 =~= lit_pcf() + pt + lit_image() + im + lit_tail());

        assert(s6.take(8) =~= lit_pcf());
        let s7 = s6.skip(8);
        assert(s7 =~= pt + lit_image() + im + lit_tail());

        // the pcf number ends at the first comma, which opens lit_image
        lemma_valid_decimal_chars(pt);
        assert forall|j: int| 0 <= j < pt.len() implies s7[j] != ',' by {
            assert(s7[j] == pt[j]);
        }
        assert(s7[pt.len() as int] == ',');
        lemma_char_pos_is(s7, ',', pt.len() as int);
        assert(s7.take(pt.len() as int) =~= pt);
        assert(decimal_value(pt) == Some(p.pcf.as_int()));
        let s7r = s7.skip(pt.len() as int);
        assert(s7r =~= lit_image() + im + lit_tail());

        assert(s7r.take(12) =~= lit_image());
        let s8 = s7r.skip(12);
        assert(s8 =~= im + lit_tail());

        assert forall|j: int| 0 <= j < im.len() implies s8[j] != '"' by {
            assert(s8[j] == im[j]);
        }
        assert(s8[im.len() as int] == '"');
        lemma_char_pos_is(s8, '"', im.len() as int);
        assert(s8.take(im.len() as int) =~= im);
        let s9 = s8.skip(im.len() as int);
        assert(s9 =~= lit_tail());
    }
    s
}

/// Whether the text at `i` continues with `lit`.
fn match_lit(s: &str, i: usize, lit: &str) -> (r: bool)
    requires
        i <= s@.len(),
    ensures
        r == (i + lit@.len() <= s@.len() && s@.subrange(i as int, i + lit@.len()) == lit@),
{
    let m = lit.unicode_len();
    let n = s.unicode_len();
    if m > n - i {
        return false;
    }
    let mut k: usize = 0;
    while k < m
        invariant
            0 <= k <= m,
            i + m <= n,
            m == lit@.len(),
            n == s@.len(),
            forall|t: int| 0 <= t < k ==> s@[i + t] == lit@[t],
        decreases m - k,
    {
        if s.get_char(i + k) != lit.get_char(k) {
            proof {
                let sub = s@.subrange(i as int, i + lit@.len());
                assert(sub[k as int] == s@[i + k]);
            }
            return false;
        }
        k = k + 1;
    }
    proof {
        assert(s@.subrange(i as int, i + lit@.len()) =~= lit@);
    }
    true
}

/// Index of the first occurrence of `c` at or after `start`, or the text's
/// length if absent.
fn find_char_from(s: &str, start: usize, c: char) -> (r: usize)
    requires
        start <= s@.len(),
    ensures
        r == start + char_pos(s@.skip(start as int), c),
        start <= r <= s@.len(),
{
    let n = s.unicode_len();
    let mut i = start;
    while i < n
        invariant
            start <= i <= n,
            n == s@.len(),
            forall|j: int| start <= j < i ==> s@[j] != c,
        decreases n - i,
    {
        if s.get_char(i) == c {
            proof {
                assert forall|j: int| 0 <= j < i - start implies s@.skip(start as int)[j] != c by {
                    assert(s@.skip(start as int)[j] == s@[start + j]);
                }
                assert(s@.skip(start as int)[i - start] == s@[i as int]);
                lemma_char_pos_is(s@.skip(start as int), c, i - start);
            }
            return i;
        }
        i = i + 1;
    }
    proof {
        assert forall|j: int| 0 <= j < n - start implies s@.skip(start as int)[j] != c by {
            assert(s@.skip(start as int)[j] == s@[start + j]);
        }
        lemma_char_pos_is(s@.skip(start as int), c, n - start);
    }
    n
}

/// Reads the transported form of an artifact back into its fields.
#[verifier::rlimit(100)]
#[verifier::spinoff_prover]
pub fn decode_artifact(s: &str) -> (r: Option<ProductProof>)
    ensures
        match r {
            Some(p) => parsed_artifact(s@) == Some(artifact_fields(p)),
            None => parsed_artifact(s@) is None,
        },
{
    proof {
        reveal_lits();
    }
    let n = s.unicode_len();
    let ghost t = s@;

    // head literal
    if !match_lit(s, 0, "{\"productFootprintId\":\"") {
        proof {
            if lit_head().len() <= t.len() {
                assert(t.take(23) =~= t.subrange(0, 23));
            }
        }
        return None;
    }
    let mut i: usize = 23;
    proof {
        assert(t.take(23) =~= t.subrange(0, 23));
        assert(strip(t, lit_head()) == Some(t.skip(23)));
    }

    // the id field
    let j = find_char_from(s, i, '"');
    if j == n {
        proof {
            assert(char_pos(t.skip(23), '"') == t.skip(23).len());
        }
        return None;
    }
    let id = s.substring_char(i, j).to_owned();
    proof {
        assert(t.skip(23).take(j - 23) =~= t.subrange(23, j as int));
        assert(id@ == t.skip(23).take(char_pos(t.skip(23), '"')));
        assert(t.skip(23).skip(j - 23) =~= t.skip(j as int));
    }

    // receipt
    if !match_lit(s, j, "\",\"proofReceipt\":\"") {
        proof {
            if lit_receipt().len() <= t.skip(j as int).len() {
                assert(t.skip(j as int).take(18) =~= t.subrange(j as int, j + 18));
            }
        }
        return None;
    }
    i = j + 18;
    proof {
        assert(t.skip(j as int).take(18) =~= t.subrange(j as int, j + 18));
        assert(t.skip(j as int).skip(18) =~= t.skip(j + 18));
    }
    let j2 = find_char_from(s, i, '"');
    if j2 == n {
        return None;
    }
    let receipt = s.substring_char(i, j2).to_owned();
    proof {
        assert(t.skip(i as int).take(j2 - i) =~= t.subrange(i as int, j2 as int));
        assert(t.skip(i as int).skip(j2 - i) =~= t.skip(j2 as int));
    }

    // reference
    if !match_lit(s, j2, "\",\"proofReference\":\"") {
        proof {
            if lit_reference().len() <= t.skip(j2 as int).len() {
                assert(t.skip(j2 as int).take(20) =~= t.subrange(j2 as int, j2 + 20));
            }
        }
        return None;
    }
    i = j2 + 20;
    proof {
        assert(t.skip(j2 as int).take(20) =~= t.subrange(j2 as int, j2 + 20));
        assert(t.skip(j2 as int).skip(20) =~= t.skip(j2 + 20));
    }
    let j3 = find_char_from(s, i, '"');
    if j3 == n {
        return None;
    }
    let reference = s.substring_char(i, j3).to_owned();
    proof {
        assert(t.skip(i as int).take(j3 - i) =~= t.subrange(i as int, j3 as int));
        assert(t.skip(i as int).skip(j3 - i) =~= t.skip(j3 as int));
    }

    // pcf
    if !match_lit(s, j3, "\",\"pcf\":") {
        proof {
            if lit_pcf().len() <= t.skip(j3 as int).len() {
                assert(t.skip(j3 as int).take(8) =~= t.subrange(j3 as int, j3 + 8));
            }
        }
        return None;
    }
    i = j3 + 8;
    proof {
        assert(t.skip(j3 as int).take(8) =~= t.subrange(j3 as int, j3 + 8));
        assert(t.skip(j3 as int).skip(8) =~= t.skip(j3 + 8));
    }
    let j4 = find_char_from(s, i, ',');
    let pcf_text = s.substring_char(i, j4);
    proof {
        assert(t.skip(i as int).take(j4 - i) =~= t.subrange(i as int, j4 as int));
        assert(t.skip(i as int).skip(j4 - i) =~= t.skip(j4 as int));
    }
    let pcf = match Amount::parse_decimal(pcf_text) {
        Some(a) => a,
        None => {
            return None;
        },
    };

    // image id
    if !match_lit(s, j4, ",\"imageId\":\"") {
        proof {
            if lit_image().len() <= t.skip(j4 as int).len() {
                assert(t.skip(j4 as int).take(12) =~= t.subrange(j4 as int, j4 + 12));
            }
        }
        return None;
    }
    i = j4 + 12;
    proof {
        assert(t.skip(j4 as int).take(12) =~= t.subrange(j4 as int, j4 + 12));
        assert(t.skip(j4 as int).skip(12) =~= t.skip(j4 + 12));
    }
    let j5 = find_char_from(s, i, '"');
    if j5 == n {
        return None;
    }
    let image = s.substring_char(i, j5).to_owned();
    proof {
        assert(t.skip(i as int).take(j5 - i) =~= t.subrange(i as int, j5 as int));
        assert(t.skip(i as int).skip(j5 - i) =~= t.skip(j5 as int));
    }

    // the closing quote and brace, and nothing after them
    if !match_lit(s, j5, "\"}") {
        proof {
            if lit_tail().len() <= t.skip(j5 as int).len() {
                assert(t.skip(j5 as int).take(2) =~= t.subrange(j5 as int, j5 + 2));
            }
            assert(t.skip(j5 as int) != lit_tail());
        }
        return None;
    }
    if j5 + 2 != n {
        proof {
            assert(t.skip(j5 as int).len() != 2);
            assert(t.skip(j5 as int) != lit_tail());
        }
        return None;
    }
    proof {
        assert(t.skip(j5 as int) =~= t.subrange(j5 as int, j5 + 2));
        assert(t.skip(j5 as int) == lit_tail());
    }
    Some(
        ProductProof {
            productFootprintId: id,
            proofReceipt: receipt,
            pcf,
            proofReference: reference,
            imageId: image,
        },
    )
}

} // verus!

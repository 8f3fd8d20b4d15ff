use vstd::prelude::*;
use vstd::slice::slice_subrange;
use crate::canvas::{Canvas, SIZE};

verus! {

/// serde_json::Error, the failure that serde_json's encoder and reader return;
/// carried opaquely and mapped to `CanvasError`.
#[verifier::external_type_specification]
#[verifier::external_body]
pub struct ExJsonError(serde_json::Error);

/// Why a canvas could not be written or read back.
#[derive(Debug, Clone, Copy, PartialEq, Eq, Structural)]
pub enum CanvasError {
    /// The pixel array could not be encoded; encoding a byte grid never fails.
    Serialize,
    /// The text is not a pixel document.
    Parse,
    /// The document's pixel array does not hold one value per cell.
    LengthMismatch { found: usize },
}

/// The ASCII decimal digits of `n`, most significant first, without leading zeros.
pub open spec fn decimal(n: nat) -> Seq<u8>
    decreases n,
{
    if n < 10 {
        seq![(48 + n) as u8]
    } else {
        decimal(n / 10) + seq![(48 + n % 10) as u8]
    }
}

/// The decimal forms of the values of `v`, separated by commas.
pub open spec fn joined(v: Seq<u8>) -> Seq<u8>
    decreases v.len(),
{
    if v.len() == 0 {
        Seq::empty()
    } else if v.len() == 1 {
        decimal(v[0] as nat)
    } else {
        joined(v.drop_last()) + seq![44u8] + decimal(v.last() as nat)
    }
}

/// The compact JSON array of the values of `v`.
pub open spec fn array_text(v: Seq<u8>) -> Seq<u8> {
    seq![91u8] + joined(v) + seq![93u8]
}

/// The text `{"pixels":` that opens a document.
pub open spec fn doc_prefix() -> Seq<u8> {
    seq![123u8, 34u8, 112u8, 105u8, 120u8, 101u8, 108u8, 115u8, 34u8, 58u8]
}

/// The document that holds the cells `v`: an object whose only field,
/// `pixels`, is the array of the cells.
pub open spec fn doc_text(v: Seq<u8>) -> Seq<u8> {
    doc_prefix() + array_text(v) + seq![125u8]
}

/// JSON whitespace: space, tab, line feed, carriage return.
pub open spec fn is_ws(b: u8) -> bool {
    b == 32u8 || b == 9u8 || b == 10u8 || b == 13u8
}

/// The first position at or after `i` that is not whitespace (or the end).
pub open spec fn skip_ws(t: Seq<u8>, i: int) -> int
    decreases t.len() - i,
{
    if 0 <= i < t.len() && is_ws(t[i]) {
        skip_ws(t, i + 1)
    } else {
        i
    }
}

/// The end of `t` up to `j` once trailing whitespace is dropped.
pub open spec fn trim_end(t: Seq<u8>, j: int) -> int
    decreases j,
{
    if 0 < j <= t.len() && is_ws(t[j - 1]) {
        trim_end(t, j - 1)
    } else {
        j
    }
}

/// The key `"pixels"` written plainly, quotes included.
pub open spec fn key_text() -> Seq<u8> {
    seq![34u8, 112u8, 105u8, 120u8, 101u8, 108u8, 115u8, 34u8]
}

/// The UTF-8 bytes of the name `pixels`.
pub open spec fn key_name() -> Seq<u8> {
    seq![112u8, 105u8, 120u8, 101u8, 108u8, 115u8]
}

/// Position of the `"` that ends a JSON string whose contents start at `j`: a
/// backslash escapes the byte after it. The length of `t` when no such quote
/// is found.
pub open spec fn string_end(t: Seq<u8>, j: int) -> int
    decreases t.len() + 1 - j,
{
    if j < 0 || j >= t.len() {
        t.len() as int
    } else if t[j] == 34u8 {
        j
    } else if t[j] == 92u8 {
        string_end(t, j + 2)
    } else {
        string_end(t, j + 1)
    }
}

/// What the JSON string token `b` reads as, as UTF-8 bytes, escapes decoded.
pub uninterp spec fn json_string_utf8(b: Seq<u8>) -> Option<Seq<u8>>;

/// Position of the `{` that opens the document.
pub open spec fn open_at(t: Seq<u8>) -> int {
    skip_ws(t, 0)
}

/// Position of the `"` that opens the key.
pub open spec fn key_at(t: Seq<u8>) -> int {
    skip_ws(t, open_at(t) + 1)
}

/// Position of the `"` that closes the key.
pub open spec fn key_end(t: Seq<u8>) -> int {
    string_end(t, key_at(t) + 1)
}

/// Position of the `:` after the key.
pub open spec fn colon_at(t: Seq<u8>) -> int {
    skip_ws(t, key_end(t) + 1)
}

/// Position of the `}` that closes the document.
pub open spec fn close_at(t: Seq<u8>) -> int {
    trim_end(t, t.len() as int) - 1
}

/// Whether `t` is `{`, a JSON string that reads as `pixels` in any spelling,
/// `:`, some text, then `}`, with whitespace allowed around each token.
pub open spec fn framed(t: Seq<u8>) -> bool {
    &&& open_at(t) < t.len()
    &&& t[open_at(t)] == 123u8
    &&& key_at(t) < t.len()
    &&& t[key_at(t)] == 34u8
    &&& key_end(t) < t.len()
    &&& json_string_utf8(t.subrange(key_at(t), key_end(t) + 1)) == Some(key_name())
    &&& colon_at(t) < close_at(t)
    &&& t[colon_at(t)] == 58u8
    &&& t[close_at(t)] == 125u8
}

/// The text between the `:` and the closing `}` of a document: its pixel array.
pub open spec fn array_part(t: Seq<u8>) -> Seq<u8> {
    t.subrange(colon_at(t) + 1, close_at(t))
}

/// What JSON text `b` holds when read as an array of bytes.
pub uninterp spec fn json_byte_array(b: Seq<u8>) -> Option<Seq<u8>>;

/// The outcome of reading a document `t`, given how its array part reads.
pub open spec fn load_outcome(t: Seq<u8>) -> Result<Seq<u8>, CanvasError> {
    if !framed(t) {
        Err(CanvasError::Parse)
    } else {
        match json_byte_array(array_part(t)) {
            None => Err(CanvasError::Parse),
            Some(v) => if v.len() == SIZE {
                Ok(v)
            } else {
                Err(CanvasError::LengthMismatch { found: v.len() as usize })
            },
        }
    }
}

/// Relies on serde_json::to_vec: a sequence of `u8` is written in compact form,
/// `[`, the decimal values separated by `,`, then `]`. Writing into a `Vec`
/// cannot fail and a byte slice raises no error of its own, so it succeeds.
#[verifier::external_body]
fn encode_byte_array(v: &[u8]) -> (r: Result<Vec<u8>, serde_json::Error>)
    ensures
        r is Ok,
        r is Ok ==> r->Ok_0@ == array_text(v@),
{
    serde_json::to_vec(v)
}

/// Relies on serde_json::from_slice::<Vec<u8>>: the outcome depends on the text
/// alone, and the compact array of a byte sequence reads back as that sequence.
#[verifier::external_body]
fn parse_byte_array(b: &[u8]) -> (r: Result<Vec<u8>, serde_json::Error>)
    ensures
        r is Ok <==> json_byte_array(b@) is Some,
        r is Ok ==> json_byte_array(b@) == Some(r->Ok_0@),
        forall|v: Seq<u8>| #[trigger] array_text(v) == b@ ==> (r is Ok && r->Ok_0@ == v),
{
    serde_json::from_slice(b)
}

/// Relies on serde_json::from_slice::<String>: reads a JSON string token,
/// escapes decoded, and hands back its UTF-8 bytes; the outcome depends on
/// the text alone, and `"pixels"` written plainly reads as `pixels`.
#[verifier::external_body]
fn parse_string(b: &[u8]) -> (r: Result<Vec<u8>, serde_json::Error>)
    ensures
        r is Ok <==> json_string_utf8(b@) is Some,
        r is Ok ==> json_string_utf8(b@) == Some(r->Ok_0@),
        b@ == key_text() ==> (r is Ok && r->Ok_0@ == key_name()),
{
    serde_json::from_slice::<String>(b).map(String::into_bytes)
}

/// In a document's text the key is `"pixels"` written plainly, and the array
/// part is the array of the cells.
pub proof fn lemma_doc_text_framed(v: Seq<u8>)
    ensures
        ({
            let t = doc_text(v);
            &&& open_at(t) == 0
            &&& t[0] == 123u8
            &&& key_at(t) == 1
            &&& t[1] == 34u8
            &&& key_end(t) == 8
            &&& t.subrange(1, 9) == key_text()
            &&& colon_at(t) == 9
            &&& t[9] == 58u8
            &&& close_at(t) == t.len() - 1
            &&& colon_at(t) < close_at(t)
            &&& t[close_at(t)] == 125u8
            &&& array_part(t) == array_text(v)
        }),
{
    let t = doc_text(v);
    assert(t[0] == 123u8);
    assert(open_at(t) == 0);
    assert(t[1] == 34u8);
    assert(key_at(t) == 1);
    assert(t[8] == 34u8);
    assert(string_end(t, 8) == 8);
    assert(string_end(t, 7) == 8);
    assert(string_end(t, 6) == 8);
    assert(string_end(t, 5) == 8);
    assert(string_end(t, 4) == 8);
    assert(string_end(t, 3) == 8);
    assert(string_end(t, 2) == 8);
    assert(t.subrange(1, 9) =~= key_text());
    assert(t[9] == 58u8);
    assert(colon_at(t) == 9);
    assert(t[t.len() - 1] == 125u8);
    assert(trim_end(t, t.len() as int) == t.len());
    assert(array_part(t) =~= array_text(v));
}

/// Whether `b` is JSON whitespace.
fn is_ws_byte(b: u8) -> (r: bool)
    ensures
        r == is_ws(b),
{
    b == 32u8 || b == 9u8 || b == 10u8 || b == 13u8
}

/// The first position at or after `i` in `text` that is not whitespace.
fn skip_ws_from(text: &[u8], i: usize) -> (r: usize)
    requires
        i <= text@.len(),
    ensures
        r as int == skip_ws(text@, i as int),
        i <= r <= text@.len(),
{
    let mut j: usize = i;
    while j < text.len() && is_ws_byte(text[j])
        invariant
            i <= j <= text@.len(),
            skip_ws(text@, j as int) == skip_ws(text@, i as int),
        decreases text@.len() - j,
    {
        j = j + 1;
    }
    j
}

/// The length of `text` once trailing whitespace is dropped.
fn trimmed_len(text: &[u8]) -> (r: usize)
    ensures
        r as int == trim_end(text@, text@.len() as int),
        r <= text@.len(),
{
    let mut j: usize = text.len();
    while j > 0 && is_ws_byte(text[j - 1])
        invariant
            j <= text@.len(),
            trim_end(text@, j as int) == trim_end(text@, text@.len() as int),
        decreases j,
    {
        j = j - 1;
    }
    j
}

/// Position of the `"` that ends the JSON string whose contents start at `j`,
/// or the length of `text` when there is none.
fn string_end_from(text: &[u8], j: usize) -> (r: usize)
    requires
        j <= text@.len(),
    ensures
        r as int == string_end(text@, j as int),
        j <= r <= text@.len(),
{
    let n = text.len();
    let mut k: usize = j;
    while k < n && text[k] != 34u8
        invariant
            n == text@.len(),
            j <= k <= n,
            string_end(text@, k as int) == string_end(text@, j as int),
        decreases n - k,
    {
        if text[k] == 92u8 {
            assert(string_end(text@, k as int) == string_end(text@, k + 2));
            assert(k + 1 >= n ==> string_end(text@, k + 2) == n);
            k = if k + 1 < n {
                k + 2
            } else {
                n
            };
        } else {
            k = k + 1;
        }
    }
    k
}

/// Whether `b` holds the UTF-8 bytes of `pixels`.
fn is_key_name(b: &Vec<u8>) -> (r: bool)
    ensures
        r == (b@ == key_name()),
{
    let r = b.len() == 6 && b[0] == 112u8 && b[1] == 105u8 && b[2] == 120u8 && b[3] == 101u8
        && b[4] == 108u8 && b[5] == 115u8;
    proof {
        if r {
            assert(b@ =~= key_name());
        }
    }
    r
}

impl Canvas {
    /// The canvas as a JSON document `{"pixels":[...]}`, cells row by row.
    pub fn to_json(&self) -> (r: Result<Vec<u8>, CanvasError>)
        ensures
            r is Ok,
            r->Ok_0@ == doc_text(self@),
    {
        match encode_byte_array(self.pixels()) {
            Ok(array) => {
                let mut out: Vec<u8> = Vec::new();
                out.push(123u8);
                out.push(34u8);
                out.push(112u8);
                out.push(105u8);
                out.push(120u8);
                out.push(101u8);
                out.push(108u8);
                out.push(115u8);
                out.push(34u8);
                out.push(58u8);
                assert(out@ =~= doc_prefix());
                let mut i: usize = 0;
                while i < array.len()
                    invariant
                        0 <= i <= array@.len(),
                        out@ == doc_prefix() + array@.subrange(0, i as int),
                    decreases array@.len() - i,
                {
                    out.push(array[i]);
                    assert(array@.subrange(0, i + 1) =~= array@.subrange(0, i as int).push(
                        array@[i as int],
                    ));
                    i = i + 1;
                }
                out.push(125u8);
                assert(array@.subrange(0, array@.len() as int) =~= array@);
                assert(out@ =~= doc_text(self@));
                Ok(out)
            },
            Err(_) => Err(CanvasError::Serialize),
        }
    }

    /// A canvas holding exactly `pixels`, or `LengthMismatch` when they are not
    /// one value per cell.
    pub fn from_pixels(pixels: Vec<u8>) -> (r: Result<Canvas, CanvasError>)
        ensures
            pixels@.len() == SIZE ==> (r is Ok && r->Ok_0@ == pixels@ && r->Ok_0.wf()),
            pixels@.len() != SIZE ==> r == Err::<Canvas, CanvasError>(
                CanvasError::LengthMismatch { found: pixels@.len() as usize },
            ),
    {
        if pixels.len() == SIZE {
            Ok(Canvas::from_cells(pixels))
        } else {
            Err(CanvasError::LengthMismatch { found: pixels.len() })
        }
    }

    /// Reads a document `{"pixels":[...]}`, with whitespace allowed around
    /// its tokens and the key in any JSON spelling. The text between `:` and
    /// the closing `}` is read as a JSON array of bytes, which must hold one
    /// value per cell.
    pub fn from_json(text: &[u8]) -> (r: Result<Canvas, CanvasError>)
        ensures
            r is Ok <==> load_outcome(text@) is Ok,
            r is Ok ==> r->Ok_0.wf() && r->Ok_0@ == load_outcome(text@)->Ok_0,
            r is Err ==> r->Err_0 == load_outcome(text@)->Err_0,
            forall|v: Seq<u8>|
                #[trigger] doc_text(v) == text@ ==> (if v.len() == SIZE {
                    r is Ok && r->Ok_0@ == v
                } else {
                    r == Err::<Canvas, CanvasError>(
                        CanvasError::LengthMismatch { found: v.len() as usize },
                    )
                }),
    {
        proof {
            assert forall|v: Seq<u8>| #[trigger] doc_text(v) == text@ implies open_at(text@) == 0
                && key_at(text@) == 1 && key_end(text@) == 8 && text@.subrange(1, 9)
                == key_text() && colon_at(text@) == 9 && text@[9] == 58u8 && text@[0] == 123u8
                && text@[1] == 34u8 && close_at(text@) == text@.len() - 1 && colon_at(text@)
                < close_at(text@) && text@[close_at(text@)] == 125u8 && array_part(text@)
                == array_text(v) by {
                lemma_doc_text_framed(v);
            }
        }
        let n = text.len();
        let open = skip_ws_from(text, 0);
        if open >= n || text[open] != 123u8 {
            return Err(CanvasError::Parse);
        }
        let key = skip_ws_from(text, open + 1);
        if key >= n || text[key] != 34u8 {
            return Err(CanvasError::Parse);
        }
        let key_close = string_end_from(text, key + 1);
        if key_close >= n {
            return Err(CanvasError::Parse);
        }
        let token = slice_subrange(text, key, key_close + 1);
        match parse_string(token) {
            Ok(name) => {
                if !is_key_name(&name) {
                    return Err(CanvasError::Parse);
                }
            },
            Err(_) => {
                return Err(CanvasError::Parse);
            },
        }
        let colon = skip_ws_from(text, key_close + 1);
        let end = trimmed_len(text);
        if end == 0 || colon >= end - 1 || text[colon] != 58u8 || text[end - 1] != 125u8 {
            return Err(CanvasError::Parse);
        }
        let array = slice_subrange(text, colon + 1, end - 1);
        match parse_byte_array(array) {
            Ok(pixels) => Canvas::from_pixels(pixels),
            Err(_) => Err(CanvasError::Parse),
        }
    }
}

} // verus!

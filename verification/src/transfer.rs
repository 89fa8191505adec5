//! Moving `.furnace` data between the game's virtual machines: the file text
//! goes out base64-encoded in slices, and comes back base64-encoded whole.
use vstd::prelude::*;
use vstd::utf8::{decode_utf8, encode_utf8, is_ascii_chars, valid_utf8};
use vstd::string::StringSliceAdditionalSpecFns;
use base64::Engine;
use crate::text::{chars_of, string_of, sub_chars};

verus! {

/// The error that the `base64` crate reports for text that is not base64.
#[verifier::external_type_specification]
#[verifier::external_body]
pub struct ExDecodeError(base64::DecodeError);

/// The standard base64 encoding of `bytes`, without padding.
pub uninterp spec fn base64_standard_no_pad(bytes: Seq<u8>) -> Seq<char>;

/// The bytes that the standard base64 text `bytes` (no padding) decodes to, if it is valid.
pub uninterp spec fn base64_standard_no_pad_decoded(bytes: Seq<u8>) -> Option<Seq<u8>>;

/// The text that `bytes` decode to as UTF-8, with each invalid sequence replaced
/// by U+FFFD.
pub uninterp spec fn utf8_lossy(bytes: Seq<u8>) -> Seq<char>;

/// A character of the standard base64 alphabet.
pub open spec fn is_base64_char(c: char) -> bool {
    ||| ('A' <= c && c <= 'Z')
    ||| ('a' <= c && c <= 'z')
    ||| ('0' <= c && c <= '9')
    ||| c == '+'
    ||| c == '/'
}

/// The length of the unpadded base64 text of `n` bytes: four characters for each
/// whole group of three bytes, and two or three more for a last group of one or
/// two bytes.
pub open spec fn base64_len(n: nat) -> nat {
    let rest: nat = if n % 3 == 0 {
        0
    } else if n % 3 == 1 {
        2
    } else {
        3
    };
    (n / 3) * 4 + rest
}

/// Encodes with `base64::engine::general_purpose::STANDARD_NO_PAD` through
/// `Engine::encode_string` into an empty `String`. Claimed: the result is the
/// named encoding of the bytes, has the unpadded length that the crate's
/// `encoded_len` computes, uses only characters of the standard alphabet (no
/// padding is written), and decoding it with the same engine gives the bytes
/// back. Which character stands for which six bits is left to the name.
#[verifier::external_body]
fn encode_base64(bytes: &[u8]) -> (r: String)
    ensures
        r@ == base64_standard_no_pad(bytes@),
        r@.len() == base64_len(bytes@.len()),
        forall|i: int| 0 <= i < r@.len() ==> is_base64_char(#[trigger] r@[i]),
        base64_standard_no_pad_decoded(encode_utf8(r@)) == Some(bytes@),
{
    let mut buf = String::new();
    base64::engine::general_purpose::STANDARD_NO_PAD.encode_string(bytes, &mut buf);
    buf
}

/// Decodes with `base64::engine::general_purpose::STANDARD_NO_PAD` through
/// `Engine::decode_vec` into an empty vector. Claimed: the call succeeds exactly
/// when the named decoding exists, and then gives those bytes; the text that the
/// same engine encodes from some bytes decodes to those bytes. Nothing is
/// claimed of which error comes back.
#[verifier::external_body]
fn decode_base64(bytes: &[u8]) -> (r: Result<Vec<u8>, base64::DecodeError>)
    ensures
        match r {
            Ok(v) => base64_standard_no_pad_decoded(bytes@) == Some(v@),
            Err(_) => base64_standard_no_pad_decoded(bytes@) is None,
        },
        r matches Ok(v) ==> forall|b: Seq<u8>|
            bytes@ == encode_utf8(#[trigger] base64_standard_no_pad(b)) ==> v@ == b,
        r is Err ==> forall|b: Seq<u8>| bytes@ != encode_utf8(#[trigger] base64_standard_no_pad(b)),
{
    let mut buf = Vec::new();
    match base64::engine::general_purpose::STANDARD_NO_PAD.decode_vec(bytes, &mut buf) {
        Ok(()) => Ok(buf),
        Err(e) => Err(e),
    }
}

/// Calls `String::from_utf8_lossy` and takes the owned text. Claimed: the result is
/// the named lossy decoding, which for valid UTF-8 is the decoded text.
#[verifier::external_body]
fn utf8_lossy_text(bytes: &[u8]) -> (r: String)
    ensures
        r@ == utf8_lossy(bytes@),
        valid_utf8(bytes@) ==> r@ == decode_utf8(bytes@),
{
    String::from_utf8_lossy(bytes).into_owned()
}

/// Characters sent per slice.
pub open spec fn slice_len() -> int {
    100
}

/// The slices in which the text `s` is sent: with `n` the number of 100-character
/// blocks (the last one possibly shorter), slices `1 .. n - 1` of 100 characters
/// each, except that the last of them runs to the end of the text; a text of
/// one block is sent whole in one slice, and an empty text in none.
pub open spec fn slices(s: Seq<char>) -> Seq<Seq<char>> {
    let blocks: nat = (s.len() + 99) / 100;
    if blocks == 0 {
        Seq::empty()
    } else if blocks == 1 {
        seq![s]
    } else {
        Seq::new(
            (blocks - 1) as nat,
            |k: int|
                if k + 1 == blocks - 1 {
                    s.subrange(k * 100, s.len() as int)
                } else {
                    s.subrange(k * 100, (k + 1) * 100)
                },
        )
    }
}

/// Cuts the ASCII text `buf` into the slices in which it is sent.
pub fn base64_slices(buf: &str) -> (r: Vec<String>)
    requires
        is_ascii_chars(buf@),
    ensures
        r@.map_values(|s: String| s@) == slices(buf@),
{
    let cs = chars_of(buf);
    let n: usize = cs.len();
    let blocks: usize = n / 100 + if n % 100 == 0 { 0 } else { 1 };
    assert(blocks == (n + 99) / 100);
    let mut r: Vec<String> = Vec::new();
    if blocks == 0 {
        assert(r@.map_values(|s: String| s@) =~= slices(buf@));
        return r;
    }
    if blocks == 1 {
        r.push(string_of(&cs));
        assert(r@.map_values(|s: String| s@) =~= slices(buf@));
        return r;
    }
    let mut index: usize = 1;
    while index < blocks
        invariant
            1 <= index <= blocks,
            blocks == (n + 99) / 100,
            blocks >= 2,
            n == cs.len(),
            cs@ == buf@,
            r@.len() == index - 1,
            forall|k: int| 0 <= k < r@.len() ==> #[trigger] r@[k]@ == slices(buf@)[k],
        decreases blocks - index,
    {
        let piece = if index == blocks - 1 {
            sub_chars(&cs, (index - 1) * 100, n)
        } else {
            sub_chars(&cs, (index - 1) * 100, index * 100)
        };
        r.push(string_of(&piece));
        index += 1;
    }
    assert(r@.map_values(|s: String| s@) =~= slices(buf@));
    r
}

/// The slices in which the `.furnace` text `raw` is sent: its UTF-8 bytes,
/// base64-encoded, cut by [`base64_slices`]. Something is sent exactly when
/// `raw` is not empty, and the slices joined are the encoded text, which decodes
/// back to the bytes of `raw`.
pub fn get_furnace_data_base64(raw: &str) -> (r: Vec<String>)
    ensures
        r@.map_values(|s: String| s@) == slices(base64_standard_no_pad(raw.spec_bytes())),
        r@.len() > 0 <==> raw@.len() > 0,
        joined(r@.map_values(|s: String| s@)) == base64_standard_no_pad(raw.spec_bytes()),
        base64_standard_no_pad_decoded(encode_utf8(joined(r@.map_values(|s: String| s@))))
            == Some(raw.spec_bytes()),
{
    let encoded = encode_base64(raw.as_bytes());
    assert(is_ascii_chars(encoded@)) by {
        assert forall|i: int| 0 <= i < encoded@.len() implies '\0' <= #[trigger] encoded@[i]
            <= '\u{7f}' by {
            assert(is_base64_char(encoded@[i]));
        }
    }
    let r = base64_slices(encoded.as_str());
    proof {
        lemma_slices_join(encoded@);
        lemma_utf8_text_round_trip(raw@);
        if raw.spec_bytes().len() == 0 {
            assert(raw.spec_bytes() =~= Seq::<u8>::empty());
            assert(decode_utf8(Seq::<u8>::empty()) =~= Seq::<char>::empty());
        } else {
            assert(base64_len(raw.spec_bytes().len()) > 0);
        }
    }
    r
}

/// Why received `.furnace` data could not be read.
pub enum RawDataError {
    /// The data is not standard base64 without padding.
    InvalidBase64(base64::DecodeError),
}

/// The `.furnace` text that the base64 data `raw` carries: its bytes decoded
/// from base64, then read as UTF-8 with invalid sequences replaced. The
/// encoding of a text's UTF-8 bytes gives that text back.
pub fn decode_furnace_data(raw: &str) -> (r: Result<String, RawDataError>)
    ensures
        match base64_standard_no_pad_decoded(raw.spec_bytes()) {
            None => r is Err,
            Some(bytes) => r matches Ok(text) && text@ == utf8_lossy(bytes) && (valid_utf8(bytes)
                ==> text@ == decode_utf8(bytes)),
        },
        forall|t: Seq<char>|
            raw.spec_bytes() == encode_utf8(#[trigger] base64_standard_no_pad(encode_utf8(t)))
                ==> (r matches Ok(text) && text@ == t),
{
    let decoded = decode_base64(raw.as_bytes());
    match decoded {
        Ok(bytes) => {
            let text = utf8_lossy_text(bytes.as_slice());
            proof {
                assert forall|t: Seq<char>|
                    raw.spec_bytes() == encode_utf8(
                        #[trigger] base64_standard_no_pad(encode_utf8(t)),
                    ) implies text@ == t by {
                    lemma_utf8_text_round_trip(t);
                }
            }
            Ok(text)
        },
        Err(e) => Err(RawDataError::InvalidBase64(e)),
    }
}

} // verus!

verus! {

/// The pieces `xs` one after the other.
pub open spec fn joined(xs: Seq<Seq<char>>) -> Seq<char>
    decreases xs.len(),
{
    if xs.len() == 0 {
        Seq::empty()
    } else {
        joined(xs.drop_last()) + xs.last()
    }
}

proof fn lemma_slices_prefix(s: Seq<char>, j: int)
    requires
        s.len() > 100,
        0 <= j < slices(s).len(),
    ensures
        joined(slices(s).take(j)) == s.subrange(0, j * 100),
    decreases j,
{
    if j == 0 {
        assert(slices(s).take(0) =~= Seq::<Seq<char>>::empty());
        assert(s.subrange(0, 0) =~= Seq::<char>::empty());
    } else {
        lemma_slices_prefix(s, j - 1);
        assert(slices(s).take(j).drop_last() =~= slices(s).take(j - 1));
        assert(slices(s).take(j).last() == slices(s)[j - 1]);
        assert(slices(s)[j - 1] == s.subrange((j - 1) * 100, j * 100));
        assert(s.subrange(0, (j - 1) * 100) + s.subrange((j - 1) * 100, j * 100) =~= s.subrange(
            0,
            j * 100,
        ));
    }
}

/// Nothing of the text is lost in the slices: they join back to the text, and
/// all but the last hold 100 characters; a text of 1 to 100 characters is one
/// slice holding all of it, and an empty text gives no slice.
pub proof fn lemma_slices_join(s: Seq<char>)
    ensures
        joined(slices(s)) == s,
        forall|k: int| 0 <= k < slices(s).len() - 1 ==> #[trigger] slices(s)[k].len() == slice_len(),
        0 < s.len() <= slice_len() ==> slices(s) == seq![s],
        s.len() == 0 ==> slices(s).len() == 0,
{
    if s.len() == 0 {
        assert(joined(slices(s)) =~= s);
    } else if s.len() <= 100 {
        assert(slices(s).drop_last() =~= Seq::<Seq<char>>::empty());
        assert(joined(Seq::<Seq<char>>::empty()) =~= Seq::<char>::empty());
        assert(joined(slices(s)) =~= s);
    } else {
        let m: int = slices(s).len() as int;
        assert(m >= 1);
        lemma_slices_prefix(s, m - 1);
        assert(slices(s).drop_last() =~= slices(s).take(m - 1));
        assert(slices(s).last() == s.subrange((m - 1) * 100, s.len() as int));
        assert(s.subrange(0, (m - 1) * 100) + s.subrange((m - 1) * 100, s.len() as int) =~= s);
    }
}

} // verus!

verus! {

/// Text sent as its UTF-8 bytes is read back unchanged: the bytes are valid
/// UTF-8 and decode to the text. With the ensures of
/// [`get_furnace_data_base64`] and [`decode_furnace_data`], the joined slices
/// that the server sends decode, on the client, to the text it read.
pub proof fn lemma_utf8_text_round_trip(raw: Seq<char>)
    ensures
        valid_utf8(encode_utf8(raw)),
        decode_utf8(encode_utf8(raw)) == raw,
{
    vstd::utf8::encode_utf8_valid_utf8(raw);
    vstd::utf8::encode_utf8_decode_utf8(raw);
}

} // verus!

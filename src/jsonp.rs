//! Encoding of downloaded assets as JSONP callback scripts.
use vstd::prelude::*;
use vstd::string::*;

verus! {

/// The character of a decimal digit.
pub open spec fn digit_char(d: nat) -> char {
    if d == 0 {
        '0'
    } else if d == 1 {
        '1'
    } else if d == 2 {
        '2'
    } else if d == 3 {
        '3'
    } else if d == 4 {
        '4'
    } else if d == 5 {
        '5'
    } else if d == 6 {
        '6'
    } else if d == 7 {
        '7'
    } else if d == 8 {
        '8'
    } else {
        '9'
    }
}

/// The decimal representation of `n`, without leading zeros.
pub open spec fn decimal(n: nat) -> Seq<char>
    decreases n,
{
    if n < 10 {
        seq![digit_char(n)]
    } else {
        decimal(n / 10).push(digit_char(n % 10))
    }
}

/// The name of the preview file (or manifest reference) for asset `index`.
pub open spec fn jsonp_name(name: Seq<char>, index: nat) -> Seq<char> {
    name + seq!['.'] + decimal(index) + seq!['.', 'j', 's', 'o', 'n', 'p']
}

fn digit_str(d: usize) -> (r: &'static str)
    requires
        d < 10,
    ensures
        r@ == seq![digit_char(d as nat)],
{
    if d == 0 {
        proof { reveal_strlit("0"); }
        "0"
    } else if d == 1 {
        proof { reveal_strlit("1"); }
        "1"
    } else if d == 2 {
        proof { reveal_strlit("2"); }
        "2"
    } else if d == 3 {
        proof { reveal_strlit("3"); }
        "3"
    } else if d == 4 {
        proof { reveal_strlit("4"); }
        "4"
    } else if d == 5 {
        proof { reveal_strlit("5"); }
        "5"
    } else if d == 6 {
        proof { reveal_strlit("6"); }
        "6"
    } else if d == 7 {
        proof { reveal_strlit("7"); }
        "7"
    } else if d == 8 {
        proof { reveal_strlit("8"); }
        "8"
    } else {
        proof { reveal_strlit("9"); }
        "9"
    }
}

/// Appends the decimal representation of `n` to `s`.
pub fn push_decimal(s: &mut String, n: usize)
    ensures
        final(s)@ == old(s)@ + decimal(n as nat),
    decreases n,
{
    if n >= 10 {
        push_decimal(s, n / 10);
    }
    let d = digit_str(n % 10);
    s.append(d);
    assert(final(s)@ =~= old(s)@ + decimal(n as nat));
}

/// `file_name` followed by `.<hash_code>.jsonp`.
pub fn with_jsonp_suffix(file_name: &str, hash_code: usize) -> (r: String)
    ensures
        r@ == jsonp_name(file_name@, hash_code as nat),
{
    let mut r = file_name.to_owned();
    r.append(".");
    push_decimal(&mut r, hash_code);
    r.append(".jsonp");
    proof {
        reveal_strlit(".");
        reveal_strlit(".jsonp");
        assert(r@ =~= jsonp_name(file_name@, hash_code as nat));
    }
    r
}

/// The media type written into an asset's data URI.
#[derive(Clone, Copy, Debug, PartialEq, Eq, Structural)]
pub enum MimeType {
    Jpeg,
    Png,
    OctetStream,
}

/// Classifies a response's `Content-Type` value, exactly as given.
pub open spec fn mime_of(content_type: Seq<char>) -> MimeType {
    if content_type == "image/jpeg"@ || content_type == "image/jpg"@ {
        MimeType::Jpeg
    } else if content_type == "image/png"@ {
        MimeType::Png
    } else {
        MimeType::OctetStream
    }
}

/// The text of a media type.
pub open spec fn mime_text(m: MimeType) -> Seq<char> {
    match m {
        MimeType::Jpeg => "image/jpeg"@,
        MimeType::Png => "image/png"@,
        MimeType::OctetStream => "application/octet-stream"@,
    }
}

/// The standard (padded) base64 text of `bytes`.
pub uninterp spec fn base64_of(bytes: Seq<u8>) -> Seq<char>;

/// Relies on `base64::Engine::encode` with the `general_purpose::STANDARD`
/// engine: the padded standard base64 text of the input. It panics only when
/// the encoded length overflows `usize`, which `requires` rules out.
#[verifier::external_body]
fn base64_encode(input: &[u8]) -> (r: String)
    requires
        input@.len() / 3 * 4 + 4 <= usize::MAX,
    ensures
        r@ == base64_of(input@),
{
    base64::Engine::encode(&base64::engine::general_purpose::STANDARD, input)
}

/// The guarded callback expression `window["jsonp_<index>"]`.
pub open spec fn jsonp_callback(index: nat) -> Seq<char> {
    "window[\"jsonp_"@ + decimal(index) + "\"]"@
}

/// The JSONP script for an asset: it hands the asset's data URI to the
/// callback registered for `index`, and does nothing when none is.
pub open spec fn jsonp_content(content_type: Seq<char>, bytes: Seq<u8>, index: nat) -> Seq<char> {
    jsonp_callback(index) + " && "@ + jsonp_callback(index) + "(\"data:"@ + mime_text(
        mime_of(content_type),
    ) + ";base64,"@ + base64_of(bytes) + "\")"@
}

fn str_eq(a: &str, b: &str) -> (r: bool)
    ensures
        r == (a@ == b@),
{
    let x = a.to_owned();
    let y = b.to_owned();
    x == y
}

/// Classifies a `Content-Type` value; the comparison is exact.
pub fn classify_content_type(content_type: &str) -> (r: MimeType)
    ensures
        r == mime_of(content_type@),
{
    if str_eq(content_type, "image/jpeg") || str_eq(content_type, "image/jpg") {
        MimeType::Jpeg
    } else if str_eq(content_type, "image/png") {
        MimeType::Png
    } else {
        MimeType::OctetStream
    }
}

impl MimeType {
    /// The media type's text.
    pub fn as_str(&self) -> (r: &'static str)
        ensures
            r@ == mime_text(*self),
    {
        match self {
            MimeType::Jpeg => "image/jpeg",
            MimeType::Png => "image/png",
            MimeType::OctetStream => "application/octet-stream",
        }
    }
}

fn push_callback(s: &mut String, index: usize)
    ensures
        final(s)@ == old(s)@ + jsonp_callback(index as nat),
{
    s.append("window[\"jsonp_");
    push_decimal(s, index);
    s.append("\"]");
    assert(final(s)@ =~= old(s)@ + jsonp_callback(index as nat));
}

/// The JSONP script for an asset of the given content type and bytes, keyed
/// by its download index.
pub fn generate_jsonp_content(content_type: &str, input: &[u8], hash_code: usize) -> (r: String)
    requires
        input@.len() / 3 * 4 + 4 <= usize::MAX,
    ensures
        r@ == jsonp_content(content_type@, input@, hash_code as nat),
{
    let mime = classify_content_type(content_type);
    let payload = base64_encode(input);
    let mut r = String::new();
    push_callback(&mut r, hash_code);
    r.append(" && ");
    push_callback(&mut r, hash_code);
    r.append("(\"data:");
    r.append(mime.as_str());
    r.append(";base64,");
    r.append(payload.as_str());
    r.append("\")");
    assert(r@ =~= jsonp_content(content_type@, input@, hash_code as nat));
    r
}

/// Relies on `base64::Engine::decode` with the `general_purpose::STANDARD`
/// engine: it inverts `encode`, so the standard text of any bytes decodes
/// back to those bytes. Other input may be refused (`None`).
#[verifier::external_body]
fn base64_decode(text: &str) -> (r: Option<Vec<u8>>)
    ensures
        forall|b: Seq<u8>| #[trigger] base64_of(b) == text@ ==> r is Some && r->0@ == b,
{
    base64::Engine::decode(&base64::engine::general_purpose::STANDARD, text).ok()
}

/// What stands before the base64 text in a JSONP script.
pub open spec fn jsonp_prefix(content_type: Seq<char>, index: nat) -> Seq<char> {
    jsonp_callback(index) + " && "@ + jsonp_callback(index) + "(\"data:"@ + mime_text(
        mime_of(content_type),
    ) + ";base64,"@
}

proof fn lemma_decimal_has_no_comma(n: nat)
    ensures
        forall|k: int| 0 <= k < decimal(n).len() ==> #[trigger] decimal(n)[k] != ',',
    decreases n,
{
    let d = digit_char(n % 10);
    assert(d != ',');
    if n >= 10 {
        lemma_decimal_has_no_comma(n / 10);
        assert forall|k: int| 0 <= k < decimal(n).len() implies #[trigger] decimal(n)[k] != ',' by {
            if k < decimal(n).len() - 1 {
                assert(decimal(n)[k] == decimal(n / 10)[k]);
            }
        }
    } else {
        assert(digit_char(n) != ',');
    }
}

/// A JSONP script is its prefix, the base64 text and `")`; the prefix ends
/// with its only comma.
proof fn lemma_jsonp_content_split(content_type: Seq<char>, bytes: Seq<u8>, index: nat)
    ensures
        jsonp_content(content_type, bytes, index) == jsonp_prefix(content_type, index) + base64_of(
            bytes,
        ) + "\")"@,
        "\")"@.len() == 2,
        jsonp_prefix(content_type, index).len() >= 1,
        jsonp_prefix(content_type, index).last() == ',',
        forall|k: int|
            0 <= k < jsonp_prefix(content_type, index).len() - 1 ==> #[trigger] jsonp_prefix(
                content_type,
                index,
            )[k] != ',',
{
    reveal_strlit("window[\"jsonp_");
    reveal_strlit("\"]");
    reveal_strlit(" && ");
    reveal_strlit("(\"data:");
    reveal_strlit("image/jpeg");
    reveal_strlit("image/png");
    reveal_strlit("application/octet-stream");
    reveal_strlit(";base64,");
    reveal_strlit("\")");
    lemma_decimal_has_no_comma(index);
    let c = jsonp_callback(index);
    assert forall|k: int| 0 <= k < c.len() implies #[trigger] c[k] != ',' by {
        let a = "window[\"jsonp_"@;
        let d = decimal(index);
        if k < a.len() {
            assert(c[k] == a[k]);
        } else if k < a.len() + d.len() {
            assert(c[k] == d[k - a.len()]);
        } else {
            assert(c[k] == "\"]"@[k - a.len() - d.len()]);
        }
    }
    let p = jsonp_prefix(content_type, index);
    assert(jsonp_content(content_type, bytes, index) =~= p + base64_of(bytes) + "\")"@);
    assert forall|k: int| 0 <= k < p.len() - 1 implies #[trigger] p[k] != ',' by {
        let l0 = c.len();
        let l1 = l0 + 4;
        let l2 = l1 + c.len();
        let l3 = l2 + 7;
        let m = mime_text(mime_of(content_type));
        let l4 = l3 + m.len();
        if k < l0 {
            assert(p[k] == c[k]);
        } else if k < l1 {
            assert(p[k] == " && "@[k - l0]);
        } else if k < l2 {
            assert(p[k] == c[k - l1]);
        } else if k < l3 {
            assert(p[k] == "(\"data:"@[k - l2]);
        } else if k < l4 {
            assert(p[k] == m[k - l3]);
        } else {
            assert(p[k] == ";base64,"@[k - l4]);
        }
    }
}

/// The bytes that a JSONP script carries: the base64 text between the first
/// comma and the closing `")`, decoded. Every script that
/// `generate_jsonp_content` writes gives back the bytes it was made from.
pub fn decode_jsonp_content(content: &str) -> (r: Option<Vec<u8>>)
    ensures
        forall|ct: Seq<char>, b: Seq<u8>, i: nat|
            #[trigger] jsonp_content(ct, b, i) == content@ ==> (r matches Some(v) && v@ == b),
{
    let n = content.unicode_len();
    let mut p: usize = 0;
    while p < n
        invariant
            n == content@.len(),
            p <= n,
            forall|k: int| 0 <= k < p ==> #[trigger] content@[k] != ',',
        ensures
            p <= n,
            forall|k: int| 0 <= k < p ==> #[trigger] content@[k] != ',',
            p < n ==> content@[p as int] == ',',
        decreases n - p,
    {
        if content.get_char(p) == ',' {
            break;
        }
        p = p + 1;
    }
    if p >= n || n - p < 3 {
        proof {
            assert forall|ct: Seq<char>, b: Seq<u8>, i: nat|
                #[trigger] jsonp_content(ct, b, i) == content@ implies false by {
                lemma_jsonp_content_split(ct, b, i);
                let q = jsonp_prefix(ct, i);
                assert(content@[q.len() - 1] == ',');
            }
        }
        return None;
    }
    let text = content.substring_char(p + 1, n - 2);
    let r = base64_decode(text);
    proof {
        assert forall|ct: Seq<char>, b: Seq<u8>, i: nat|
            #[trigger] jsonp_content(ct, b, i) == content@ implies (r matches Some(v) && v@
                == b) by {
            lemma_jsonp_content_split(ct, b, i);
            let q = jsonp_prefix(ct, i);
            assert(content@[q.len() - 1] == ',');
            if p < q.len() - 1 {
                assert(content@[p as int] == q[p as int]);
            }
            assert(p == q.len() - 1);
            assert(text@ =~= base64_of(b));
        }
    }
    r
}

} // verus!

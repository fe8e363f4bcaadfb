//! The signed multipart wire format of one protocol message.
use hmac::{Hmac, Mac};
use sha2::{Sha256, Sha512};
use vstd::prelude::*;

verus! {

/// Decode failures of a multipart frame set, and the one encode failure.
#[derive(Debug, Clone, Copy, PartialEq, Eq, Structural)]
pub enum ProtocolError {
    MalformedFrame,
    MissingDelimiter,
    SignatureMismatch,
    UnsupportedScheme,
}

/// One protocol message as its raw parts: the routing identities that came
/// before the delimiter, the four JSON documents, and the raw buffers.
pub struct MessageEnvelope {
    pub identities: Vec<Vec<u8>>,
    pub header: Vec<u8>,
    pub parent_header: Vec<u8>,
    pub metadata: Vec<u8>,
    pub content: Vec<u8>,
    pub buffers: Vec<Vec<u8>>,
}

/// The mathematical value of a `MessageEnvelope`.
pub ghost struct EnvelopeModel {
    pub identities: Seq<Seq<u8>>,
    pub header: Seq<u8>,
    pub parent_header: Seq<u8>,
    pub metadata: Seq<u8>,
    pub content: Seq<u8>,
    pub buffers: Seq<Seq<u8>>,
}

pub open spec fn frames_view(v: Seq<Vec<u8>>) -> Seq<Seq<u8>> {
    Seq::new(v.len(), |i: int| v[i]@)
}

impl View for MessageEnvelope {
    type V = EnvelopeModel;

    open spec fn view(&self) -> EnvelopeModel {
        EnvelopeModel {
            identities: frames_view(self.identities@),
            header: self.header@,
            parent_header: self.parent_header@,
            metadata: self.metadata@,
            content: self.content@,
            buffers: frames_view(self.buffers@),
        }
    }
}

/// The frame `<IDS|MSG>` that ends the routing identities.
pub open spec fn delimiter_spec() -> Seq<u8> {
    seq![60u8, 73u8, 68u8, 83u8, 124u8, 77u8, 83u8, 71u8, 62u8]
}

/// The delimiter frame.
pub fn delimiter() -> (r: Vec<u8>)
    ensures
        r@ == delimiter_spec(),
{
    let r = vec![60u8, 73u8, 68u8, 83u8, 124u8, 77u8, 83u8, 71u8, 62u8];
    assert(r@ =~= delimiter_spec());
    r
}

/// The document is a JSON object, as serde_json reads it.
pub uninterp spec fn json_object_of(doc: Seq<u8>) -> bool;

/// Header, parent header, metadata and content are JSON objects.
pub open spec fn parts_are_json(e: EnvelopeModel) -> bool {
    &&& json_object_of(e.header)
    &&& json_object_of(e.parent_header)
    &&& json_object_of(e.metadata)
    &&& json_object_of(e.content)
}

/// An envelope can be framed unambiguously and read back: no identity reads
/// as the delimiter, and its four parts are JSON objects.
pub open spec fn valid_envelope(e: EnvelopeModel) -> bool {
    &&& forall|i: int| 0 <= i < e.identities.len() ==> #[trigger] e.identities[i] != delimiter_spec()
    &&& parts_are_json(e)
}

/// The bytes that the signature covers: the four JSON parts in order.
pub open spec fn signed_bytes(e: EnvelopeModel) -> Seq<u8> {
    e.header + e.parent_header + e.metadata + e.content
}

/// The lower-case hex digit of a value below sixteen.
pub open spec fn hex_digit(n: u8) -> u8 {
    if n < 10 {
        (48 + n) as u8
    } else {
        (87 + n) as u8
    }
}

/// Lower-case hex text of a byte string, two digits per byte.
pub open spec fn hex_of(b: Seq<u8>) -> Seq<u8>
    decreases b.len(),
{
    if b.len() == 0 {
        Seq::empty()
    } else {
        hex_of(b.drop_last()) + seq![hex_digit(b.last() / 16), hex_digit(b.last() % 16)]
    }
}

/// The keyed-hash tag of HMAC-SHA256.
pub uninterp spec fn hmac_sha256_of(key: Seq<u8>, data: Seq<u8>) -> Seq<u8>;

/// The keyed-hash tag of HMAC-SHA512.
pub uninterp spec fn hmac_sha512_of(key: Seq<u8>, data: Seq<u8>) -> Seq<u8>;

/// The signature frame owed for `data`: empty when the key is empty (unsigned
/// mode), the hex HMAC digest for the schemes `hmac-sha256` and `hmac-sha512`,
/// and none for a scheme this library does not know.
pub open spec fn expected_signature(key: Seq<u8>, scheme: Seq<char>, data: Seq<u8>) -> Option<Seq<u8>> {
    if key.len() == 0 {
        Some(Seq::empty())
    } else if scheme == "hmac-sha256"@ {
        Some(hex_of(hmac_sha256_of(key, data)))
    } else if scheme == "hmac-sha512"@ {
        Some(hex_of(hmac_sha512_of(key, data)))
    } else {
        None
    }
}

/// The frame set of an envelope under a given signature frame.
pub open spec fn frames_with(e: EnvelopeModel, sig: Seq<u8>) -> Seq<Seq<u8>> {
    e.identities + seq![delimiter_spec(), sig, e.header, e.parent_header, e.metadata, e.content]
        + e.buffers
}

/// What `encode` produces, or `None` when the scheme is unknown and a key is set.
pub open spec fn encoded(e: EnvelopeModel, key: Seq<u8>, scheme: Seq<char>) -> Option<Seq<Seq<u8>>> {
    match expected_signature(key, scheme, signed_bytes(e)) {
        Some(sig) => Some(frames_with(e, sig)),
        None => None,
    }
}

/// The index of the first delimiter frame at or after `from`.
pub open spec fn find_delimiter(frames: Seq<Seq<u8>>, from: int) -> Option<int>
    decreases frames.len() - from,
{
    if from < 0 || from >= frames.len() {
        None
    } else if frames[from] == delimiter_spec() {
        Some(from)
    } else {
        find_delimiter(frames, from + 1)
    }
}

/// The envelope framed after the delimiter at `d`.
pub open spec fn envelope_at(frames: Seq<Seq<u8>>, d: int) -> EnvelopeModel {
    EnvelopeModel {
        identities: frames.subrange(0, d),
        header: frames[d + 2],
        parent_header: frames[d + 3],
        metadata: frames[d + 4],
        content: frames[d + 5],
        buffers: frames.subrange(d + 6, frames.len() as int),
    }
}

/// What `decode` returns for a frame set.
pub open spec fn decoded(frames: Seq<Seq<u8>>, key: Seq<u8>, scheme: Seq<char>) -> Result<EnvelopeModel, ProtocolError> {
    match find_delimiter(frames, 0) {
        None => Err(ProtocolError::MissingDelimiter),
        Some(d) => if frames.len() < d + 6 {
            Err(ProtocolError::MalformedFrame)
        } else {
            let e = envelope_at(frames, d);
            if !parts_are_json(e) {
                Err(ProtocolError::MalformedFrame)
            } else if key.len() > 0 && expected_signature(key, scheme, signed_bytes(e)) != Some(frames[d + 1]) {
                Err(ProtocolError::SignatureMismatch)
            } else {
                Ok(e)
            }
        },
    }
}

/// Relies on hmac's `Hmac<Sha256>` (`new_from_slice`, `update`, `finalize`):
/// the HMAC-SHA256 tag of `data` under `key`. `new_from_slice` accepts a key
/// of any length, so its error arm is never taken.
#[verifier::external_body]
fn hmac_sha256(key: &[u8], data: &[u8]) -> (r: Vec<u8>)
    ensures
        r@ == hmac_sha256_of(key@, data@),
{
    match <Hmac<Sha256> as Mac>::new_from_slice(key) {
        Ok(mut mac) => {
            mac.update(data);
            mac.finalize().into_bytes().to_vec()
        },
        Err(_) => Vec::new(),
    }
}

/// Relies on hmac's `Hmac<Sha512>` (`new_from_slice`, `update`, `finalize`):
/// the HMAC-SHA512 tag of `data` under `key`. `new_from_slice` accepts a key
/// of any length, so its error arm is never taken.
#[verifier::external_body]
fn hmac_sha512(key: &[u8], data: &[u8]) -> (r: Vec<u8>)
    ensures
        r@ == hmac_sha512_of(key@, data@),
{
    match <Hmac<Sha512> as Mac>::new_from_slice(key) {
        Ok(mut mac) => {
            mac.update(data);
            mac.finalize().into_bytes().to_vec()
        },
        Err(_) => Vec::new(),
    }
}

/// Relies on `serde_json::from_slice` into a `serde_json::Value` and
/// `Value::is_object`: whether `doc` is one JSON object.
#[verifier::external_body]
fn is_json_object(doc: &[u8]) -> (r: bool)
    ensures
        r == json_object_of(doc@),
{
    match serde_json::from_slice::<serde_json::Value>(doc) {
        Ok(v) => v.is_object(),
        Err(_) => false,
    }
}

fn hex_digit_exec(n: u8) -> (r: u8)
    requires
        n < 16,
    ensures
        r == hex_digit(n),
{
    if n < 10 {
        48 + n
    } else {
        87 + n
    }
}

/// Lower-case hex text of `b`.
pub fn to_hex(b: &[u8]) -> (r: Vec<u8>)
    ensures
        r@ == hex_of(b@),
{
    let mut r: Vec<u8> = Vec::new();
    let mut i: usize = 0;
    while i < b.len()
        invariant
            i <= b@.len(),
            r@ == hex_of(b@.subrange(0, i as int)),
        decreases b@.len() - i,
    {
        let x = b[i];
        r.push(hex_digit_exec(x / 16));
        r.push(hex_digit_exec(x % 16));
        proof {
            let next = b@.subrange(0, i + 1);
            assert(next.drop_last() =~= b@.subrange(0, i as int));
            assert(next.last() == x);
        }
        i = i + 1;
        proof {
            assert(r@ =~= hex_of(b@.subrange(0, i as int)));
        }
    }
    assert(b@.subrange(0, b@.len() as int) =~= b@);
    r
}

/// Whether two byte strings are equal.
pub fn bytes_eq(a: &[u8], b: &[u8]) -> (r: bool)
    ensures
        r == (a@ == b@),
{
    if a.len() != b.len() {
        return false;
    }
    let mut i: usize = 0;
    while i < a.len()
        invariant
            i <= a@.len(),
            a@.len() == b@.len(),
            forall|j: int| 0 <= j < i ==> a@[j] == b@[j],
        decreases a@.len() - i,
    {
        if a[i] != b[i] {
            return false;
        }
        i = i + 1;
    }
    assert(a@ =~= b@);
    true
}

/// Whether two strings hold the same characters.
pub fn str_eq(a: &str, b: &str) -> (r: bool)
    ensures
        r == (a@ == b@),
{
    let n = a.unicode_len();
    if n != b.unicode_len() {
        return false;
    }
    let mut i: usize = 0;
    while i < n
        invariant
            i <= n,
            n == a@.len(),
            a@.len() == b@.len(),
            forall|j: int| 0 <= j < i ==> a@[j] == b@[j],
        decreases n - i,
    {
        if a.get_char(i) != b.get_char(i) {
            return false;
        }
        i = i + 1;
    }
    assert(a@ =~= b@);
    true
}

pub(crate) fn copy_bytes(v: &Vec<u8>) -> (r: Vec<u8>)
    ensures
        r@ == v@,
{
    let mut r: Vec<u8> = Vec::new();
    let mut i: usize = 0;
    while i < v.len()
        invariant
            i <= v@.len(),
            r@ == v@.subrange(0, i as int),
        decreases v@.len() - i,
    {
        r.push(v[i]);
        i = i + 1;
        assert(r@ =~= v@.subrange(0, i as int));
    }
    assert(v@.subrange(0, v@.len() as int) =~= v@);
    r
}

/// Frames `lo..hi` of `frames`, copied.
fn copy_frames(frames: &Vec<Vec<u8>>, lo: usize, hi: usize) -> (r: Vec<Vec<u8>>)
    requires
        lo <= hi <= frames@.len(),
    ensures
        frames_view(r@) == frames_view(frames@).subrange(lo as int, hi as int),
{
    let mut r: Vec<Vec<u8>> = Vec::new();
    let mut i: usize = lo;
    while i < hi
        invariant
            lo <= i <= hi,
            hi <= frames@.len(),
            r@.len() == i - lo,
            forall|k: int| 0 <= k < r@.len() ==> #[trigger] r@[k]@ == frames@[lo + k]@,
        decreases hi - i,
    {
        let f = copy_bytes(&frames[i]);
        r.push(f);
        i = i + 1;
    }
    assert(frames_view(r@) =~= frames_view(frames@).subrange(lo as int, hi as int));
    r
}

fn append_frames(out: &mut Vec<Vec<u8>>, frames: &Vec<Vec<u8>>)
    ensures
        frames_view(final(out)@) == frames_view(old(out)@) + frames_view(frames@),
{
    let mut i: usize = 0;
    while i < frames.len()
        invariant
            i <= frames@.len(),
            out@.len() == old(out)@.len() + i,
            forall|k: int| 0 <= k < old(out)@.len() ==> #[trigger] out@[k]@ == old(out)@[k]@,
            forall|k: int| 0 <= k < i ==> #[trigger] out@[old(out)@.len() + k]@ == frames@[k]@,
        decreases frames@.len() - i,
    {
        let f = copy_bytes(&frames[i]);
        out.push(f);
        i = i + 1;
    }
    assert forall|k: int| 0 <= k < out@.len() implies #[trigger] frames_view(out@)[k]
        == (frames_view(old(out)@) + frames_view(frames@))[k] by {
        if k >= old(out)@.len() {
            let j = k - old(out)@.len();
            assert(out@[old(out)@.len() + j]@ == frames@[j]@);
        }
    }
    assert(frames_view(out@) =~= frames_view(old(out)@) + frames_view(frames@));
}

/// The signed part of an envelope, as one byte string.
fn signed_part(e: &MessageEnvelope) -> (r: Vec<u8>)
    ensures
        r@ == signed_bytes(e@),
{
    let mut r = copy_bytes(&e.header);
    let mut p = copy_bytes(&e.parent_header);
    let mut m = copy_bytes(&e.metadata);
    let mut c = copy_bytes(&e.content);
    r.append(&mut p);
    r.append(&mut m);
    r.append(&mut c);
    r
}

/// The signature frame for `data` under `key` and `scheme`.
pub fn sign(key: &[u8], scheme: &str, data: &[u8]) -> (r: Option<Vec<u8>>)
    ensures
        match r {
            Some(s) => expected_signature(key@, scheme@, data@) == Some(s@),
            None => expected_signature(key@, scheme@, data@) is None,
        },
{
    if key.len() == 0 {
        Some(Vec::new())
    } else if str_eq(scheme, "hmac-sha256") {
        let tag = hmac_sha256(key, data);
        Some(to_hex(tag.as_slice()))
    } else if str_eq(scheme, "hmac-sha512") {
        let tag = hmac_sha512(key, data);
        Some(to_hex(tag.as_slice()))
    } else {
        None
    }
}

impl MessageEnvelope {
    /// The frame set of this envelope: identities, delimiter, signature, the
    /// four JSON parts and the buffers. The signature is empty for an empty key.
    pub fn encode(&self, key: &[u8], scheme: &str) -> (r: Result<Vec<Vec<u8>>, ProtocolError>)
        ensures
            match r {
                Ok(frames) => encoded(self@, key@, scheme@) == Some(frames_view(frames@)),
                Err(err) => encoded(self@, key@, scheme@) is None && err == ProtocolError::UnsupportedScheme,
            },
    {
        let data = signed_part(self);
        let sig = match sign(key, scheme, data.as_slice()) {
            Some(s) => s,
            None => return Err(ProtocolError::UnsupportedScheme),
        };
        let mut out: Vec<Vec<u8>> = Vec::new();
        append_frames(&mut out, &self.identities);
        out.push(delimiter());
        out.push(sig);
        out.push(copy_bytes(&self.header));
        out.push(copy_bytes(&self.parent_header));
        out.push(copy_bytes(&self.metadata));
        out.push(copy_bytes(&self.content));
        append_frames(&mut out, &self.buffers);
        assert(frames_view(out@) =~= frames_with(self@, expected_signature(key@, scheme@, signed_bytes(self@)).unwrap()));
        Ok(out)
    }

    /// Reads a frame set: routing identities up to the first delimiter, then
    /// signature, header, parent header, metadata and content, then buffers.
    /// Fewer than five frames after the delimiter, or a part that is no JSON
    /// object, is a malformed frame set. With a non-empty key the signature is checked.
    pub fn decode(frames: &Vec<Vec<u8>>, key: &[u8], scheme: &str) -> (r: Result<MessageEnvelope, ProtocolError>)
        ensures
            match r {
                Ok(e) => decoded(frames_view(frames@), key@, scheme@) == Ok::<EnvelopeModel, ProtocolError>(e@),
                Err(err) => decoded(frames_view(frames@), key@, scheme@) == Err::<EnvelopeModel, ProtocolError>(err),
            },
    {
        let ghost fv = frames_view(frames@);
        let delim = delimiter();
        let mut d: usize = 0;
        let mut found = false;
        while d < frames.len() && !found
            invariant
                d <= frames@.len(),
                fv == frames_view(frames@),
                delim@ == delimiter_spec(),
                found ==> d < frames@.len() && fv[d as int] == delimiter_spec(),
                find_delimiter(fv, 0) == find_delimiter(fv, d as int),
            decreases frames@.len() - d + (if found { 0int } else { 1int }),
        {
            if bytes_eq(frames[d].as_slice(), delim.as_slice()) {
                found = true;
            } else {
                d = d + 1;
            }
        }
        if !found {
            return Err(ProtocolError::MissingDelimiter);
        }
        if frames.len() - d < 6 {
            return Err(ProtocolError::MalformedFrame);
        }
        let e = MessageEnvelope {
            identities: copy_frames(frames, 0, d),
            header: copy_bytes(&frames[d + 2]),
            parent_header: copy_bytes(&frames[d + 3]),
            metadata: copy_bytes(&frames[d + 4]),
            content: copy_bytes(&frames[d + 5]),
            buffers: copy_frames(frames, d + 6, frames.len()),
        };
        assert(e@ == envelope_at(fv, d as int));
        let json = is_json_object(e.header.as_slice()) && is_json_object(e.parent_header.as_slice())
            && is_json_object(e.metadata.as_slice()) && is_json_object(e.content.as_slice());
        if !json {
            return Err(ProtocolError::MalformedFrame);
        }
        if key.len() > 0 {
            let data = signed_part(&e);
            let ok = match sign(key, scheme, data.as_slice()) {
                Some(s) => bytes_eq(s.as_slice(), frames[d + 1].as_slice()),
                None => false,
            };
            if !ok {
                return Err(ProtocolError::SignatureMismatch);
            }
        }
        Ok(e)
    }
}

proof fn lemma_find_after_identities(ids: Seq<Seq<u8>>, rest: Seq<Seq<u8>>, i: int)
    requires
        0 <= i <= ids.len(),
        forall|j: int| 0 <= j < ids.len() ==> #[trigger] ids[j] != delimiter_spec(),
        rest.len() > 0,
        rest[0] == delimiter_spec(),
    ensures
        find_delimiter(ids + rest, i) == Some(ids.len() as int),
    decreases ids.len() - i,
{
    if i < ids.len() {
        assert((ids + rest)[i] == ids[i]);
        lemma_find_after_identities(ids, rest, i + 1);
    } else {
        assert((ids + rest)[i] == rest[0]);
    }
}

/// The frame set of a valid envelope puts its delimiter right after the
/// identities, and reads back as that envelope with `sig` as its signature.
proof fn lemma_frames_with_parse(e: EnvelopeModel, sig: Seq<u8>)
    requires
        valid_envelope(e),
    ensures
        find_delimiter(frames_with(e, sig), 0) == Some(e.identities.len() as int),
        frames_with(e, sig).len() >= e.identities.len() + 6,
        envelope_at(frames_with(e, sig), e.identities.len() as int) == e,
        frames_with(e, sig)[e.identities.len() as int + 1] == sig,
{
    let six = seq![delimiter_spec(), sig, e.header, e.parent_header, e.metadata, e.content];
    let f = frames_with(e, sig);
    let n = e.identities.len() as int;
    assert(f =~= e.identities + (six + e.buffers));
    lemma_find_after_identities(e.identities, six + e.buffers, 0);
    let m = envelope_at(f, n);
    assert(m.identities =~= e.identities);
    assert(m.buffers =~= e.buffers);
    assert(f[n + 1] == sig);
    assert(m.header == e.header);
    assert(m.parent_header == e.parent_header);
    assert(m.metadata == e.metadata);
    assert(m.content == e.content);
}

/// Decoding what `encode` produced, under the same key and scheme, gives the
/// envelope back.
pub proof fn lemma_round_trip(e: EnvelopeModel, key: Seq<u8>, scheme: Seq<char>)
    requires
        valid_envelope(e),
        encoded(e, key, scheme) is Some,
    ensures
        decoded(encoded(e, key, scheme).unwrap(), key, scheme) == Ok::<EnvelopeModel, ProtocolError>(e),
{
    let sig = expected_signature(key, scheme, signed_bytes(e)).unwrap();
    lemma_frames_with_parse(e, sig);
}

/// Decoding with a non-empty key, or a scheme, whose signature differs from the
/// one the frames were encoded with fails with `SignatureMismatch`.
pub proof fn lemma_wrong_key_rejected(
    e: EnvelopeModel,
    key: Seq<u8>,
    scheme: Seq<char>,
    other_key: Seq<u8>,
    other_scheme: Seq<char>,
)
    requires
        valid_envelope(e),
        encoded(e, key, scheme) is Some,
        other_key.len() > 0,
        expected_signature(other_key, other_scheme, signed_bytes(e)) != expected_signature(
            key,
            scheme,
            signed_bytes(e),
        ),
    ensures
        decoded(encoded(e, key, scheme).unwrap(), other_key, other_scheme) == Err::<
            EnvelopeModel,
            ProtocolError,
        >(ProtocolError::SignatureMismatch),
{
    let sig = expected_signature(key, scheme, signed_bytes(e)).unwrap();
    lemma_frames_with_parse(e, sig);
}

/// Unsigned mode: with an empty key `encode` emits an empty signature frame,
/// and `decode` checks no signature: any signature frame is read past.
pub proof fn lemma_unsigned(e: EnvelopeModel, scheme: Seq<char>, other_scheme: Seq<char>, sig: Seq<u8>)
    requires
        valid_envelope(e),
    ensures
        encoded(e, Seq::empty(), scheme) == Some(frames_with(e, Seq::empty())),
        decoded(frames_with(e, sig), Seq::empty(), other_scheme) == Ok::<EnvelopeModel, ProtocolError>(e),
{
    lemma_frames_with_parse(e, sig);
}

} // verus!

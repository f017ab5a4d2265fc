//! The checksum manifest and the integrity check of a downloaded binary.
use vstd::prelude::*;

use crate::text::{chars_of, same_text, strip_bounds, strip_end, strip_start, trim_quotes};

verus! {

/// One member of the checksum manifest: a binary variant's name and its
/// expected digest, as the manifest writes it (JSON text, so a string digest
/// still carries its quotes).
pub struct Checksum {
    pub key: String,
    pub value: String,
}

impl View for Checksum {
    type V = (Seq<char>, Seq<char>);

    open spec fn view(&self) -> (Seq<char>, Seq<char>) {
        (self.key@, self.value@)
    }
}

/// The members of a JSON object, each value written back as JSON text.
pub uninterp spec fn json_object_members(bytes: Seq<u8>) -> Option<Seq<(Seq<char>, Seq<char>)>>;

/// The characters of each part of string pairs.
pub open spec fn pairs_view(v: Seq<(String, String)>) -> Seq<(Seq<char>, Seq<char>)> {
    v.map_values(|e: (String, String)| (e.0@, e.1@))
}

/// Relies on `serde_json::from_slice` into a `serde_json::Value`, on
/// `Value::as_object`, and on `Value`'s `Display` for each member: the members
/// of the object, or `None` when the bytes are not a JSON object.
#[verifier::external_body]
fn object_members(bytes: &[u8]) -> (r: Option<Vec<(String, String)>>)
    ensures
        match r {
            Some(v) => json_object_members(bytes@) == Some(pairs_view(v@)),
            None => json_object_members(bytes@) is None,
        },
{
    let value: serde_json::Value = serde_json::from_slice(bytes).ok()?;
    let object = value.as_object()?;
    Some(object.iter().map(|(k, v)| (k.clone(), v.to_string())).collect())
}

/// The checksums of a list of views.
pub open spec fn checksums_view(c: Seq<Checksum>) -> Seq<(Seq<char>, Seq<char>)> {
    c.map_values(|x: Checksum| x@)
}

/// Turns the members of a checksum manifest into checksums, in order; no
/// members (the manifest is not a JSON object) give no checksums.
pub fn checksums_from_members(members: Option<Vec<(String, String)>>) -> (r: Vec<Checksum>)
    ensures
        checksums_view(r@) == match members {
            Some(v) => pairs_view(v@),
            None => Seq::empty(),
        },
{
    let mut out: Vec<Checksum> = Vec::new();
    let v = match members {
        Some(v) => v,
        None => {
            assert(checksums_view(out@) =~= Seq::empty());
            return out;
        },
    };
    let mut i: usize = 0;
    while i < v.len()
        invariant
            i <= v@.len(),
            checksums_view(out@) =~= pairs_view(v@).take(i as int),
        decreases v@.len() - i,
    {
        let c = Checksum { key: v[i].0.clone(), value: v[i].1.clone() };
        out.push(c);
        assert(pairs_view(v@).take(i + 1) =~= pairs_view(v@).take(i as int).push(c@));
        i += 1;
    }
    assert(pairs_view(v@).take(v@.len() as int) =~= pairs_view(v@));
    out
}

/// Reads the checksum manifest, a JSON object from variant name to digest.
pub fn parse_checksums(manifest: &[u8]) -> (r: Vec<Checksum>)
    ensures
        checksums_view(r@) == match json_object_members(manifest@) {
            Some(m) => m,
            None => Seq::empty(),
        },
{
    checksums_from_members(object_members(manifest))
}

/// The manifest value of the last checksum keyed `key`.
pub open spec fn value_for(c: Seq<(Seq<char>, Seq<char>)>, key: Seq<char>) -> Option<Seq<char>>
    decreases c.len(),
{
    if c.len() == 0 {
        None
    } else if c.last().0 == key {
        Some(c.last().1)
    } else {
        value_for(c.drop_last(), key)
    }
}

/// `s` with the double quotes at both of its ends removed.
pub fn strip_quotes(s: &str) -> (r: String)
    ensures
        r@ == trim_quotes(s@),
{
    let t = chars_of(s);
    assert(t@.subrange(0, t@.len() as int) =~= s@);
    let (a, b) = strip_bounds(&t, 0, t.len(), true);
    s.substring_char(a, b).to_owned()
}

/// The digest that the manifest gives for `variant_name`, unquoted; `None`
/// when the manifest has no entry for it, and then nothing can be verified.
pub fn expected_digest(checksums: &Vec<Checksum>, variant_name: &str) -> (r: Option<String>)
    ensures
        match value_for(checksums_view(checksums@), variant_name@) {
            Some(v) => r is Some && r->Some_0@ == trim_quotes(v),
            None => r is None,
        },
{
    let ghost cv = checksums_view(checksums@);
    let mut i: usize = checksums.len();
    assert(cv.take(i as int) =~= cv);
    while i > 0
        invariant
            i <= checksums@.len(),
            cv == checksums_view(checksums@),
            value_for(cv, variant_name@) == value_for(cv.take(i as int), variant_name@),
        decreases i,
    {
        let ghost p = cv.take(i as int);
        assert(p.last() == checksums@[i - 1]@);
        assert(p.drop_last() =~= cv.take(i - 1));
        if same_text(checksums[i - 1].key.as_str(), variant_name) {
            return Some(strip_quotes(checksums[i - 1].value.as_str()));
        }
        i -= 1;
    }
    None
}

/// The SHA-256 digest of a byte string.
pub uninterp spec fn sha256_of(data: Seq<u8>) -> Seq<u8>;

/// A SHA-256 computation fed piece by piece, so that a large file can be
/// digested in bounded chunks.
#[verifier::external_body]
pub struct Sha256Stream {
    hasher: sha2::Sha256,
}

/// The bytes fed to a digest computation so far, in order.
pub uninterp spec fn stream_input(s: Sha256Stream) -> Seq<u8>;

impl Sha256Stream {
    /// Relies on `sha2::Sha256::new` (through `Digest`): nothing is fed yet.
    #[verifier::external_body]
    fn start() -> (r: Sha256Stream)
        ensures
            stream_input(r) == Seq::<u8>::empty(),
    {
        Sha256Stream { hasher: <sha2::Sha256 as sha2::Digest>::new() }
    }

    /// Relies on `sha2::Sha256::update` (through `Digest`): `data` follows what
    /// was fed before.
    #[verifier::external_body]
    fn feed(&mut self, data: &[u8])
        ensures
            stream_input(*final(self)) == stream_input(*old(self)) + data@,
    {
        sha2::Digest::update(&mut self.hasher, data)
    }

    /// A computation that has been fed nothing.
    pub fn new() -> (r: Sha256Stream)
        ensures
            stream_input(r) == Seq::<u8>::empty(),
    {
        Sha256Stream::start()
    }

    /// Feeds `data` after what was fed before.
    pub fn update(&mut self, data: &[u8])
        ensures
            stream_input(*final(self)) == stream_input(*old(self)) + data@,
    {
        self.feed(data)
    }

    /// Relies on `sha2::Sha256::finalize` (through `Digest`): the 32-byte
    /// digest of everything fed.
    #[verifier::external_body]
    fn finalize(self) -> (r: Vec<u8>)
        ensures
            r@ == sha256_of(stream_input(self)),
            r@.len() == 32,
    {
        sha2::Digest::finalize(self.hasher).to_vec()
    }

    /// The digest of everything fed, as lowercase hexadecimal.
    pub fn finish_hex(self) -> (r: String)
        ensures
            r@ == hex_text(sha256_of(stream_input(self))),
    {
        let d = self.finalize();
        hex_string(&d)
    }
}

/// The lowercase hexadecimal digits, by value.
pub open spec fn hex_digits() -> Seq<char> {
    seq!['0', '1', '2', '3', '4', '5', '6', '7', '8', '9', 'a', 'b', 'c', 'd', 'e', 'f']
}

/// Bytes as lowercase hexadecimal, two digits each, most significant first.
pub open spec fn hex_text(b: Seq<u8>) -> Seq<char>
    decreases b.len(),
{
    if b.len() == 0 {
        Seq::empty()
    } else {
        hex_text(b.drop_last()) + seq![
            hex_digits()[b.last() as int / 16],
            hex_digits()[b.last() as int % 16],
        ]
    }
}

/// Writes bytes as lowercase hexadecimal.
pub fn hex_string(bytes: &Vec<u8>) -> (r: String)
    ensures
        r@ == hex_text(bytes@),
{
    let digits = "0123456789abcdef";
    proof {
        reveal_strlit("0123456789abcdef");
    }
    assert(digits@ =~= hex_digits());
    let mut out = String::new();
    let mut i: usize = 0;
    assert(bytes@.take(0) =~= Seq::<u8>::empty());
    while i < bytes.len()
        invariant
            i <= bytes@.len(),
            digits@ == hex_digits(),
            out@ == hex_text(bytes@.take(i as int)),
        decreases bytes@.len() - i,
    {
        let b = bytes[i];
        let hi = (b / 16) as usize;
        let lo = (b % 16) as usize;
        out.append(digits.substring_char(hi, hi + 1));
        out.append(digits.substring_char(lo, lo + 1));
        assert(bytes@.take(i + 1).drop_last() =~= bytes@.take(i as int));
        assert(bytes@.take(i + 1).last() == b);
        assert(out@ =~= hex_text(bytes@.take(i + 1)));
        i += 1;
    }
    assert(bytes@.take(bytes@.len() as int) =~= bytes@);
    out
}

/// The SHA-256 digest of `data`, as lowercase hexadecimal.
pub fn sha256_hex(data: &[u8]) -> (r: String)
    ensures
        r@ == hex_text(sha256_of(data@)),
{
    let mut s = Sha256Stream::new();
    s.update(data);
    assert(Seq::<u8>::empty() + data@ =~= data@);
    s.finish_hex()
}

/// Whether a locally computed digest equals a manifest value, once the
/// quotes wrapped around the latter are stripped.
pub open spec fn digest_matches(computed: Seq<char>, manifest_value: Seq<char>) -> bool {
    computed == trim_quotes(manifest_value)
}

/// Compares a locally computed digest with a manifest value.
pub fn verify_digest(computed_hex: &str, manifest_value: &str) -> (r: bool)
    ensures
        r == digest_matches(computed_hex@, manifest_value@),
{
    let expected = strip_quotes(manifest_value);
    same_text(computed_hex, expected.as_str())
}

/// Whether `content` has the digest that a manifest value gives.
pub fn verify_content(content: &[u8], manifest_value: &str) -> (r: bool)
    ensures
        r == digest_matches(hex_text(sha256_of(content@)), manifest_value@),
{
    let computed = sha256_hex(content);
    verify_digest(computed.as_str(), manifest_value)
}

/// Hexadecimal text holds only hexadecimal digits.
pub proof fn lemma_hex_text_digits(b: Seq<u8>)
    ensures
        forall|i: int| 0 <= i < hex_text(b).len() ==> hex_digits().contains(#[trigger] hex_text(b)[i]),
    decreases b.len(),
{
    if b.len() > 0 {
        lemma_hex_text_digits(b.drop_last());
        let p = hex_text(b.drop_last());
        let d0 = hex_digits()[b.last() as int / 16];
        let d1 = hex_digits()[b.last() as int % 16];
        assert(hex_digits()[b.last() as int / 16] == d0);
        assert(hex_digits()[b.last() as int % 16] == d1);
        assert forall|i: int| 0 <= i < hex_text(b).len() implies hex_digits().contains(
            #[trigger] hex_text(b)[i],
        ) by {
            if i < p.len() {
                assert(hex_text(b)[i] == p[i]);
            } else if i == p.len() {
                assert(hex_text(b)[i] == d0);
            } else {
                assert(hex_text(b)[i] == d1);
            }
        }
    }
}

/// `n` double quotes.
pub open spec fn quotes(n: nat) -> Seq<char> {
    Seq::new(n, |i: int| '"')
}

/// Leading quotes in front of `s` are all stripped.
pub proof fn lemma_strip_leading_quotes(n: nat, s: Seq<char>)
    ensures
        strip_start(quotes(n) + s, true) == strip_start(s, true),
    decreases n,
{
    if n > 0 {
        assert((quotes(n) + s)[0] == '"');
        assert((quotes(n) + s).drop_first() =~= quotes((n - 1) as nat) + s);
        lemma_strip_leading_quotes((n - 1) as nat, s);
    } else {
        assert(quotes(n) + s =~= s);
    }
}

/// Trailing quotes after `s` are all stripped.
pub proof fn lemma_strip_trailing_quotes(s: Seq<char>, n: nat)
    ensures
        strip_end(s + quotes(n), true) == strip_end(s, true),
    decreases n,
{
    if n > 0 {
        assert((s + quotes(n)).last() == '"');
        assert((s + quotes(n)).drop_last() =~= s + quotes((n - 1) as nat));
        lemma_strip_trailing_quotes(s, (n - 1) as nat);
    } else {
        assert(s + quotes(n) =~= s);
    }
}

/// A digest wrapped in any number of layers of double quotes matches the
/// same digest computed locally, provided the digest itself neither begins
/// nor ends with a quote (hexadecimal text never does).
pub proof fn lemma_quoted_value_matches(digest: Seq<char>, n: nat)
    requires
        digest.len() > 0 ==> digest[0] != '"' && digest.last() != '"',
    ensures
        digest_matches(digest, quotes(n) + digest + quotes(n)),
{
    let w = quotes(n) + digest + quotes(n);
    assert(w =~= quotes(n) + (digest + quotes(n)));
    lemma_strip_leading_quotes(n, digest + quotes(n));
    if digest.len() > 0 {
        assert((digest + quotes(n))[0] == digest[0]);
        assert(strip_start(digest + quotes(n), true) == digest + quotes(n));
        lemma_strip_trailing_quotes(digest, n);
    } else {
        assert(digest + quotes(n) =~= quotes(n) + digest);
        lemma_strip_leading_quotes(n, digest);
    }
}

/// Hexadecimal text holds no double quote.
pub proof fn lemma_hex_text_unquoted(b: Seq<u8>)
    ensures
        forall|i: int| 0 <= i < hex_text(b).len() ==> #[trigger] hex_text(b)[i] != '"',
    decreases b.len(),
{
    if b.len() > 0 {
        lemma_hex_text_unquoted(b.drop_last());
        let p = hex_text(b.drop_last());
        assert forall|i: int| 0 <= i < hex_text(b).len() implies #[trigger] hex_text(b)[i] != '"' by {
            if i < p.len() {
                assert(hex_text(b)[i] == p[i]);
            } else {
                let d = b.last() as int;
                assert(0 <= d / 16 < 16 && 0 <= d % 16 < 16);
                assert(hex_text(b)[i] == hex_digits()[d / 16] || hex_text(b)[i] == hex_digits()[d % 16]);
            }
        }
    }
}

/// Content always passes the check against its own digest, however many
/// layers of quotes the manifest wraps around it.
pub proof fn lemma_own_digest_verifies(content: Seq<u8>, n: nat)
    ensures
        digest_matches(
            hex_text(sha256_of(content)),
            quotes(n) + hex_text(sha256_of(content)) + quotes(n),
        ),
{
    let h = hex_text(sha256_of(content));
    lemma_hex_text_unquoted(sha256_of(content));
    if h.len() > 0 {
        assert(h[0] != '"');
        assert(h[h.len() - 1] != '"');
    }
    lemma_quoted_value_matches(h, n);
}

} // verus!

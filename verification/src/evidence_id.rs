//! Content-derived evidence identifiers.
//!
//! An identifier hashes a message of length-prefixed parts: a fixed domain,
//! the identifier's kind, then each field's name and value. Every part is
//! preceded by its length as eight big-endian bytes, so no two different
//! part lists frame to the same message.
use vstd::prelude::*;
use vstd::utf8::{is_ascii_chars, is_ascii_chars_encode_utf8};

use crate::digest::{sha256, sha256_of};
use crate::domain::{EvidenceId, valid_evidence_id};
use crate::evidence::{EvidenceAssemblyError, EvidenceAssemblyErrorKind};
use crate::hex::{hex_text, lemma_hex_text_ascii, lower_hex};
use crate::text::{owned, push_text, utf8};

verus! {

/// The domain every evidence-identifier message starts with.
pub open spec fn id_domain() -> Seq<u8> {
    utf8("assay.project-intelligence.evidence-id.v1"@)
}

/// The eight big-endian bytes of `n`.
pub open spec fn be_u64(n: u64) -> Seq<u8> {
    seq![
        ((n >> 56u64) & 0xffu64) as u8,
        ((n >> 48u64) & 0xffu64) as u8,
        ((n >> 40u64) & 0xffu64) as u8,
        ((n >> 32u64) & 0xffu64) as u8,
        ((n >> 24u64) & 0xffu64) as u8,
        ((n >> 16u64) & 0xffu64) as u8,
        ((n >> 8u64) & 0xffu64) as u8,
        (n & 0xffu64) as u8,
    ]
}

/// One part preceded by its length.
pub open spec fn framed(part: Seq<u8>) -> Seq<u8> {
    be_u64(part.len() as u64) + part
}

/// Every part framed, in order.
pub open spec fn framed_all(parts: Seq<Seq<u8>>) -> Seq<u8>
    decreases parts.len(),
{
    if parts.len() == 0 {
        Seq::empty()
    } else {
        framed(parts[0]) + framed_all(parts.drop_first())
    }
}

/// The parts an optional field contributes: a presence marker, then the
/// value when there is one.
pub open spec fn optional_parts(name: Seq<u8>, value: Option<Seq<u8>>) -> Seq<Seq<u8>> {
    match value {
        Some(v) => seq![name, utf8("some"@), utf8("value"@), v],
        None => seq![name, utf8("none"@)],
    }
}

/// The text of the identifier of `kind` over the framed `parts`.
pub open spec fn evidence_id_text(kind: Seq<char>, parts: Seq<Seq<u8>>) -> Seq<char> {
    "evidence:"@ + kind + ":v1-"@ + hex_text(sha256_of(framed_all(parts)))
}

/// Framing one more part appends its frame.
pub proof fn lemma_framed_all_push(parts: Seq<Seq<u8>>, p: Seq<u8>)
    ensures
        framed_all(parts.push(p)) == framed_all(parts) + framed(p),
    decreases parts.len(),
{
    if parts.len() == 0 {
        assert(parts.push(p).drop_first() =~= Seq::<Seq<u8>>::empty());
        assert(framed_all(Seq::<Seq<u8>>::empty()) == Seq::<u8>::empty());
        assert(parts.push(p)[0] == p);
        assert(framed_all(parts.push(p)) =~= framed(p));
    } else {
        assert(parts.push(p).drop_first() =~= parts.drop_first().push(p));
        lemma_framed_all_push(parts.drop_first(), p);
        assert(framed_all(parts.push(p)) =~= framed_all(parts) + framed(p));
    }
}

proof fn lemma_be_u64_injective(a: u64, b: u64)
    requires
        be_u64(a) == be_u64(b),
    ensures
        a == b,
{
    assert(be_u64(a)[0] == be_u64(b)[0]);
    assert(be_u64(a)[1] == be_u64(b)[1]);
    assert(be_u64(a)[2] == be_u64(b)[2]);
    assert(be_u64(a)[3] == be_u64(b)[3]);
    assert(be_u64(a)[4] == be_u64(b)[4]);
    assert(be_u64(a)[5] == be_u64(b)[5]);
    assert(be_u64(a)[6] == be_u64(b)[6]);
    assert(be_u64(a)[7] == be_u64(b)[7]);
    assert(a == b) by (bit_vector)
        requires
            ((a >> 56u64) & 0xffu64) as u8 == ((b >> 56u64) & 0xffu64) as u8,
            ((a >> 48u64) & 0xffu64) as u8 == ((b >> 48u64) & 0xffu64) as u8,
            ((a >> 40u64) & 0xffu64) as u8 == ((b >> 40u64) & 0xffu64) as u8,
            ((a >> 32u64) & 0xffu64) as u8 == ((b >> 32u64) & 0xffu64) as u8,
            ((a >> 24u64) & 0xffu64) as u8 == ((b >> 24u64) & 0xffu64) as u8,
            ((a >> 16u64) & 0xffu64) as u8 == ((b >> 16u64) & 0xffu64) as u8,
            ((a >> 8u64) & 0xffu64) as u8 == ((b >> 8u64) & 0xffu64) as u8,
            (a & 0xffu64) as u8 == (b & 0xffu64) as u8,
    ;
}

/// Length-prefixed framing is injective: two part lists whose parts fit a
/// 64-bit length frame to the same message only when they are equal, so no
/// regrouping of bytes between names and values can make two different
/// field lists collide before hashing.
pub proof fn law_framing_is_injective(p: Seq<Seq<u8>>, q: Seq<Seq<u8>>)
    requires
        forall|i: int| 0 <= i < p.len() ==> (#[trigger] p[i]).len() <= u64::MAX,
        forall|i: int| 0 <= i < q.len() ==> (#[trigger] q[i]).len() <= u64::MAX,
        framed_all(p) == framed_all(q),
    ensures
        p == q,
    decreases p.len(),
{
    if p.len() == 0 {
        if q.len() > 0 {
            assert(framed_all(q).len() >= 8);
        }
        assert(p =~= q);
    } else if q.len() == 0 {
        assert(framed_all(p).len() >= 8);
    } else {
        let m = framed_all(p);
        let lp = p[0].len() as u64;
        let lq = q[0].len() as u64;
        assert(m.subrange(0, 8) =~= be_u64(lp));
        assert(framed_all(q).subrange(0, 8) =~= be_u64(lq));
        lemma_be_u64_injective(lp, lq);
        assert(p[0].len() == q[0].len());
        let n = p[0].len() as int;
        assert(m.subrange(8, 8 + n) =~= p[0]);
        assert(framed_all(q).subrange(8, 8 + n) =~= q[0]);
        assert(m.subrange(8 + n, m.len() as int) =~= framed_all(p.drop_first()));
        assert(framed_all(q).subrange(8 + n, m.len() as int) =~= framed_all(q.drop_first()));
        law_framing_is_injective(p.drop_first(), q.drop_first());
        assert(p =~= seq![p[0]] + p.drop_first());
        assert(q =~= seq![q[0]] + q.drop_first());
    }
}

/// Appends bytes to a byte vector.
pub fn append_bytes(dst: &mut Vec<u8>, src: &[u8])
    ensures
        final(dst)@ == old(dst)@ + src@,
{
    let ghost start = dst@;
    let mut i: usize = 0;
    while i < src.len()
        invariant
            i <= src@.len(),
            dst@ == start + src@.subrange(0, i as int),
        decreases src.len() - i,
    {
        dst.push(src[i]);
        assert(dst@ =~= start + src@.subrange(0, i + 1));
        i = i + 1;
    }
    assert(src@.subrange(0, src@.len() as int) =~= src@);
}

/// Appends one length-prefixed part to a message.
fn append_framed(message: &mut Vec<u8>, part: &[u8])
    ensures
        final(message)@ == old(message)@ + framed(part@),
{
    let n = part.len() as u64;
    message.push(((n >> 56u64) & 0xffu64) as u8);
    message.push(((n >> 48u64) & 0xffu64) as u8);
    message.push(((n >> 40u64) & 0xffu64) as u8);
    message.push(((n >> 32u64) & 0xffu64) as u8);
    message.push(((n >> 24u64) & 0xffu64) as u8);
    message.push(((n >> 16u64) & 0xffu64) as u8);
    message.push(((n >> 8u64) & 0xffu64) as u8);
    message.push((n & 0xffu64) as u8);
    let ghost head = message@;
    append_bytes(message, part);
    assert(message@ =~= old(message)@ + framed(part@));
}

/// Accumulates the length-prefixed parts of one evidence identifier.
pub struct EvidenceIdBuilder {
    pub(crate) message: Vec<u8>,
    pub(crate) parts: Ghost<Seq<Seq<u8>>>,
}

impl EvidenceIdBuilder {
    /// The message frames exactly the parts added so far.
    pub closed spec fn wf(&self) -> bool {
        self.message@ == framed_all(self.parts@)
    }

    /// The parts added so far.
    pub closed spec fn parts(&self) -> Seq<Seq<u8>> {
        self.parts@
    }

    /// Starts an identifier of `kind` under the fixed domain.
    pub fn new(kind: &str) -> (r: EvidenceIdBuilder)
        ensures
            r.wf(),
            r.parts() == seq![id_domain(), utf8(kind@)],
    {
        let mut message: Vec<u8> = Vec::new();
        let domain = "assay.project-intelligence.evidence-id.v1".as_bytes();
        append_framed(&mut message, domain);
        append_framed(&mut message, kind.as_bytes());
        let ghost parts = seq![id_domain(), utf8(kind@)];
        proof {
            let rest = parts.drop_first();
            assert(rest.drop_first() =~= Seq::<Seq<u8>>::empty());
            assert(framed_all(Seq::<Seq<u8>>::empty()) == Seq::<u8>::empty());
            assert(rest =~= seq![utf8(kind@)]);
            assert(framed_all(rest) =~= framed(utf8(kind@)));
            assert(framed_all(parts) =~= framed(id_domain()) + framed(utf8(kind@)));
            assert(message@ =~= framed_all(parts));
        }
        EvidenceIdBuilder { message, parts: Ghost(parts) }
    }

    fn push_part(&mut self, part: &[u8])
        requires
            old(self).wf(),
        ensures
            final(self).wf(),
            final(self).parts() == old(self).parts().push(part@),
    {
        proof {
            lemma_framed_all_push(self.parts@, part@);
        }
        let ghost parts = self.parts@.push(part@);
        append_framed(&mut self.message, part);
        self.parts = Ghost(parts);
    }

    /// Adds one named field.
    pub fn field(&mut self, name: &[u8], value: &[u8])
        requires
            old(self).wf(),
        ensures
            final(self).wf(),
            final(self).parts() == old(self).parts().push(name@).push(value@),
    {
        self.push_part(name);
        self.push_part(value);
    }

    /// Adds a field that may be absent: its presence, then its value.
    pub fn optional_field(&mut self, name: &[u8], value: Option<&[u8]>)
        requires
            old(self).wf(),
        ensures
            final(self).wf(),
            final(self).parts() == old(self).parts() + optional_parts(
                name@,
                match value {
                    Some(v) => Some(v@),
                    None => None,
                },
            ),
    {
        let ghost start = self.parts();
        match value {
            Some(v) => {
                self.field(name, "some".as_bytes());
                self.field("value".as_bytes(), v);
                assert(self.parts() =~= start + optional_parts(name@, Some(v@)));
            },
            None => {
                self.field(name, "none".as_bytes());
                assert(self.parts() =~= start + optional_parts(name@, None));
            },
        }
    }

    /// Hashes the framed message into `evidence:<kind>:v1-<hex digest>`.
    pub fn finish(self, kind: &str) -> (r: Result<EvidenceId, EvidenceAssemblyError>)
        requires
            self.wf(),
        ensures
            r is Ok <==> valid_evidence_id(evidence_id_text(kind@, self.parts())),
            r matches Ok(id) ==> id.view() == evidence_id_text(kind@, self.parts()),
            r matches Err(e) ==> e.kind == EvidenceAssemblyErrorKind::EvidenceIdGeneration,
    {
        let digest = sha256(self.message.as_slice());
        let hex = lower_hex(digest.as_slice());
        let mut text = owned("evidence:");
        push_text(&mut text, kind);
        push_text(&mut text, ":v1-");
        push_text(&mut text, hex.as_str());
        match EvidenceId::parse(text.as_str()) {
            Some(id) => Ok(id),
            None => Err(EvidenceAssemblyError::new(EvidenceAssemblyErrorKind::EvidenceIdGeneration)),
        }
    }
}

/// A kind that can name identifiers: non-empty lowercase letters, digits,
/// `.`, `-` and `_`.
pub open spec fn id_kind_chars(kind: Seq<char>) -> bool {
    &&& kind.len() > 0
    &&& forall|i: int|
        0 <= i < kind.len() ==> ('a' <= #[trigger] kind[i] <= 'z') || ('0' <= kind[i] <= '9') || kind[i]
            == '.' || kind[i] == '-' || kind[i] == '_'
}

/// Every identifier text of a well-named kind is a well-formed identifier,
/// whatever the digest: the kind is one segment and the hexadecimal digest,
/// after `v1-`, the other.
pub proof fn lemma_evidence_id_text_valid(kind: Seq<char>, parts: Seq<Seq<u8>>)
    requires
        id_kind_chars(kind),
    ensures
        valid_evidence_id(evidence_id_text(kind, parts)),
{
    reveal_strlit("evidence:");
    reveal_strlit(":v1-");
    let pre = "evidence:"@;
    let mid = ":v1-"@;
    let h = hex_text(sha256_of(framed_all(parts)));
    let t = pre + kind + mid + h;
    let k = kind.len() as int;
    assert(pre.len() == 9);
    assert(mid.len() == 4);
    lemma_hex_text_ascii(sha256_of(framed_all(parts)));
    assert forall|i: int| 0 <= i < h.len() implies ('0' <= #[trigger] h[i] <= '9') || ('a' <= h[i] <= 'f') by {
        let bytes = sha256_of(framed_all(parts));
        let n = if i % 2 == 0 {
            bytes[i / 2] / 16
        } else {
            bytes[i / 2] % 16
        };
        assert(0 <= n < 16);
    }
    assert(t.len() == 13 + k + h.len());
    assert forall|i: int| 0 <= i < t.len() implies '\0' <= #[trigger] t[i] <= '\u{7f}' by {
        if i < 9 {
            assert(t[i] == pre[i]);
        } else if i < 9 + k {
            assert(t[i] == kind[i - 9]);
        } else if i < 13 + k {
            assert(t[i] == mid[i - 9 - k]);
        } else {
            assert(t[i] == h[i - 13 - k]);
        }
    }
    assert(is_ascii_chars(t));
    is_ascii_chars_encode_utf8(t);
    assert(is_ascii_chars(pre));
    is_ascii_chars_encode_utf8(pre);
    let b = utf8(t);
    assert(b.len() == t.len());
    assert(b.subrange(0, 9) =~= utf8(pre)) by {
        assert forall|i: int| 0 <= i < 9 implies b.subrange(0, 9)[i] == utf8(pre)[i] by {
            assert(t[i] == pre[i]);
            assert(b[i] == t[i] as u8);
        }
    }
    assert forall|i: int| 9 <= i < b.len() implies crate::domain::evidence_id_byte(#[trigger] b[i]) || b[i] == 58
        && (b[i] == 58 <==> i == 9 + k) by {
        assert(b[i] == t[i] as u8);
        if i < 9 + k {
            assert(t[i] == kind[i - 9]);
        } else if i < 13 + k {
            assert(t[i] == mid[i - 9 - k]);
        } else {
            assert(t[i] == h[i - 13 - k]);
        }
    }
    assert(b[9] != 58) by {
        assert(b[9] == t[9] as u8);
        assert(t[9] == kind[0]);
    }
    assert(b[b.len() - 1] != 58) by {
        let last = b.len() - 1;
        assert(b[last] == t[last] as u8);
        if h.len() == 0 {
            assert(t[last] == mid[3]);
        } else {
            assert(t[last] == h[h.len() - 1]);
        }
    }
    assert(b[9 + k] == 58) by {
        assert(b[9 + k] == t[9 + k] as u8);
        assert(t[9 + k] == mid[0]);
    }
}

} // verus!

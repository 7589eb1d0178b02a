//! The cached access credential and its cache-record codec.
//!
//! One credential record is persisted to a single well-known file between
//! runs. The record layout is verified here: each string field is stored as
//! its UTF-8 bytes behind an 8-byte little-endian length, optional fields
//! behind a one-byte presence flag. Decoding inverts encoding exactly: a
//! decoded credential re-encodes to the same bytes, and bytes that encode a
//! credential decode to it and to nothing else. Reading and writing the file
//! itself is left to the embedding program.

use vstd::bytes::*;
use vstd::prelude::*;
use vstd::slice::slice_index_get;
use vstd::slice::slice_subrange;
use vstd::slice::slice_to_vec;
use vstd::utf8::*;

verus! {

/// A cached access credential, as the interactive authorization flow
/// acquires it.
pub struct Credential {
    pub access_token: String,
    pub refresh_token: Option<String>,
    /// Seconds since the Unix epoch at which the access token expires.
    pub expires_at: Option<u64>,
    /// The space-separated scopes the credential was granted.
    pub scope: String,
}

/// The mathematical value of a [`Credential`].
#[verifier::ext_equal]
pub struct CredentialData {
    pub access_token: Seq<char>,
    pub refresh_token: Option<Seq<char>>,
    pub expires_at: Option<u64>,
    pub scope: Seq<char>,
}

impl DeepView for Credential {
    type V = CredentialData;

    open spec fn deep_view(&self) -> CredentialData {
        CredentialData {
            access_token: self.access_token@,
            refresh_token: self.refresh_token.deep_view(),
            expires_at: self.expires_at,
            scope: self.scope@,
        }
    }
}

/// A string field as it stands in the cache record: its UTF-8 bytes behind
/// an 8-byte little-endian length.
pub open spec fn enc_str(s: Seq<char>) -> Seq<u8> {
    spec_u64_to_le_bytes(encode_utf8(s).len() as u64) + encode_utf8(s)
}

/// An optional string field: a presence flag, then the field itself.
pub open spec fn enc_opt_str(s: Option<Seq<char>>) -> Seq<u8> {
    match s {
        None => seq![0u8],
        Some(t) => seq![1u8] + enc_str(t),
    }
}

/// An optional timestamp field: a presence flag, then 8 little-endian bytes.
pub open spec fn enc_opt_time(t: Option<u64>) -> Seq<u8> {
    match t {
        None => seq![0u8],
        Some(x) => seq![1u8] + spec_u64_to_le_bytes(x),
    }
}

/// The whole cache record: the four fields in a fixed order.
pub open spec fn spec_encoded(c: CredentialData) -> Seq<u8> {
    enc_str(c.access_token) + enc_opt_str(c.refresh_token) + enc_opt_time(c.expires_at) + enc_str(
        c.scope,
    )
}

/// Whether a credential value can stand in a cache record: each string's
/// UTF-8 form is addressable by an 8-byte length. Every credential held in
/// memory is, since its strings fit in memory.
pub open spec fn encodable(c: CredentialData) -> bool {
    &&& encode_utf8(c.access_token).len() <= u64::MAX
    &&& (match c.refresh_token {
        Some(t) => encode_utf8(t).len() <= u64::MAX,
        None => true,
    })
    &&& encode_utf8(c.scope).len() <= u64::MAX
}

/// `part` occurs in `b` starting at `pos`.
pub open spec fn prefix_at(b: Seq<u8>, pos: int, part: Seq<u8>) -> bool {
    &&& 0 <= pos
    &&& pos + part.len() <= b.len()
    &&& b.subrange(pos, pos + part.len()) == part
}

/// What standing at `pos` means for a length-prefixed string: the 8 length
/// bytes stand first, the UTF-8 bytes right after.
proof fn lemma_prefix_parts(b: Seq<u8>, pos: int, t: Seq<char>)
    requires
        encode_utf8(t).len() <= u64::MAX,
        prefix_at(b, pos, enc_str(t)),
    ensures
        pos + 8 + encode_utf8(t).len() <= b.len(),
        b.subrange(pos, pos + 8) == spec_u64_to_le_bytes(encode_utf8(t).len() as u64),
        b.subrange(pos + 8, pos + 8 + encode_utf8(t).len() as int) == encode_utf8(t),
{
    lemma_auto_spec_u64_to_from_le_bytes();
    let u = encode_utf8(t);
    let l = spec_u64_to_le_bytes(u.len() as u64);
    assert(l.len() == 8);
    assert(enc_str(t).len() == 8 + u.len());
    assert forall|i: int| 0 <= i < 8 implies b.subrange(pos, pos + 8)[i] == l[i] by {
        assert(b.subrange(pos, pos + enc_str(t).len() as int)[i] == enc_str(t)[i]);
    }
    assert(b.subrange(pos, pos + 8) =~= l);
    assert forall|i: int|
        0 <= i < u.len() implies b.subrange(pos + 8, pos + 8 + u.len() as int)[i] == u[i] by {
        assert(b.subrange(pos, pos + enc_str(t).len() as int)[8 + i] == enc_str(t)[8 + i]);
    }
    assert(b.subrange(pos + 8, pos + 8 + u.len() as int) =~= u);
}

/// Two length-prefixed strings standing at the same position of the same
/// byte sequence are the same string: the length prefix determines how far
/// the field reaches, and UTF-8 decoding inverts encoding.
proof fn lemma_enc_str_unique(b: Seq<u8>, pos: int, t1: Seq<char>, t2: Seq<char>)
    requires
        encode_utf8(t1).len() <= u64::MAX,
        encode_utf8(t2).len() <= u64::MAX,
        prefix_at(b, pos, enc_str(t1)),
        prefix_at(b, pos, enc_str(t2)),
    ensures
        t1 == t2,
{
    lemma_auto_spec_u64_to_from_le_bytes();
    lemma_prefix_parts(b, pos, t1);
    lemma_prefix_parts(b, pos, t2);
    let u1 = encode_utf8(t1);
    let u2 = encode_utf8(t2);
    assert(u1.len() as u64 == u2.len() as u64) by {
        assert(spec_u64_from_le_bytes(spec_u64_to_le_bytes(u1.len() as u64))
            == spec_u64_from_le_bytes(spec_u64_to_le_bytes(u2.len() as u64)));
    }
    assert(u1 == u2);
    encode_utf8_decode_utf8(t1);
    encode_utf8_decode_utf8(t2);
}

/// Where the refresh-token field starts in a record of `c`.
pub open spec fn pos_refresh(c: CredentialData) -> int {
    enc_str(c.access_token).len() as int
}

/// Where the expiry field starts in a record of `c`.
pub open spec fn pos_expiry(c: CredentialData) -> int {
    pos_refresh(c) + enc_opt_str(c.refresh_token).len()
}

/// Where the scope field starts in a record of `c`.
pub open spec fn pos_scope(c: CredentialData) -> int {
    pos_expiry(c) + enc_opt_time(c.expires_at).len()
}

/// Where each field stands in a record of `c`.
proof fn lemma_encoded_layout(b: Seq<u8>, c: CredentialData)
    requires
        encodable(c),
        b == spec_encoded(c),
    ensures
        b.len() == pos_scope(c) + enc_str(c.scope).len(),
        prefix_at(b, 0, enc_str(c.access_token)),
        match c.refresh_token {
            None => b[pos_refresh(c)] == 0,
            Some(t) => b[pos_refresh(c)] == 1 && prefix_at(b, pos_refresh(c) + 1, enc_str(t)),
        },
        match c.expires_at {
            None => b[pos_expiry(c)] == 0,
            Some(x) => b[pos_expiry(c)] == 1 && b.subrange(pos_expiry(c) + 1, pos_expiry(c) + 9)
                == spec_u64_to_le_bytes(x),
        },
        prefix_at(b, pos_scope(c), enc_str(c.scope)),
{
    lemma_auto_spec_u64_to_from_le_bytes();
    let aa = enc_str(c.access_token);
    let bb = enc_opt_str(c.refresh_token);
    let cc = enc_opt_time(c.expires_at);
    let dd = enc_str(c.scope);
    assert(b.subrange(0, aa.len() as int) =~= aa);
    assert(b.subrange(pos_scope(c), pos_scope(c) + dd.len() as int) =~= dd);
    match c.refresh_token {
        None => {
            assert(b[pos_refresh(c)] == bb[0]);
        },
        Some(t) => {
            assert(b[pos_refresh(c)] == bb[0]);
            assert(b.subrange(pos_refresh(c) + 1, pos_refresh(c) + 1 + enc_str(t).len() as int)
                =~= enc_str(t));
        },
    }
    match c.expires_at {
        None => {
            assert(b[pos_expiry(c)] == cc[0]);
        },
        Some(x) => {
            assert(b[pos_expiry(c)] == cc[0]);
            assert(b.subrange(pos_expiry(c) + 1, pos_expiry(c) + 9) =~= spec_u64_to_le_bytes(x));
        },
    }
}

/// A cache record determines its credential: two encodable credentials
/// with the same record are the same, so whatever [`Credential::decode`]
/// accepts is exactly what was once encoded.
pub proof fn lemma_spec_encoded_injective(c1: CredentialData, c2: CredentialData)
    requires
        encodable(c1),
        encodable(c2),
        spec_encoded(c1) == spec_encoded(c2),
    ensures
        c1 == c2,
{
    lemma_auto_spec_u64_to_from_le_bytes();
    let b = spec_encoded(c1);
    lemma_encoded_layout(b, c1);
    lemma_encoded_layout(b, c2);
    lemma_enc_str_unique(b, 0, c1.access_token, c2.access_token);
    assert(pos_refresh(c1) == pos_refresh(c2));
    match (c1.refresh_token, c2.refresh_token) {
        (Some(t1), Some(t2)) => {
            lemma_enc_str_unique(b, pos_refresh(c1) + 1, t1, t2);
        },
        (None, None) => {},
        _ => {
            assert(false);
        },
    }
    assert(pos_expiry(c1) == pos_expiry(c2));
    match (c1.expires_at, c2.expires_at) {
        (Some(x1), Some(x2)) => {
            assert(spec_u64_from_le_bytes(spec_u64_to_le_bytes(x1)) == spec_u64_from_le_bytes(
                spec_u64_to_le_bytes(x2),
            ));
            assert(x1 == x2);
        },
        (None, None) => {},
        _ => {
            assert(false);
        },
    }
    assert(pos_scope(c1) == pos_scope(c2));
    lemma_enc_str_unique(b, pos_scope(c1), c1.scope, c2.scope);
}

/// Appends a string field to the record being built.
fn push_len_prefixed(out: &mut Vec<u8>, s: &str)
    ensures
        final(out)@ == old(out)@ + enc_str(s@),
        encode_utf8(s@).len() <= u64::MAX,
{
    let b: &[u8] = s.as_bytes();
    let n: u64 = b.len() as u64;
    let mut lenb = u64_to_le_bytes(n);
    out.append(&mut lenb);
    let mut data = slice_to_vec(b);
    out.append(&mut data);
    proof {
        assert(out@ =~= old(out)@ + enc_str(s@));
    }
}

/// Relies on `core::str::from_utf8`, which succeeds exactly on valid UTF-8
/// and yields the characters the bytes encode.
#[verifier::external_body]
fn bytes_to_string(bytes: &[u8]) -> (r: Option<String>)
    ensures
        match r {
            Some(s) => valid_utf8(bytes@) && s@ == decode_utf8(bytes@),
            None => !valid_utf8(bytes@),
        },
{
    match core::str::from_utf8(bytes) {
        Ok(s) => Some(s.to_string()),
        Err(_) => None,
    }
}

/// Reads the 8-byte little-endian number standing at `pos`.
fn read_u64_at(bytes: &[u8], pos: usize) -> (r: Option<(u64, usize)>)
    requires
        pos <= bytes@.len(),
    ensures
        match r {
            Some(v) => v.1 == pos + 8 && v.1 <= bytes@.len() && spec_u64_to_le_bytes(v.0)
                == bytes@.subrange(pos as int, pos + 8),
            None => bytes@.len() < pos + 8,
        },
{
    if bytes.len() - pos >= 8 {
        let s = slice_subrange(bytes, pos, pos + 8);
        let v = u64_from_le_bytes(s);
        proof {
            lemma_auto_spec_u64_to_from_le_bytes();
        }
        Some((v, pos + 8))
    } else {
        None
    }
}

/// Reads the length-prefixed string field standing at `pos`.
fn read_string_at(bytes: &[u8], pos: usize) -> (r: Option<(String, usize)>)
    requires
        pos <= bytes@.len(),
    ensures
        match r {
            Some(v) => {
                &&& pos < v.1 <= bytes@.len()
                &&& encode_utf8(v.0@).len() <= u64::MAX
                &&& prefix_at(bytes@, pos as int, enc_str(v.0@))
                &&& v.1 == pos + enc_str(v.0@).len()
            },
            None => forall|t: Seq<char>|
                encode_utf8(t).len() <= u64::MAX ==> !prefix_at(bytes@, pos as int, #[trigger] enc_str(t)),
        },
{
    proof {
        lemma_auto_spec_u64_to_from_le_bytes();
    }
    let n = bytes.len();
    match read_u64_at(bytes, pos) {
        None => {
            proof {
                assert forall|t: Seq<char>|
                    encode_utf8(t).len() <= u64::MAX implies !prefix_at(
                    bytes@,
                    pos as int,
                    #[trigger] enc_str(t),
                ) by {
                    assert(enc_str(t).len() >= 8);
                }
            }
            None
        },
        Some((len, body_pos)) => {
            if len > (n - body_pos) as u64 {
                proof {
                    assert forall|t: Seq<char>|
                        encode_utf8(t).len() <= u64::MAX implies !prefix_at(
                        bytes@,
                        pos as int,
                        #[trigger] enc_str(t),
                    ) by {
                        if prefix_at(bytes@, pos as int, enc_str(t)) {
                            lemma_prefix_parts(bytes@, pos as int, t);
                            let u = encode_utf8(t);
                            assert(spec_u64_from_le_bytes(spec_u64_to_le_bytes(u.len() as u64))
                                == spec_u64_from_le_bytes(spec_u64_to_le_bytes(len)));
                            assert(u.len() as u64 == len);
                        }
                    }
                }
                None
            } else {
                let blen = len as usize;
                let body = slice_subrange(bytes, body_pos, body_pos + blen);
                match bytes_to_string(body) {
                    Some(s) => {
                        proof {
                            decode_utf8_encode_utf8(body@);
                            assert(encode_utf8(s@) =~= body@);
                            assert(enc_str(s@).len() == 8 + blen);
                            assert(enc_str(s@) =~= bytes@.subrange(pos as int, pos + 8 + blen));
                            assert(bytes@.subrange(pos as int, pos + enc_str(s@).len() as int)
                                == enc_str(s@));
                        }
                        Some((s, body_pos + blen))
                    },
                    None => {
                        proof {
                            assert forall|t: Seq<char>|
                                encode_utf8(t).len() <= u64::MAX implies !prefix_at(
                                bytes@,
                                pos as int,
                                #[trigger] enc_str(t),
                            ) by {
                                if prefix_at(bytes@, pos as int, enc_str(t)) {
                                    lemma_prefix_parts(bytes@, pos as int, t);
                                    let u = encode_utf8(t);
                                    assert(spec_u64_from_le_bytes(spec_u64_to_le_bytes(
                                        u.len() as u64,
                                    )) == spec_u64_from_le_bytes(spec_u64_to_le_bytes(len)));
                                    assert(u.len() as u64 == len);
                                    assert(u =~= body@);
                                    encode_utf8_valid_utf8(t);
                                    assert(valid_utf8(body@));
                                }
                            }
                        }
                        None
                    },
                }
            }
        },
    }
}

impl Credential {
    /// Serializes the credential into its cache record. Always succeeds:
    /// every string held in memory fits behind an 8-byte length.
    pub fn encode(&self) -> (r: Vec<u8>)
        ensures
            encodable(self.deep_view()),
            r@ == spec_encoded(self.deep_view()),
    {
        let mut out: Vec<u8> = Vec::new();
        push_len_prefixed(&mut out, self.access_token.as_str());
        match &self.refresh_token {
            None => out.push(0u8),
            Some(t) => {
                out.push(1u8);
                push_len_prefixed(&mut out, t.as_str());
            },
        }
        match self.expires_at {
            None => out.push(0u8),
            Some(x) => {
                out.push(1u8);
                let mut stamp = u64_to_le_bytes(x);
                out.append(&mut stamp);
            },
        }
        push_len_prefixed(&mut out, self.scope.as_str());
        proof {
            assert(out@ =~= spec_encoded(self.deep_view()));
        }
        out
    }

    /// Deserializes a cache record. Decoding inverts encoding: bytes that
    /// hold a record of some credential yield exactly that credential, and
    /// anything yielded re-encodes to the given bytes; all other bytes are
    /// rejected.
    pub fn decode(bytes: &[u8]) -> (r: Option<Credential>)
        ensures
            match r {
                Some(c) => encodable(c.deep_view()) && bytes@ == spec_encoded(c.deep_view()),
                None => forall|c: CredentialData|
                    encodable(c) ==> bytes@ != #[trigger] spec_encoded(c),
            },
    {
        proof {
            lemma_auto_spec_u64_to_from_le_bytes();
        }
        let n = bytes.len();
        let (access_token, p1) = match read_string_at(bytes, 0) {
            Some(v) => v,
            None => {
                proof {
                    assert forall|c: CredentialData|
                        encodable(c) implies bytes@ != #[trigger] spec_encoded(c) by {
                        if bytes@ == spec_encoded(c) {
                            lemma_encoded_layout(bytes@, c);
                        }
                    }
                }
                return None;
            },
        };
        proof {
            assert forall|c: CredentialData|
                encodable(c) && bytes@ == #[trigger] spec_encoded(c) implies access_token@
                == c.access_token && p1 == pos_refresh(c) by {
                lemma_encoded_layout(bytes@, c);
                lemma_enc_str_unique(bytes@, 0, access_token@, c.access_token);
            }
        }
        if p1 >= n {
            proof {
                assert forall|c: CredentialData|
                    encodable(c) implies bytes@ != #[trigger] spec_encoded(c) by {
                    if bytes@ == spec_encoded(c) {
                        lemma_encoded_layout(bytes@, c);
                    }
                }
            }
            return None;
        }
        let flag_refresh = *slice_index_get(bytes, p1);
        let (refresh_token, p2): (Option<String>, usize) = if flag_refresh == 0 {
            (None, p1 + 1)
        } else if flag_refresh == 1 {
            match read_string_at(bytes, p1 + 1) {
                Some((s, p)) => (Some(s), p),
                None => {
                    proof {
                        assert forall|c: CredentialData|
                            encodable(c) implies bytes@ != #[trigger] spec_encoded(c) by {
                            if bytes@ == spec_encoded(c) {
                                lemma_encoded_layout(bytes@, c);
                                lemma_enc_str_unique(bytes@, 0, access_token@, c.access_token);
                            }
                        }
                    }
                    return None;
                },
            }
        } else {
            proof {
                assert forall|c: CredentialData|
                    encodable(c) implies bytes@ != #[trigger] spec_encoded(c) by {
                    if bytes@ == spec_encoded(c) {
                        lemma_encoded_layout(bytes@, c);
                        lemma_enc_str_unique(bytes@, 0, access_token@, c.access_token);
                    }
                }
            }
            return None;
        };
        proof {
            assert forall|c: CredentialData|
                encodable(c) && bytes@ == #[trigger] spec_encoded(c) implies refresh_token.deep_view()
                == c.refresh_token && p2 == pos_expiry(c) by {
                lemma_encoded_layout(bytes@, c);
                lemma_enc_str_unique(bytes@, 0, access_token@, c.access_token);
                if c.refresh_token is Some && refresh_token is Some {
                    lemma_enc_str_unique(
                        bytes@,
                        p1 + 1,
                        refresh_token->0@,
                        c.refresh_token->0,
                    );
                }
            }
        }
        if p2 >= n {
            proof {
                assert forall|c: CredentialData|
                    encodable(c) implies bytes@ != #[trigger] spec_encoded(c) by {
                    if bytes@ == spec_encoded(c) {
                        lemma_encoded_layout(bytes@, c);
                    }
                }
            }
            return None;
        }
        let flag_expiry = *slice_index_get(bytes, p2);
        let (expires_at, p3): (Option<u64>, usize) = if flag_expiry == 0 {
            (None, p2 + 1)
        } else if flag_expiry == 1 {
            match read_u64_at(bytes, p2 + 1) {
                Some((x, p)) => (Some(x), p),
                None => {
                    proof {
                        lemma_auto_spec_u64_to_from_le_bytes();
                        assert forall|c: CredentialData|
                            encodable(c) implies bytes@ != #[trigger] spec_encoded(c) by {
                            if bytes@ == spec_encoded(c) {
                                lemma_encoded_layout(bytes@, c);
                            }
                        }
                    }
                    return None;
                },
            }
        } else {
            proof {
                assert forall|c: CredentialData|
                    encodable(c) implies bytes@ != #[trigger] spec_encoded(c) by {
                    if bytes@ == spec_encoded(c) {
                        lemma_encoded_layout(bytes@, c);
                    }
                }
            }
            return None;
        };
        proof {
            lemma_auto_spec_u64_to_from_le_bytes();
            assert forall|c: CredentialData|
                encodable(c) && bytes@ == #[trigger] spec_encoded(c) implies expires_at
                == c.expires_at && p3 == pos_scope(c) by {
                lemma_encoded_layout(bytes@, c);
            }
        }
        let (scope, p4) = match read_string_at(bytes, p3) {
            Some(v) => v,
            None => {
                proof {
                    assert forall|c: CredentialData|
                        encodable(c) implies bytes@ != #[trigger] spec_encoded(c) by {
                        if bytes@ == spec_encoded(c) {
                            lemma_encoded_layout(bytes@, c);
                        }
                    }
                }
                return None;
            },
        };
        if p4 != n {
            proof {
                assert forall|c: CredentialData|
                    encodable(c) implies bytes@ != #[trigger] spec_encoded(c) by {
                    if bytes@ == spec_encoded(c) {
                        lemma_encoded_layout(bytes@, c);
                        lemma_enc_str_unique(bytes@, p3 as int, scope@, c.scope);
                    }
                }
            }
            return None;
        }
        let r = Credential { access_token, refresh_token, expires_at, scope };
        proof {
            assert(bytes@ =~= spec_encoded(r.deep_view()));
        }
        Some(r)
    }
}

} // verus!

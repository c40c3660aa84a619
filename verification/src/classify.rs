//! Classification of connection errors into fatal and recoverable ones.
//!
//! Retrying cannot fix bad credentials, so an error whose message carries
//! authentication or authorization vocabulary is fatal and ends the engine
//! at once; every other error is recoverable and enters backoff.  The
//! message is ASCII-lowercased and searched for the markers.

use vstd::prelude::*;

verus! {

use vstd::string::StringSliceAdditionalSpecFns;

/// ASCII lowercase of one byte; bytes outside `A ..= Z` are unchanged.
pub open spec fn spec_lower_byte(b: u8) -> u8 {
    if 65 <= b && b <= 90 {
        (b + 32) as u8
    } else {
        b
    }
}

/// ASCII lowercase of a byte string.
pub open spec fn spec_lower(s: Seq<u8>) -> Seq<u8> {
    s.map_values(|b: u8| spec_lower_byte(b))
}

/// `needle` occurs in `hay` starting at position `i`.
pub open spec fn spec_match_at(hay: Seq<u8>, needle: Seq<u8>, i: int) -> bool {
    &&& 0 <= i
    &&& i + needle.len() <= hay.len()
    &&& forall|j: int| 0 <= j < needle.len() ==> hay[i + j] == needle[j]
}

/// `needle` occurs somewhere in `hay`.
pub open spec fn spec_contains(hay: Seq<u8>, needle: Seq<u8>) -> bool {
    exists|i: int| spec_match_at(hay, needle, i)
}

/// The bytes of `"auth"`.
pub open spec fn marker_auth() -> Seq<u8> {
    seq![97u8, 117u8, 116u8, 104u8]
}

/// The bytes of `"invalid"`.
pub open spec fn marker_invalid() -> Seq<u8> {
    seq![105u8, 110u8, 118u8, 97u8, 108u8, 105u8, 100u8]
}

/// The bytes of `"api key"`.
pub open spec fn marker_api_key() -> Seq<u8> {
    seq![97u8, 112u8, 105u8, 32u8, 107u8, 101u8, 121u8]
}

/// The bytes of `"forbidden"`.
pub open spec fn marker_forbidden() -> Seq<u8> {
    seq![102u8, 111u8, 114u8, 98u8, 105u8, 100u8, 100u8, 101u8, 110u8]
}

/// The bytes of `"401"`.
pub open spec fn marker_401() -> Seq<u8> {
    seq![52u8, 48u8, 49u8]
}

/// The bytes of `"403"`.
pub open spec fn marker_403() -> Seq<u8> {
    seq![52u8, 48u8, 51u8]
}

/// An error is fatal exactly when its message, ASCII-lowercased, mentions
/// authentication or authorization: `auth`, `invalid`, `api key`,
/// `forbidden`, or the HTTP status codes `401` and `403`.
pub open spec fn spec_is_fatal(msg: Seq<u8>) -> bool {
    let low = spec_lower(msg);
    ||| spec_contains(low, marker_auth())
    ||| spec_contains(low, marker_invalid())
    ||| spec_contains(low, marker_api_key())
    ||| spec_contains(low, marker_forbidden())
    ||| spec_contains(low, marker_401())
    ||| spec_contains(low, marker_403())
}

/// The bytes of `"unauthorized"`.
pub open spec fn marker_unauthorized() -> Seq<u8> {
    seq![117u8, 110u8, 97u8, 117u8, 116u8, 104u8, 111u8, 114u8, 105u8, 122u8, 101u8, 100u8]
}

/// A message that mentions `unauthorized` is always classified fatal: the
/// marker `auth` sits inside it, and lowercasing moves neither.
pub proof fn lemma_unauthorized_is_fatal(msg: Seq<u8>)
    requires
        spec_contains(msg, marker_unauthorized()),
    ensures
        spec_is_fatal(msg),
{
    let i = choose|i: int| spec_match_at(msg, marker_unauthorized(), i);
    assert(spec_match_at(spec_lower(msg), marker_auth(), i + 2)) by {
        assert forall|j: int| 0 <= j < marker_auth().len() implies spec_lower(msg)[i + 2 + j]
            == marker_auth()[j] by {
            assert(msg[i + (2 + j)] == marker_unauthorized()[2 + j]);
            assert(spec_lower(msg)[i + 2 + j] == spec_lower_byte(msg[i + 2 + j]));
        }
    };
}

/// ASCII-lowercases a byte string.
pub fn lower_bytes(s: &[u8]) -> (r: Vec<u8>)
    ensures
        r@ == spec_lower(s@),
{
    let mut r: Vec<u8> = Vec::new();
    let mut i: usize = 0;
    while i < s.len()
        invariant
            i <= s@.len(),
            r@.len() == i,
            forall|k: int| 0 <= k < i ==> r@[k] == spec_lower_byte(s@[k]),
        decreases s@.len() - i,
    {
        let b = s[i];
        if 65 <= b && b <= 90 {
            r.push(b + 32);
        } else {
            r.push(b);
        }
        i = i + 1;
    }
    proof {
        assert(r@ =~= spec_lower(s@));
    }
    r
}

/// Naive substring search over bytes.
pub fn contains_bytes(hay: &[u8], needle: &[u8]) -> (r: bool)
    ensures
        r == spec_contains(hay@, needle@),
{
    if needle.len() == 0 {
        proof {
            assert(spec_match_at(hay@, needle@, 0));
        }
        return true;
    }
    if needle.len() > hay.len() {
        return false;
    }
    let bound = hay.len() - needle.len();
    let mut i: usize = 0;
    while i <= bound
        invariant
            hay@.len() <= usize::MAX,
            needle@.len() >= 1,
            needle@.len() <= hay@.len(),
            bound == hay@.len() - needle@.len(),
            i <= bound + 1,
            forall|k: int| 0 <= k < i ==> !spec_match_at(hay@, needle@, k),
        decreases hay@.len() - i,
    {
        let mut j: usize = 0;
        let mut ok = true;
        while ok && j < needle.len()
            invariant
                hay@.len() <= usize::MAX,
                i + needle@.len() <= hay@.len(),
                j <= needle@.len(),
                ok ==> forall|l: int| 0 <= l < j ==> hay@[i + l] == needle@[l],
                !ok ==> !spec_match_at(hay@, needle@, i as int),
            decreases needle@.len() - j + (if ok { 1int } else { 0int }),
        {
            if hay[i + j] != needle[j] {
                ok = false;
            } else {
                j = j + 1;
            }
        }
        if ok {
            proof {
                assert(spec_match_at(hay@, needle@, i as int));
            }
            return true;
        }
        i = i + 1;
    }
    proof {
        assert forall|k: int| #[trigger] spec_match_at(hay@, needle@, k) implies false by {
            assert(0 <= k <= bound);
        }
    }
    false
}

/// Decides whether an error message is fatal: true exactly when the
/// ASCII-lowercased message contains one of the authentication markers.
pub fn is_fatal_error(msg: &str) -> (r: bool)
    ensures
        r == spec_is_fatal(msg.spec_bytes()),
{
    let bytes = msg.as_bytes();
    let low = lower_bytes(bytes);
    let auth: [u8; 4] = [97, 117, 116, 104];
    let invalid: [u8; 7] = [105, 110, 118, 97, 108, 105, 100];
    let api_key: [u8; 7] = [97, 112, 105, 32, 107, 101, 121];
    let forbidden: [u8; 9] = [102, 111, 114, 98, 105, 100, 100, 101, 110];
    let c401: [u8; 3] = [52, 48, 49];
    let c403: [u8; 3] = [52, 48, 51];
    proof {
        assert(auth@ =~= marker_auth());
        assert(invalid@ =~= marker_invalid());
        assert(api_key@ =~= marker_api_key());
        assert(forbidden@ =~= marker_forbidden());
        assert(c401@ =~= marker_401());
        assert(c403@ =~= marker_403());
    }
    contains_bytes(low.as_slice(), auth.as_slice())
        || contains_bytes(low.as_slice(), invalid.as_slice())
        || contains_bytes(low.as_slice(), api_key.as_slice())
        || contains_bytes(low.as_slice(), forbidden.as_slice())
        || contains_bytes(low.as_slice(), c401.as_slice())
        || contains_bytes(low.as_slice(), c403.as_slice())
}

} // verus!

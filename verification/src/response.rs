//! Saved HTTP responses.
//!
//! The idempotency store persists, per `(subject, key)`, the exact response
//! that was first produced, so that every retry can be answered
//! byte-identically: the numeric status, the ordered header pairs (a text
//! name and a byte-sequence value) and the body bytes.

use vstd::prelude::*;

verus! {

/// One response header: a name and a byte-sequence value.
pub struct HeaderPair {
    pub name: String,
    pub value: Vec<u8>,
}

/// Mathematical model of a header pair.
#[verifier::ext_equal]
pub ghost struct HeaderModel {
    pub name: Seq<char>,
    pub value: Seq<u8>,
}

impl View for HeaderPair {
    type V = HeaderModel;

    open spec fn view(&self) -> HeaderModel {
        HeaderModel { name: self.name@, value: self.value@ }
    }
}

/// A response as the idempotency store persists it: status, ordered
/// headers, body bytes.
pub struct SavedResponse {
    pub status: u16,
    pub headers: Vec<HeaderPair>,
    pub body: Vec<u8>,
}

/// Mathematical model of a saved response.
#[verifier::ext_equal]
pub ghost struct ResponseModel {
    pub status: u16,
    pub headers: Seq<HeaderModel>,
    pub body: Seq<u8>,
}

/// The models of a header sequence, in order.
pub open spec fn headers_model(hs: Seq<HeaderPair>) -> Seq<HeaderModel> {
    hs.map_values(|h: HeaderPair| h@)
}

impl View for SavedResponse {
    type V = ResponseModel;

    open spec fn view(&self) -> ResponseModel {
        ResponseModel {
            status: self.status,
            headers: headers_model(self.headers@),
            body: self.body@,
        }
    }
}

/// The model of a redirect-style acknowledgment: status `303 See Other`,
/// one `Location` header carrying the target in UTF-8, an empty body.
pub open spec fn see_other_model(location: Seq<char>) -> ResponseModel {
    ResponseModel {
        status: 303,
        headers: seq![
            HeaderModel { name: "Location"@, value: vstd::utf8::encode_utf8(location) },
        ],
        body: Seq::empty(),
    }
}

/// Builds a `303 See Other` redirect to `location`.
pub fn see_other(location: &str) -> (r: SavedResponse)
    ensures
        r@ == see_other_model(location@),
{
    let mut headers: Vec<HeaderPair> = Vec::new();
    let name: String = "Location".to_owned();
    let value: Vec<u8> = location.as_bytes_vec();
    headers.push(HeaderPair { name, value });
    let r = SavedResponse { status: 303, headers, body: Vec::new() };
    proof {
        assert(r@.headers =~= see_other_model(location@).headers);
        assert(r@ =~= see_other_model(location@));
    }
    r
}

/// Copies a byte vector.
fn clone_bytes(v: &Vec<u8>) -> (r: Vec<u8>)
    ensures
        r@ == v@,
{
    let mut r: Vec<u8> = Vec::new();
    let mut i: usize = 0;
    while i < v.len()
        invariant
            i <= v@.len(),
            r@ =~= v@.take(i as int),
        decreases v@.len() - i,
    {
        r.push(v[i]);
        i += 1;
    }
    proof {
        assert(r@ =~= v@);
    }
    r
}

impl SavedResponse {
    /// An exact copy, so that the stored response can both stay in the
    /// store and be handed to the caller.
    pub fn duplicate(&self) -> (r: SavedResponse)
        ensures
            r@ == self@,
    {
        let mut headers: Vec<HeaderPair> = Vec::new();
        let mut i: usize = 0;
        while i < self.headers.len()
            invariant
                i <= self.headers@.len(),
                headers@.len() == i,
                forall|j: int| 0 <= j < i ==> headers@[j]@ == self.headers@[j]@,
            decreases self.headers@.len() - i,
        {
            let h = &self.headers[i];
            let copy = HeaderPair { name: h.name.clone(), value: clone_bytes(&h.value) };
            proof {
                assert(copy@ == self.headers@[i as int]@);
            }
            headers.push(copy);
            i += 1;
        }
        let r = SavedResponse {
            status: self.status,
            headers,
            body: clone_bytes(&self.body),
        };
        proof {
            assert forall|j: int| 0 <= j < r@.headers.len() implies r@.headers[j]
                == self@.headers[j] by {
                assert(r.headers@[j]@ == self.headers@[j]@);
            }
            assert(r@.headers =~= self@.headers);
            assert(r@ =~= self@);
        }
        r
    }
}

} // verus!

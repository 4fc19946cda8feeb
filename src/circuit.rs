use vstd::prelude::*;

use base64::engine::general_purpose::STANDARD;
use base64::Engine;

use crate::error::{ErrorKind, ZkvcError};
use crate::field::{field_modulus, FieldValue};
use crate::utils::{
    decimal_of, decoded_value, field_from_string, field_to_string, input_error,
    lemma_codec_round_trip_value,
};

verus! {

/// What base64 with the standard alphabet and padding writes for `b`.
pub uninterp spec fn base64_of(b: Seq<u8>) -> Seq<char>;

/// Relies on `Engine::encode` of base64's `STANDARD` engine, which panics only
/// when the encoded length overflows `usize`.
#[verifier::external_body]
fn base64_encode(b: &[u8]) -> (r: String)
    requires
        b@.len() <= usize::MAX / 2,
    ensures
        r@ == base64_of(b@),
{
    STANDARD.encode(b)
}

/// The values of a sequence of field elements, in order.
pub open spec fn values_of(s: Seq<FieldValue>) -> Seq<nat> {
    s.map_values(|v: FieldValue| v.value())
}

/// The ordered record of the public values that a computation declares.
/// Proving and verifying agree on a proof's public inputs only through this
/// order: a value is known by its position, never by a name.
pub struct PublicInputLog {
    values: Vec<FieldValue>,
}

impl PublicInputLog {
    /// The public values recorded so far, in order.
    pub closed spec fn view(&self) -> Seq<nat> {
        values_of(self.values@)
    }

    pub fn new() -> (r: PublicInputLog)
        ensures
            r.view() == Seq::<nat>::empty(),
    {
        let r = PublicInputLog { values: Vec::new() };
        assert(r.view() =~= Seq::<nat>::empty());
        r
    }

    /// Appends `value` after every value recorded before it.
    pub fn record(&mut self, value: FieldValue)
        ensures
            final(self).view() == old(self).view().push(value.value()),
    {
        self.values.push(value);
        proof {
            assert(self.view() =~= old(self).view().push(value.value()));
        }
    }

    pub fn len(&self) -> (r: usize)
        ensures
            r == self.view().len(),
    {
        self.values.len()
    }

    /// Ends the recording and hands over the values in declaration order.
    pub fn into_values(self) -> (r: Vec<FieldValue>)
        ensures
            values_of(r@) == self.view(),
    {
        self.values
    }
}

/// A proof, encoded in base64.
#[derive(Debug)]
pub struct Base64Proof(pub String);

/// What a client sends: its identity, the encoded proof and the encoded
/// public inputs in declaration order.
#[derive(Debug)]
pub struct ProofRequest {
    pub client_id: String,
    pub proof: Base64Proof,
    pub public_inputs: Vec<String>,
}

/// The encoded form of each public value, in order.
pub open spec fn encoded_inputs(values: Seq<nat>) -> Seq<Seq<char>> {
    values.map_values(|n: nat| decimal_of(n))
}

pub open spec fn strings_view(v: Seq<String>) -> Seq<Seq<char>> {
    v.map_values(|s: String| s@)
}

impl ProofRequest {
    /// Bundles a serialized proof and the public log into a request.
    pub fn build(client_id: &str, proof_bytes: &[u8], public_inputs: &Vec<FieldValue>) -> (r: ProofRequest)
        requires
            proof_bytes@.len() <= usize::MAX / 2,
        ensures
            r.client_id@ == client_id@,
            r.proof.0@ == base64_of(proof_bytes@),
            strings_view(r.public_inputs@) == encoded_inputs(values_of(public_inputs@)),
    {
        let mut encoded: Vec<String> = Vec::new();
        let mut i: usize = 0;
        while i < public_inputs.len()
            invariant
                i <= public_inputs@.len(),
                strings_view(encoded@) == encoded_inputs(values_of(public_inputs@.subrange(0, i as int))),
            decreases public_inputs.len() - i,
        {
            let s = field_to_string(&public_inputs[i]);
            let ghost prev = encoded@;
            let ghost done = public_inputs@.subrange(0, i as int);
            let ghost next = public_inputs@.subrange(0, i + 1);
            proof {
                assert(next =~= done.push(public_inputs@[i as int]));
                assert(values_of(next) =~= values_of(done).push(public_inputs@[i as int].value()));
                assert(encoded_inputs(values_of(next)) =~= encoded_inputs(values_of(done)).push(s@));
            }
            encoded.push(s);
            i = i + 1;
            proof {
                assert(strings_view(encoded@) =~= strings_view(prev).push(s@));
            }
        }
        proof {
            assert(public_inputs@.subrange(0, i as int) =~= public_inputs@);
        }
        ProofRequest {
            client_id: client_id.to_owned(),
            proof: Base64Proof(base64_encode(proof_bytes)),
            public_inputs: encoded,
        }
    }
}

/// Whether every transported string decodes to a field element.
pub open spec fn all_decodable(s: Seq<Seq<char>>) -> bool {
    forall|i: int| 0 <= i < s.len() ==> (#[trigger] decoded_value(s[i])) is Some
}

/// The values that the transported strings decode to, position by position.
pub open spec fn decoded_inputs(s: Seq<Seq<char>>) -> Option<Seq<nat>> {
    if all_decodable(s) {
        Some(s.map_values(|x: Seq<char>| decoded_value(x)->0))
    } else {
        None
    }
}

/// The message of the first string that does not decode.
pub open spec fn decode_error(s: Seq<Seq<char>>) -> Seq<char>
    decreases s.len(),
{
    if s.len() == 0 {
        Seq::empty()
    } else if decoded_value(s[0]) is None {
        input_error(s[0])
    } else {
        decode_error(s.skip(1))
    }
}

/// Decodes each public input in order; the first string that is not an
/// encoded field element makes the whole request an encoding error.
pub fn decode_public_inputs(inputs: &Vec<String>) -> (r: Result<Vec<FieldValue>, ZkvcError>)
    ensures
        r is Ok <==> decoded_inputs(strings_view(inputs@)) is Some,
        r matches Ok(v) ==> Some(values_of(v@)) == decoded_inputs(strings_view(inputs@)),
        r matches Err(e) ==> e.kind == ErrorKind::EncodingError && e.message@ == decode_error(strings_view(inputs@)),
{
    let ghost sv = strings_view(inputs@);
    let mut out: Vec<FieldValue> = Vec::new();
    let mut i: usize = 0;
    proof {
        assert(sv.skip(0) =~= sv);
    }
    while i < inputs.len()
        invariant
            sv == strings_view(inputs@),
            decode_error(sv) == decode_error(sv.skip(i as int)),
            i <= inputs@.len(),
            out@.len() == i,
            forall|k: int| 0 <= k < i ==> decoded_value(#[trigger] inputs@[k]@) == Some(out@[k].value()),
        decreases inputs.len() - i,
    {
        proof {
            assert(sv.skip(i as int)[0] == inputs@[i as int]@);
        }
        match field_from_string(inputs[i].as_str()) {
            Ok(v) => {
                out.push(v);
            },
            Err(e) => {
                proof {
                    assert(decoded_value(strings_view(inputs@)[i as int]) is None);
                }
                return Err(e);
            },
        }
        proof {
            assert(sv.skip(i as int).skip(1) =~= sv.skip(i + 1));
        }
        i = i + 1;
    }
    proof {
        let sv = strings_view(inputs@);
        assert forall|k: int| 0 <= k < sv.len() implies (#[trigger] decoded_value(sv[k])) is Some by {
            assert(sv[k] == inputs@[k]@);
        }
        assert(values_of(out@) =~= sv.map_values(|x: Seq<char>| decoded_value(x)->0));
    }
    Ok(out)
}

/// The public inputs that a verifier reconstructs from a request are the
/// values that the prover logged: same length, same value at every position.
pub proof fn lemma_public_input_order(values: Seq<nat>)
    requires
        forall|i: int| 0 <= i < values.len() ==> #[trigger] values[i] < field_modulus(),
    ensures
        decoded_inputs(encoded_inputs(values)) == Some(values),
{
    let enc = encoded_inputs(values);
    assert forall|i: int| 0 <= i < enc.len() implies (#[trigger] decoded_value(enc[i])) == Some(values[i]) by {
        lemma_codec_round_trip_value(values[i]);
    }
    assert(enc.map_values(|x: Seq<char>| decoded_value(x)->0) =~= values);
}

} // verus!

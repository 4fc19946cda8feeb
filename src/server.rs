use vstd::prelude::*;

use ark_bls12_381::{Bls12_381, Fr};
use ark_groth16::{Groth16, Proof, VerifyingKey};
use ark_relations::r1cs::SynthesisError;
use ark_serialize::{CanonicalDeserialize, SerializationError};
use ark_snark::SNARK;
use base64::engine::general_purpose::STANDARD;
use base64::{DecodeError, Engine};

use crate::circuit::{
    base64_of, decode_error, decode_public_inputs, decoded_inputs, strings_view, values_of,
    Base64Proof, ProofRequest,
};
use crate::error::{ErrorKind, ZkvcError};
use crate::field::FieldValue;
use crate::response::VerificationResponse;

verus! {

#[verifier::external_type_specification]
#[verifier::external_body]
pub struct ExSynthesisError(SynthesisError);

#[verifier::external_type_specification]
#[verifier::external_body]
pub struct ExSerializationError(SerializationError);

#[verifier::external_type_specification]
#[verifier::external_body]
pub struct ExDecodeError(DecodeError);

/// Where the server listens and where its verifying key is kept.
#[derive(Debug)]
pub struct ServerConfig {
    pub listen_address: String,
    pub verification_key_path: String,
}

/// Whether ark-serialize's checked `deserialize_uncompressed` reads a Groth16
/// BLS12-381 verifying key from these bytes.
pub uninterp spec fn vk_decodes(b: Seq<u8>) -> bool;

/// Whether ark-serialize's checked `deserialize_uncompressed` reads a Groth16
/// BLS12-381 proof from these bytes.
pub uninterp spec fn proof_decodes(b: Seq<u8>) -> bool;

/// What ark-snark's `SNARK::verify` for `Groth16<Bls12_381>` answers for the
/// key read from `vk`, the public inputs `inputs` and the proof read from
/// `proof`: `Some(holds)`, or `None` when it fails.
pub uninterp spec fn groth16_verdict(vk: Seq<u8>, inputs: Seq<nat>, proof: Seq<u8>) -> Option<bool>;

/// What base64's `STANDARD` engine decodes from `s`: `None` where `s` is not
/// padded standard-alphabet base64 in canonical form.
pub uninterp spec fn base64_decoded(s: Seq<char>) -> Option<Seq<u8>>;

/// The backend's deserialized verifying key.
#[verifier::external_body]
struct VkHandle {
    vk: VerifyingKey<Bls12_381>,
}

/// The backend's deserialized proof.
#[verifier::external_body]
struct ProofHandle {
    proof: Proof<Bls12_381>,
}

/// A Groth16 verifying key over BLS12-381, loaded once and then only read,
/// with the bytes it was read from.
pub struct VerificationKey {
    bytes: Vec<u8>,
    handle: VkHandle,
}

/// A Groth16 proof over BLS12-381, with the bytes it was read from.
struct GrothProof {
    bytes: Vec<u8>,
    handle: ProofHandle,
}

/// Relies on ark-serialize's `CanonicalDeserialize::deserialize_uncompressed`
/// for ark-groth16's `VerifyingKey`, which checks that every point lies on the
/// curve and in its subgroup: bytes that do not hold such a key are an error.
#[verifier::external_body]
fn verifying_key_from_bytes(b: &[u8]) -> (r: Result<VkHandle, SerializationError>)
    ensures
        r is Ok <==> vk_decodes(b@),
{
    VerifyingKey::deserialize_uncompressed(b).map(|vk| VkHandle { vk })
}

/// Relies on base64's `Engine::decode` of the `STANDARD` engine, which takes
/// only canonical padded input: what it decodes encodes back to `s`.
#[verifier::external_body]
fn base64_decode(s: &str) -> (r: Result<Vec<u8>, DecodeError>)
    ensures
        r is Ok <==> base64_decoded(s@) is Some,
        r is Ok ==> base64_decoded(s@) == Some(r->Ok_0@),
        r is Ok ==> base64_of(r->Ok_0@) == s@,
{
    STANDARD.decode(s)
}

/// Relies on ark-serialize's `CanonicalDeserialize::deserialize_uncompressed`
/// for ark-groth16's `Proof`: bytes that do not hold a proof are an error.
#[verifier::external_body]
fn proof_from_bytes(b: &[u8]) -> (r: Result<ProofHandle, SerializationError>)
    ensures
        r is Ok <==> proof_decodes(b@),
{
    Proof::deserialize_uncompressed(b).map(|proof| ProofHandle { proof })
}

/// Relies on ark-snark's `SNARK::verify` for `Groth16<Bls12_381>`: whether the
/// proof holds for the backend elements of `inputs`, or an error when their
/// number does not fit the key.
#[verifier::external_body]
fn groth16_verify(vk: &VerificationKey, inputs: &[FieldValue], proof: &GrothProof) -> (r: Result<bool, SynthesisError>)
    ensures
        r is Ok <==> groth16_verdict(vk.bytes@, values_of(inputs@), proof.bytes@) is Some,
        r is Ok ==> groth16_verdict(vk.bytes@, values_of(inputs@), proof.bytes@) == Some(r->Ok_0),
{
    let elems: Vec<Fr> = inputs.iter().map(|v| v.to_fr()).collect();
    Groth16::<Bls12_381>::verify(&vk.handle.vk, &elems, &proof.handle.proof)
}

impl VerificationKey {
    /// The bytes the key was read from.
    pub closed spec fn bytes(&self) -> Seq<u8> {
        self.bytes@
    }

    /// Loads a key from its canonical bytes; bytes that do not hold a key
    /// are a key-format error.
    pub fn from_bytes(b: Vec<u8>) -> (r: Result<VerificationKey, ZkvcError>)
        ensures
            r is Ok <==> vk_decodes(b@),
            r matches Ok(k) ==> k.bytes() == b@,
            r matches Err(e) ==> e.kind == ErrorKind::KeyFormat,
    {
        match verifying_key_from_bytes(b.as_slice()) {
            Ok(handle) => Ok(VerificationKey { bytes: b, handle }),
            Err(_) => Err(ZkvcError::new(ErrorKind::KeyFormat, "verifying key does not deserialize")),
        }
    }

    /// Loads a key from what was read at its location: nothing read is a
    /// missing key, bytes that do not hold a key are a key-format error.
    pub fn load(stored: Option<Vec<u8>>) -> (r: Result<VerificationKey, ZkvcError>)
        ensures
            stored is None ==> (r matches Err(e) && e.kind == ErrorKind::KeyMissing),
            stored matches Some(b) ==> (r is Ok <==> vk_decodes(b@)),
            stored matches Some(b) ==> (r matches Ok(k) ==> k.bytes() == b@),
            stored is Some ==> (r matches Err(e) ==> e.kind == ErrorKind::KeyFormat),
    {
        let b = stored_key_bytes(stored)?;
        VerificationKey::from_bytes(b)
    }
}

/// The bytes read at a key's location; nothing read is a missing key.
pub fn stored_key_bytes(stored: Option<Vec<u8>>) -> (r: Result<Vec<u8>, ZkvcError>)
    ensures
        stored is None ==> (r matches Err(e) && e.kind == ErrorKind::KeyMissing),
        stored matches Some(b) ==> (r matches Ok(c) && c@ == b@),
{
    match stored {
        None => Err(ZkvcError::new(ErrorKind::KeyMissing, "key file is missing")),
        Some(b) => Ok(b),
    }
}

/// What checking a base64 proof against decoded public inputs comes to:
/// a proof that is not base64 is an encoding error; one that is not a proof,
/// or that the verifier fails on, is a backend error; else the verifier's
/// answer.
pub open spec fn proof_verdict(vk: Seq<u8>, proof: Seq<char>, values: Seq<nat>) -> Result<bool, ErrorKind> {
    match base64_decoded(proof) {
        None => Err(ErrorKind::EncodingError),
        Some(pb) => if !proof_decodes(pb) {
            Err(ErrorKind::BackendError)
        } else {
            match groth16_verdict(vk, values, pb) {
                Some(b) => Ok(b),
                None => Err(ErrorKind::BackendError),
            }
        },
    }
}

/// What checking a request comes to: public inputs that do not decode are an
/// encoding error, decided before the proof is looked at.
pub open spec fn request_verdict(vk: Seq<u8>, proof: Seq<char>, inputs: Seq<Seq<char>>) -> Result<bool, ErrorKind> {
    match decoded_inputs(inputs) {
        None => Err(ErrorKind::EncodingError),
        Some(values) => proof_verdict(vk, proof, values),
    }
}

/// Whether `r` holds the boolean of `v`, or an error whose kind `v` names.
pub open spec fn agrees(r: Result<bool, ZkvcError>, v: Result<bool, ErrorKind>) -> bool {
    match r {
        Ok(b) => v == Ok::<bool, ErrorKind>(b),
        Err(e) => v == Err::<bool, ErrorKind>(e.kind),
    }
}

/// The reason given for a proof that verification rejects.
pub open spec fn invalid_reason() -> Seq<char> {
    "proof verification failed"@
}

/// The proof-checking server: a verifying key and three optional reactions,
/// to valid proofs, to invalid proofs, and to requests that cannot be judged.
pub struct ServerApp<VP, IP, EP> {
    config: ServerConfig,
    verification_key: VerificationKey,
    valid_proof_handler: Option<VP>,
    invalid_proof_handler: Option<IP>,
    error_handler: Option<EP>,
}

/// How a request ended: the proof held, the proof was false, or the request
/// ended in an error of the given kind.
#[derive(Clone, Copy, Debug, PartialEq, Eq, Structural)]
pub enum Outcome {
    Valid,
    Invalid,
    Error(ErrorKind),
}

/// What the server answers, with the outcome it reached, the HTTP status,
/// and whether the request got as far as the verifier.
#[derive(Debug)]
pub struct Reply {
    pub outcome: Outcome,
    pub status: u16,
    pub response: VerificationResponse,
    pub reached_verifier: bool,
}

/// The HTTP status that answers an outcome.
pub open spec fn status_of(o: Outcome) -> u16 {
    match o {
        Outcome::Valid => 200,
        Outcome::Invalid => 400,
        Outcome::Error(_) => 500,
    }
}

/// The answer to a request, given what verification said and what the
/// handler that it selected returned. A failing error handler changes nothing;
/// a failing valid or invalid handler turns the answer into an error.
pub open spec fn reply_spec(
    verdict: Result<bool, ZkvcError>,
    handled: Result<(), String>,
    inputs: Seq<Seq<char>>,
    reached_verifier: bool,
    r: Reply,
) -> bool {
    &&& r.status == status_of(r.outcome)
    &&& r.reached_verifier == reached_verifier
    &&& match verdict {
        Err(e) => r.outcome == Outcome::Error(e.kind) && (r.response matches VerificationResponse::Error { error } && error@ == e.message@),
        Ok(valid) => match handled {
            Err(h) => r.outcome == Outcome::Error(ErrorKind::HandlerError) && (r.response matches VerificationResponse::Error { error } && error@ == h@),
            Ok(_) => if valid {
                r.outcome == Outcome::Valid && (r.response matches VerificationResponse::Valid { result: Some(v) } && strings_view(v@) == inputs)
            } else {
                r.outcome == Outcome::Invalid && (r.response matches VerificationResponse::Invalid { reason } && reason@ == invalid_reason())
            },
        },
    }
}

fn copy_strings(v: &Vec<String>) -> (r: Vec<String>)
    ensures
        strings_view(r@) == strings_view(v@),
{
    let mut out: Vec<String> = Vec::new();
    let mut i: usize = 0;
    while i < v.len()
        invariant
            i <= v@.len(),
            strings_view(out@) == strings_view(v@.subrange(0, i as int)),
        decreases v.len() - i,
    {
        let ghost prev = out@;
        out.push(v[i].clone());
        proof {
            assert(strings_view(v@.subrange(0, i + 1)) =~= strings_view(v@.subrange(0, i as int)).push(v@[i as int]@));
            assert(strings_view(out@) =~= strings_view(prev).push(v@[i as int]@));
        }
        i = i + 1;
    }
    proof {
        assert(v@.subrange(0, i as int) =~= v@);
    }
    out
}

/// Builds the answer from the verdict of verification and the result of the
/// handler that the verdict selected.
pub fn reply(
    verdict: Result<bool, ZkvcError>,
    handled: Result<(), String>,
    public_inputs: &Vec<String>,
    reached_verifier: bool,
) -> (r: Reply)
    ensures
        reply_spec(verdict, handled, strings_view(public_inputs@), reached_verifier, r),
{
    match verdict {
        Err(e) => {
            let error = e.message;
            Reply { outcome: Outcome::Error(e.kind), status: 500, response: VerificationResponse::Error { error }, reached_verifier }
        },
        Ok(valid) => match handled {
            Err(h) => Reply {
                outcome: Outcome::Error(ErrorKind::HandlerError),
                status: 500,
                response: VerificationResponse::Error { error: h },
                reached_verifier,
            },
            Ok(_) => if valid {
                Reply {
                    outcome: Outcome::Valid,
                    status: 200,
                    response: VerificationResponse::Valid { result: Some(copy_strings(public_inputs)) },
                    reached_verifier,
                }
            } else {
                let reason = "proof verification failed".to_owned();
                proof {
                    reveal_strlit("proof verification failed");
                }
                Reply { outcome: Outcome::Invalid, status: 400, response: VerificationResponse::Invalid { reason }, reached_verifier }
            },
        },
    }
}

/// Checks a proof against decoded public inputs, which reach the verifier
/// as they are, in order.
pub fn verify_decoded(vk: &VerificationKey, proof: &Base64Proof, inputs: &Vec<FieldValue>) -> (r: Result<bool, ZkvcError>)
    ensures
        agrees(r, proof_verdict(vk.bytes(), proof.0@, values_of(inputs@))),
{
    let proof_bytes = match base64_decode(proof.0.as_str()) {
        Ok(b) => b,
        Err(_) => {
            return Err(ZkvcError::new(ErrorKind::EncodingError, "proof is not valid base64"));
        },
    };
    let handle = match proof_from_bytes(proof_bytes.as_slice()) {
        Ok(p) => p,
        Err(_) => {
            return Err(ZkvcError::new(ErrorKind::BackendError, "proof bytes do not deserialize"));
        },
    };
    let proof = GrothProof { bytes: proof_bytes, handle };
    match groth16_verify(vk, inputs.as_slice(), &proof) {
        Ok(valid) => Ok(valid),
        Err(_) => Err(ZkvcError::new(ErrorKind::BackendError, "verifier rejected the key or the inputs")),
    }
}

/// Decodes a request's public inputs, in order, and checks its proof against
/// them; inputs that do not decode are an encoding error and reach no verifier.
pub fn verify(request: &ProofRequest, vk: &VerificationKey) -> (r: Result<bool, ZkvcError>)
    ensures
        agrees(r, request_verdict(vk.bytes(), request.proof.0@, strings_view(request.public_inputs@))),
{
    let inputs = decode_public_inputs(&request.public_inputs)?;
    verify_decoded(vk, &request.proof, &inputs)
}

impl<VP, IP, EP> ServerApp<VP, IP, EP> where
    VP: Fn(&str, &[FieldValue]) -> Result<(), String>,
    IP: Fn(&str, &str) -> Result<(), String>,
    EP: Fn(&str, &ZkvcError) -> Result<(), String>,
 {
    /// The address that the server listens on.
    pub closed spec fn listen_address(&self) -> Seq<char> {
        self.config.listen_address@
    }

    /// The bytes of the verifying key.
    pub closed spec fn key_bytes(&self) -> Seq<u8> {
        self.verification_key.bytes()
    }

    pub closed spec fn on_valid(&self) -> Option<VP> {
        self.valid_proof_handler
    }

    pub closed spec fn on_invalid(&self) -> Option<IP> {
        self.invalid_proof_handler
    }

    pub closed spec fn on_error(&self) -> Option<EP> {
        self.error_handler
    }

    /// Every registered handler accepts every call.
    pub open spec fn ready(&self) -> bool {
        &&& (self.on_valid() matches Some(h) ==> forall|c: &str, v: &[FieldValue]| #[trigger] h.requires((c, v)))
        &&& (self.on_invalid() matches Some(h) ==> forall|c: &str, m: &str| #[trigger] h.requires((c, m)))
        &&& (self.on_error() matches Some(h) ==> forall|c: &str, e: &ZkvcError| #[trigger] h.requires((c, e)))
    }

    /// The error handler, when registered, was called for `client` with an
    /// error of kind `kind` (and, when given, message `message`).
    pub open spec fn error_reported(&self, client: Seq<char>, kind: ErrorKind, message: Option<Seq<char>>) -> bool {
        self.on_error() matches Some(h) ==> exists|c: &str, e: &ZkvcError, res: Result<(), String>|
            c@ == client && e.kind == kind && (message matches Some(m) ==> e.message@ == m)
                && #[trigger] h.ensures((c, e), res)
    }

    /// `handled` is what the handler that `verdict` selects returned when it
    /// was called for `client` with the decoded `values`: the valid handler
    /// with the values, the invalid handler with the reason, or the error
    /// handler, whose result is not used. An absent handler returns `Ok`.
    pub open spec fn handled_by(
        &self,
        client: Seq<char>,
        values: Seq<nat>,
        verdict: Result<bool, ErrorKind>,
        handled: Result<(), String>,
    ) -> bool {
        match verdict {
            Ok(true) => match self.on_valid() {
                None => handled == Ok::<(), String>(()),
                Some(h) => exists|c: &str, v: &[FieldValue]| c@ == client && values_of(v@) == values
                    && #[trigger] h.ensures((c, v), handled),
            },
            Ok(false) => match self.on_invalid() {
                None => handled == Ok::<(), String>(()),
                Some(h) => exists|c: &str, m: &str| c@ == client && m@ == invalid_reason()
                    && #[trigger] h.ensures((c, m), handled),
            },
            Err(kind) => handled == Ok::<(), String>(()) && self.error_reported(client, kind, None),
        }
    }

    /// A server for `config` that checks proofs against `verification_key`,
    /// with no handlers yet.
    pub fn new(config: ServerConfig, verification_key: VerificationKey) -> (r: Self)
        ensures
            r.ready(),
            r.listen_address() == config.listen_address@,
            r.key_bytes() == verification_key.bytes(),
            r.on_valid() is None,
            r.on_invalid() is None,
            r.on_error() is None,
    {
        ServerApp {
            config,
            verification_key,
            valid_proof_handler: None,
            invalid_proof_handler: None,
            error_handler: None,
        }
    }

    /// Installs `handler` for valid proofs, replacing any earlier one.
    pub fn with_valid_proof_handler(self, handler: VP) -> (r: Self)
        requires
            self.ready(),
            forall|c: &str, v: &[FieldValue]| #[trigger] handler.requires((c, v)),
        ensures
            r.ready(),
            r.on_valid() == Some(handler),
            r.on_invalid() == self.on_invalid(),
            r.on_error() == self.on_error(),
            r.listen_address() == self.listen_address(),
            r.key_bytes() == self.key_bytes(),
    {
        ServerApp { valid_proof_handler: Some(handler), ..self }
    }

    /// Installs `handler` for invalid proofs, replacing any earlier one.
    pub fn with_invalid_proof_handler(self, handler: IP) -> (r: Self)
        requires
            self.ready(),
            forall|c: &str, m: &str| #[trigger] handler.requires((c, m)),
        ensures
            r.ready(),
            r.on_valid() == self.on_valid(),
            r.on_invalid() == Some(handler),
            r.on_error() == self.on_error(),
            r.listen_address() == self.listen_address(),
            r.key_bytes() == self.key_bytes(),
    {
        ServerApp { invalid_proof_handler: Some(handler), ..self }
    }

    /// Installs `handler` for requests that end in an error, replacing any
    /// earlier one.
    pub fn with_error_handler(self, handler: EP) -> (r: Self)
        requires
            self.ready(),
            forall|c: &str, e: &ZkvcError| #[trigger] handler.requires((c, e)),
        ensures
            r.ready(),
            r.on_valid() == self.on_valid(),
            r.on_invalid() == self.on_invalid(),
            r.on_error() == Some(handler),
            r.listen_address() == self.listen_address(),
            r.key_bytes() == self.key_bytes(),
    {
        ServerApp { error_handler: Some(handler), ..self }
    }

    pub fn get_listen_address(&self) -> (r: &str)
        ensures
            r@ == self.listen_address(),
    {
        self.config.listen_address.as_str()
    }

    /// Decodes a request's public inputs and checks its proof against them.
    pub fn verify(&self, request: &ProofRequest) -> (r: Result<bool, ZkvcError>)
        ensures
            agrees(r, request_verdict(self.key_bytes(), request.proof.0@, strings_view(request.public_inputs@))),
    {
        verify(request, &self.verification_key)
    }

    /// Handles one request: decodes it, verifies it, calls the one handler
    /// (when registered) that the verdict selects, and answers. Inputs that
    /// do not decode end in an encoding error before any verification.
    pub fn verify_handler(&self, request: &ProofRequest) -> (r: Reply)
        requires
            self.ready(),
        ensures
            decoded_inputs(strings_view(request.public_inputs@)) is None ==> {
                &&& exists|e: ZkvcError| e.kind == ErrorKind::EncodingError
                    && e.message@ == decode_error(strings_view(request.public_inputs@))
                    && #[trigger] reply_spec(Err(e), Ok(()), strings_view(request.public_inputs@), false, r)
                &&& self.error_reported(request.client_id@, ErrorKind::EncodingError,
                    Some(decode_error(strings_view(request.public_inputs@))))
            },
            decoded_inputs(strings_view(request.public_inputs@)) matches Some(values) ==>
                exists|v: Result<bool, ZkvcError>, handled: Result<(), String>|
                    agrees(v, request_verdict(self.key_bytes(), request.proof.0@, strings_view(request.public_inputs@)))
                    && self.handled_by(request.client_id@, values, proof_verdict(self.key_bytes(), request.proof.0@, values), handled)
                    && #[trigger] reply_spec(v, handled, strings_view(request.public_inputs@), true, r),
    {
        let client_id = request.client_id.as_str();
        let ghost inputs_view = strings_view(request.public_inputs@);
        let inputs = match decode_public_inputs(&request.public_inputs) {
            Ok(v) => v,
            Err(e) => {
                if let Some(handler) = &self.error_handler {
                    let _reported = handler(client_id, &e);
                }
                let ghost err = e;
                let r = reply(Err(e), Ok(()), &request.public_inputs, false);
                assert(reply_spec(Err(err), Ok(()), inputs_view, false, r));
                return r;
            },
        };
        let ghost values = values_of(inputs@);
        let verdict = verify_decoded(&self.verification_key, &request.proof, &inputs);
        let handled = match &verdict {
            Ok(true) => match &self.valid_proof_handler {
                Some(handler) => handler(client_id, inputs.as_slice()),
                None => Ok(()),
            },
            Ok(false) => match &self.invalid_proof_handler {
                Some(handler) => {
                    let reason = "proof verification failed";
                    proof {
                        reveal_strlit("proof verification failed");
                    }
                    handler(client_id, reason)
                },
                None => Ok(()),
            },
            Err(e) => {
                if let Some(handler) = &self.error_handler {
                    let _reported = handler(client_id, e);
                }
                Ok(())
            },
        };
        let ghost v = verdict;
        let ghost h = handled;
        assert(self.handled_by(request.client_id@, values, proof_verdict(self.key_bytes(), request.proof.0@, values), h));
        let r = reply(verdict, handled, &request.public_inputs, true);
        assert(reply_spec(v, h, inputs_view, true, r));
        r
    }

    /// Answers a payload that is not a proof request at all: an encoding
    /// error, reported to the error handler without a client identity.
    pub fn malformed_payload(&self, message: &str) -> (r: Reply)
        requires
            self.ready(),
        ensures
            r.outcome == Outcome::Error(ErrorKind::EncodingError),
            r.status == 500,
            !r.reached_verifier,
            r.response matches VerificationResponse::Error { error } && error@ == message@,
            self.error_reported(Seq::empty(), ErrorKind::EncodingError, Some(message@)),
    {
        let e = ZkvcError::new(ErrorKind::EncodingError, message);
        let client: &str = "";
        proof {
            reveal_strlit("");
            assert(client@ =~= Seq::<char>::empty());
        }
        if let Some(handler) = &self.error_handler {
            let reported = handler(client, &e);
            assert(self.error_reported(Seq::empty(), ErrorKind::EncodingError, Some(message@)));
        }
        let none: Vec<String> = Vec::new();
        reply(Err(e), Ok(()), &none, false)
    }
}

} // verus!

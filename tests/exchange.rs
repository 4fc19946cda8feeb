use std::cell::{Cell, RefCell};
use std::rc::Rc;
use std::sync::{Arc, Mutex};

use ark_bls12_381::{Bls12_381, Fr};
use ark_groth16::{create_random_proof, Groth16, ProvingKey, VerifyingKey};
use ark_r1cs_std::alloc::AllocVar;
use ark_r1cs_std::eq::EqGadget;
use ark_r1cs_std::fields::fp::FpVar;
use ark_relations::r1cs::{ConstraintSynthesizer, ConstraintSystemRef, SynthesisError};
use ark_serialize::{CanonicalDeserialize, CanonicalSerialize};
use ark_snark::CircuitSpecificSetupSNARK;

use zkvc::challenge::{ChallengeState, Rotation};
use zkvc::circuit::{decode_public_inputs, Base64Proof, ProofRequest, PublicInputLog};
use zkvc::error::{ErrorKind, ZkvcError};
use zkvc::field::FieldValue;
use zkvc::response::VerificationResponse;
use zkvc::server::{reply, Outcome, ServerApp, ServerConfig, VerificationKey};
use zkvc::utils::field_to_string;

/// p1 * p2 == product, with all three public.
struct Factorization {
    p1: u64,
    p2: u64,
    product: u64,
    log: Arc<Mutex<Vec<FieldValue>>>,
}

impl ConstraintSynthesizer<Fr> for Factorization {
    fn generate_constraints(self, cs: ConstraintSystemRef<Fr>) -> Result<(), SynthesisError> {
        let mut log = PublicInputLog::new();
        let mut public = |n: u64| {
            let v = FieldValue::from_u64(n);
            let f = v.to_fr();
            log.record(v);
            FpVar::new_input(cs.clone(), || Ok(f))
        };
        let a = public(self.p1)?;
        let b = public(self.p2)?;
        let c = public(self.product)?;
        (&a * &b).enforce_equal(&c)?;
        *self.log.lock().unwrap() = log.into_values();
        Ok(())
    }
}

fn circuit(p1: u64, p2: u64, product: u64) -> (Factorization, Arc<Mutex<Vec<FieldValue>>>) {
    let log = Arc::new(Mutex::new(Vec::new()));
    (Factorization { p1, p2, product, log: Arc::clone(&log) }, log)
}

fn keys() -> (ProvingKey<Bls12_381>, VerifyingKey<Bls12_381>) {
    let (c, _) = circuit(0, 0, 0);
    Groth16::<Bls12_381>::setup(c, &mut rand::thread_rng()).unwrap()
}

fn prove(pk: &ProvingKey<Bls12_381>, p1: u64, p2: u64, product: u64) -> ProofRequest {
    let (c, log) = circuit(p1, p2, product);
    let proof = create_random_proof(c, pk, &mut rand::thread_rng()).unwrap();
    let mut bytes = Vec::new();
    proof.serialize_uncompressed(&mut bytes).unwrap();
    let log = std::mem::take(&mut *log.lock().unwrap());
    ProofRequest::build("client-1", &bytes, &log)
}

fn vk_bytes(vk: &VerifyingKey<Bls12_381>) -> Vec<u8> {
    let mut b = Vec::new();
    vk.serialize_unchecked(&mut b).unwrap();
    b
}

fn config() -> ServerConfig {
    ServerConfig {
        listen_address: "127.0.0.1:65432".to_string(),
        verification_key_path: "vk.bin".to_string(),
    }
}

struct Counters {
    valid: Rc<Cell<u32>>,
    invalid: Rc<Cell<u32>>,
    error: Rc<Cell<u32>>,
}

fn server_with_counters(
    vk: &VerifyingKey<Bls12_381>,
    valid_result: Result<(), String>,
) -> (
    ServerApp<
        impl Fn(&str, &[FieldValue]) -> Result<(), String>,
        impl Fn(&str, &str) -> Result<(), String>,
        impl Fn(&str, &ZkvcError) -> Result<(), String>,
    >,
    Counters,
) {
    let counters = Counters {
        valid: Rc::new(Cell::new(0)),
        invalid: Rc::new(Cell::new(0)),
        error: Rc::new(Cell::new(0)),
    };
    let (v, i, e) = (counters.valid.clone(), counters.invalid.clone(), counters.error.clone());
    let key = VerificationKey::from_bytes(vk_bytes(vk)).ok().unwrap();
    let server = ServerApp::new(config(), key)
        .with_valid_proof_handler(move |_id: &str, _inputs: &[FieldValue]| {
            v.set(v.get() + 1);
            valid_result.clone()
        })
        .with_invalid_proof_handler(move |_id: &str, _reason: &str| {
            i.set(i.get() + 1);
            Ok(())
        })
        .with_error_handler(move |_id: &str, _e: &ZkvcError| {
            e.set(e.get() + 1);
            Ok(())
        });
    (server, counters)
}

#[test]
fn valid_proof_end_to_end() {
    let (pk, vk) = keys();
    let request = prove(&pk, 3, 5, 15);
    assert_eq!(request.public_inputs, vec!["3", "5", "15"]);
    assert_eq!(request.client_id, "client-1");
    let (server, counters) = server_with_counters(&vk, Ok(()));
    assert_eq!(server.verify(&request).ok(), Some(true));
    let r = server.verify_handler(&request);
    assert_eq!(r.outcome, Outcome::Valid);
    assert_eq!(r.status, 200);
    assert!(r.reached_verifier);
    match r.response {
        VerificationResponse::Valid { result } => {
            assert_eq!(result, Some(vec!["3".to_string(), "5".to_string(), "15".to_string()]))
        }
        _ => panic!("expected a valid response"),
    }
    assert_eq!(counters.valid.get(), 1);
    assert_eq!(counters.invalid.get(), 0);
    assert_eq!(counters.error.get(), 0);
}

#[test]
fn mismatched_inputs_are_invalid() {
    let (pk, vk) = keys();
    let mut request = prove(&pk, 3, 5, 15);
    request.public_inputs[2] = "16".to_string();
    let (server, counters) = server_with_counters(&vk, Ok(()));
    let r = server.verify_handler(&request);
    assert_eq!(r.outcome, Outcome::Invalid);
    assert_eq!(r.status, 400);
    match r.response {
        VerificationResponse::Invalid { reason } => {
            assert!(!reason.is_empty());
            assert_eq!(reason, "proof verification failed");
        }
        _ => panic!("expected an invalid response"),
    }
    assert_eq!(counters.valid.get(), 0);
    assert_eq!(counters.invalid.get(), 1);
    assert_eq!(counters.error.get(), 0);
}

#[test]
fn non_numeric_input_is_an_error_before_verification() {
    let (_pk, vk) = keys();
    let request = ProofRequest {
        client_id: "client-2".to_string(),
        proof: Base64Proof("not even base64!".to_string()),
        public_inputs: vec!["3".to_string(), "five".to_string(), "15".to_string()],
    };
    let (server, counters) = server_with_counters(&vk, Ok(()));
    let r = server.verify_handler(&request);
    // The proof string is garbage too: reaching the verifier would have
    // reported that instead of the input.
    assert_eq!(r.outcome, Outcome::Error(ErrorKind::EncodingError));
    assert_eq!(r.status, 500);
    assert!(!r.reached_verifier);
    match r.response {
        VerificationResponse::Error { error } => assert_eq!(error, "Failed to parse decimal string"),
        _ => panic!("expected an error response"),
    }
    assert_eq!(counters.error.get(), 1);
    assert_eq!(counters.valid.get(), 0);
    assert_eq!(counters.invalid.get(), 0);
}

#[test]
fn malformed_proof_is_an_error() {
    let (pk, vk) = keys();
    let mut request = prove(&pk, 3, 5, 15);
    request.proof = Base64Proof("AAAA".to_string());
    let (server, counters) = server_with_counters(&vk, Ok(()));
    let r = server.verify_handler(&request);
    assert_eq!(r.outcome, Outcome::Error(ErrorKind::BackendError));
    assert_eq!(r.status, 500);
    request.proof = Base64Proof("%%%".to_string());
    let r = server.verify_handler(&request);
    assert_eq!(r.outcome, Outcome::Error(ErrorKind::EncodingError));
    assert_eq!(counters.error.get(), 2);
}

#[test]
fn wrong_number_of_inputs_is_a_backend_error() {
    let (pk, vk) = keys();
    let mut request = prove(&pk, 3, 5, 15);
    request.public_inputs.pop();
    let (server, _counters) = server_with_counters(&vk, Ok(()));
    let r = server.verify_handler(&request);
    assert_eq!(r.outcome, Outcome::Error(ErrorKind::BackendError));
}

#[test]
fn failing_valid_handler_turns_into_error() {
    let (pk, vk) = keys();
    let request = prove(&pk, 3, 5, 15);
    let (server, counters) = server_with_counters(&vk, Err("business logic failed".to_string()));
    let r = server.verify_handler(&request);
    assert_eq!(r.outcome, Outcome::Error(ErrorKind::HandlerError));
    assert_eq!(r.status, 500);
    match r.response {
        VerificationResponse::Error { error } => assert_eq!(error, "business logic failed"),
        _ => panic!("expected an error response"),
    }
    assert_eq!(counters.valid.get(), 1);
}

#[test]
fn loaded_keys_prove_and_verify_like_the_originals() {
    let (pk, vk) = keys();
    let mut pk_bytes = Vec::new();
    pk.serialize_unchecked(&mut pk_bytes).unwrap();
    let pk2 = ProvingKey::<Bls12_381>::deserialize_unchecked(&*pk_bytes).unwrap();
    assert!(pk2 == pk);
    let vk2 = VerifyingKey::<Bls12_381>::deserialize_unchecked(&*vk_bytes(&vk)).unwrap();
    assert!(vk2 == vk);
    let request = prove(&pk2, 3, 5, 15);
    let (server, _c) = server_with_counters(&vk2, Ok(()));
    assert_eq!(server.verify_handler(&request).outcome, Outcome::Valid);
    let (server1, _c1) = server_with_counters(&vk, Ok(()));
    assert_eq!(server1.verify_handler(&request).outcome, Outcome::Valid);
    let other = prove(&pk, 3, 5, 15);
    assert_eq!(server.verify_handler(&other).outcome, Outcome::Valid);
}

#[test]
fn missing_key_is_key_missing() {
    let e = VerificationKey::load(None).err().unwrap();
    assert_eq!(e.kind, ErrorKind::KeyMissing);
    assert_eq!(zkvc::server::stored_key_bytes(None).err().unwrap().kind, ErrorKind::KeyMissing);
    assert_eq!(zkvc::server::stored_key_bytes(Some(vec![4, 2])).ok(), Some(vec![4, 2]));
    let e = VerificationKey::load(Some(vec![0; 8])).err().unwrap();
    assert_eq!(e.kind, ErrorKind::KeyFormat);
    let (_pk, vk) = keys();
    assert!(VerificationKey::load(Some(vk_bytes(&vk))).is_ok());
}

#[test]
fn bad_key_bytes_are_a_key_format_error() {
    let e = VerificationKey::from_bytes(vec![1, 2, 3]).err().unwrap();
    assert_eq!(e.kind, ErrorKind::KeyFormat);
}

#[test]
fn request_encodes_proof_in_base64() {
    let log = vec![FieldValue::from_u64(7), FieldValue::from_u64(0)];
    let r = ProofRequest::build("c", &[1, 2, 3], &log);
    assert_eq!(r.proof.0, "AQID");
    assert_eq!(r.public_inputs, vec!["7", "0"]);
    let empty = ProofRequest::build("c", &[], &Vec::new());
    assert_eq!(empty.proof.0, "");
    assert!(empty.public_inputs.is_empty());
}

#[test]
fn public_log_keeps_declaration_order() {
    let mut log = PublicInputLog::new();
    for n in [9u64, 2, 7, 2] {
        log.record(FieldValue::from_u64(n));
    }
    assert_eq!(log.len(), 4);
    let values = log.into_values();
    let strings: Vec<String> = values.iter().map(field_to_string).collect();
    assert_eq!(strings, vec!["9", "2", "7", "2"]);
    let request = ProofRequest::build("c", &[0], &values);
    let decoded = decode_public_inputs(&request.public_inputs).ok().unwrap();
    assert_eq!(decoded.len(), 4);
    for (a, b) in decoded.iter().zip(values.iter()) {
        assert_eq!(a.to_le_bytes(), b.to_le_bytes());
    }
}

#[test]
fn decode_stops_at_a_bad_input() {
    let inputs = vec!["1".to_string(), "x".to_string()];
    let e = decode_public_inputs(&inputs).err().unwrap();
    assert_eq!(e.kind, ErrorKind::EncodingError);
    assert!(decode_public_inputs(&vec![]).ok().unwrap().is_empty());
}

#[test]
fn reply_for_each_verdict() {
    let inputs = vec!["3".to_string()];
    let r = reply(Ok(true), Ok(()), &inputs, true);
    assert_eq!((r.outcome, r.status), (Outcome::Valid, 200));
    let r = reply(Ok(false), Ok(()), &inputs, true);
    assert_eq!((r.outcome, r.status), (Outcome::Invalid, 400));
    let r = reply(Ok(false), Err("h".to_string()), &inputs, true);
    assert_eq!((r.outcome, r.status), (Outcome::Error(ErrorKind::HandlerError), 500));
    let e = ZkvcError::new(ErrorKind::BackendError, "b");
    let r = reply(Err(e), Err("ignored".to_string()), &inputs, false);
    assert!(!r.reached_verifier);
    assert_eq!((r.outcome, r.status), (Outcome::Error(ErrorKind::BackendError), 500));
    match r.response {
        VerificationResponse::Error { error } => assert_eq!(error, "b"),
        _ => panic!("expected an error response"),
    }
}

#[test]
fn malformed_payload_is_an_error() {
    let (_pk, vk) = keys();
    let (server, counters) = server_with_counters(&vk, Ok(()));
    let r = server.malformed_payload("expected value at line 1 column 1");
    assert_eq!(r.outcome, Outcome::Error(ErrorKind::EncodingError));
    assert_eq!(r.status, 500);
    assert!(!r.reached_verifier);
    match r.response {
        VerificationResponse::Error { error } => assert_eq!(error, "expected value at line 1 column 1"),
        _ => panic!("expected an error response"),
    }
    assert_eq!(counters.error.get(), 1);
    assert_eq!(counters.valid.get(), 0);
}

#[test]
fn verify_reports_each_kind_of_failure() {
    let (pk, vk) = keys();
    let key = VerificationKey::from_bytes(vk_bytes(&vk)).ok().unwrap();
    let good = prove(&pk, 3, 5, 15);
    assert_eq!(zkvc::server::verify(&good, &key).ok(), Some(true));
    let mut wrong = prove(&pk, 3, 5, 15);
    wrong.public_inputs[0] = "4".to_string();
    assert_eq!(zkvc::server::verify(&wrong, &key).ok(), Some(false));
    let mut not_base64 = prove(&pk, 3, 5, 15);
    not_base64.proof = Base64Proof("AQI".to_string());
    assert_eq!(zkvc::server::verify(&not_base64, &key).err().unwrap().kind, ErrorKind::EncodingError);
    let mut not_proof = prove(&pk, 3, 5, 15);
    not_proof.proof = Base64Proof("AQID".to_string());
    assert_eq!(zkvc::server::verify(&not_proof, &key).err().unwrap().kind, ErrorKind::BackendError);
}

#[test]
fn listen_address_is_kept() {
    let (_pk, vk) = keys();
    let (server, _c) = server_with_counters(&vk, Ok(()));
    assert_eq!(server.get_listen_address(), "127.0.0.1:65432");
}

fn session_server(
    vk: &VerifyingKey<Bls12_381>,
    state: Rc<RefCell<ChallengeState>>,
    fresh: Vec<u64>,
    log: Rc<RefCell<Vec<Rotation>>>,
) -> ServerApp<
    impl Fn(&str, &[FieldValue]) -> Result<(), String>,
    impl Fn(&str, &str) -> Result<(), String>,
    impl Fn(&str, &ZkvcError) -> Result<(), String>,
> {
    let key = VerificationKey::from_bytes(vk_bytes(vk)).ok().unwrap();
    ServerApp::new(config(), key)
        .with_valid_proof_handler(move |_id: &str, inputs: &[FieldValue]| {
            let proved: Vec<FieldValue> = inputs.iter().map(|v| v.duplicate()).collect();
            let r = state.borrow_mut().rotate_if_proved(&proved, fresh.clone());
            log.borrow_mut().push(r);
            Ok(())
        })
        .with_invalid_proof_handler(|_id: &str, _reason: &str| Ok(()))
        .with_error_handler(|_id: &str, _e: &ZkvcError| Ok(()))
}

#[test]
fn invalid_proof_leaves_session_unchanged() {
    let (pk, vk) = keys();
    let state = Rc::new(RefCell::new(ChallengeState::new(vec![3, 5])));
    let log = Rc::new(RefCell::new(Vec::new()));
    let server = session_server(&vk, state.clone(), vec![7, 11], log.clone());
    let mut request = prove(&pk, 3, 5, 15);
    request.public_inputs[2] = "16".to_string();
    assert_eq!(server.verify_handler(&request).outcome, Outcome::Invalid);
    assert_eq!(state.borrow().current(), vec![3, 5]);
    assert!(log.borrow().is_empty());
}

#[test]
fn racing_clients_rotate_the_challenge_once() {
    let (pk, vk) = keys();
    let state = Rc::new(RefCell::new(ChallengeState::new(vec![3, 5])));
    let log = Rc::new(RefCell::new(Vec::new()));
    let server = session_server(&vk, state.clone(), vec![7, 11], log.clone());
    let first = prove(&pk, 3, 5, 15);
    let second = prove(&pk, 3, 5, 15);
    assert_eq!(server.verify_handler(&first).outcome, Outcome::Valid);
    assert_eq!(state.borrow().current(), vec![7, 11]);
    assert_eq!(server.verify_handler(&second).outcome, Outcome::Valid);
    assert_eq!(state.borrow().current(), vec![7, 11]);
    assert_eq!(*log.borrow(), vec![Rotation::Rotated, Rotation::Stale]);
}

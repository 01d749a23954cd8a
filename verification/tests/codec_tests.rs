use mpc_node::codec::{decode_message, decode_node_data, encode_message, encode_node_data};
use mpc_node::digest::{ripemd160, sha256};
use mpc_node::message::{
    GeneratingMessage, MpcMessage, PresignatureMessage, ResharingMessage, SignatureMessage,
    TripleMessage,
};
use mpc_node::msg::{decode_hex, deserialize, encode_hex, serialize};
use mpc_node::state::PersistentNodeData;
use mpc_node::types::Participant;
use mpc_node::web::Error;

fn round_trip(m: MpcMessage) -> MpcMessage {
    let bytes = encode_message(&m);
    decode_message(&bytes).expect("an encoded message decodes")
}

#[test]
fn every_message_variant_round_trips() {
    let from = Participant::new(3);
    let cases = vec![
        MpcMessage::Generating(GeneratingMessage {
            from,
            data: vec![1, 2, 3],
        }),
        MpcMessage::Resharing(ResharingMessage {
            epoch: 9,
            from,
            data: vec![],
        }),
        MpcMessage::Triple(TripleMessage {
            id: u64::MAX,
            epoch: 5,
            from,
            data: vec![0xff; 40],
        }),
        MpcMessage::Presignature(PresignatureMessage {
            id: 77,
            epoch: 0,
            from,
            data: vec![0],
        }),
        MpcMessage::Signature(SignatureMessage {
            id: 1,
            epoch: 1,
            from,
            data: vec![9, 9],
        }),
    ];
    for m in cases {
        assert_eq!(round_trip(m.clone()), m);
    }
}

#[test]
fn the_generating_wire_form_is_exact() {
    let m = MpcMessage::Generating(GeneratingMessage {
        from: Participant::new(1),
        data: vec![0xaa],
    });
    let bytes = encode_message(&m);
    assert_eq!(
        bytes,
        vec![1u8, 1, 0, 0, 0, 1, 0, 0, 0, 0, 0, 0, 0, 0xaa],
        "tag, from (little endian), length-prefixed payload"
    );
}

#[test]
fn mangled_messages_are_refused() {
    // Unknown tag.
    assert!(decode_message(&vec![9u8, 0, 0, 0, 0]).is_none());
    // Empty input.
    assert!(decode_message(&vec![]).is_none());
    // Truncated payload: the length prefix promises more than is there.
    let m = MpcMessage::Generating(GeneratingMessage {
        from: Participant::new(1),
        data: vec![0xaa, 0xbb],
    });
    let mut bytes = encode_message(&m);
    bytes.pop();
    assert!(decode_message(&bytes).is_none());
    // Trailing garbage.
    let mut bytes = encode_message(&m);
    bytes.push(0);
    assert!(decode_message(&bytes).is_none());
}

#[test]
fn node_data_round_trips() {
    let d = PersistentNodeData {
        epoch: 12,
        private_share: vec![7u8; 32],
        public_key: vec![2u8; 33],
    };
    let bytes = encode_node_data(&d);
    let back = decode_node_data(&bytes).expect("encoded node data decodes");
    assert_eq!(back, d);
    // Truncation is refused.
    let mut cut = bytes.clone();
    cut.pop();
    assert!(decode_node_data(&cut).is_none());
}

#[test]
fn hex_round_trips_and_spells_lowercase() {
    let bytes = vec![0x00u8, 0x0f, 0xab, 0xff];
    let text = encode_hex(&bytes);
    assert_eq!(text, b"000fabff".to_vec());
    assert_eq!(decode_hex(&text), Some(bytes.clone()));
    // Uppercase text decodes too.
    assert_eq!(decode_hex(&b"000FABFF".to_vec()), Some(bytes));
    // Odd lengths and stray characters do not.
    assert_eq!(decode_hex(&b"abc".to_vec()), None);
    assert_eq!(decode_hex(&b"zz".to_vec()), None);
}

#[test]
fn a_signature_survives_its_wire_form() {
    let sk = threshold_crypto::SecretKey::random();
    let sig = sk.sign(b"payload");
    let sig_bytes = sig.to_bytes().to_vec();
    let wire = serialize(&sig_bytes);
    assert_eq!(wire.len(), 192);
    let back = deserialize(&wire).expect("a real signature deserializes");
    assert_eq!(back, sig_bytes);
}

#[test]
fn deserialize_rejects_bad_wire_forms() {
    // Not hex at all.
    assert!(deserialize(&b"not-hex!".to_vec()).is_err());
    // Valid hex of the wrong length.
    assert!(deserialize(&b"abcd".to_vec()).is_err());
    // 96 bytes that are no valid signature.
    let junk = vec![0x11u8; 96];
    let wire = serialize(&junk);
    assert!(deserialize(&wire).is_err());
}

#[test]
fn web_errors_answer_with_the_documented_statuses() {
    let (status, body) = Error::NotRunning.into_response();
    assert_eq!(status, 400);
    assert_eq!(body, "node is not running");
    let (status, _) = Error::Rpc("boom".to_string()).into_response();
    assert_eq!(status, 400);
    let (status, _) = Error::Message("closed".to_string()).into_response();
    assert_eq!(status, 500);
    let (status, _) = Error::Protocol(mpc_node::consensus::ConsensusError::EpochRollback)
        .into_response();
    assert_eq!(status, 500);
    let (status, _) = Error::Cryptography(
        mpc_node::errors::CryptographicError::UnknownParticipant(Participant::new(9)),
    )
    .into_response();
    assert_eq!(status, 500);
    let (status, body) = Error::JsonExtractorRejection {
        status: 422,
        body: "bad json".to_string(),
    }
    .into_response();
    assert_eq!(status, 422);
    assert_eq!(body, "bad json");
}

#[test]
fn digests_match_their_published_vectors() {
    assert_eq!(
        hex::encode(sha256(b"abc".to_vec())),
        "ba7816bf8f01cfea414140de5dae2223b00361a396177a9cb410ff61f20015ad"
    );
    assert_eq!(
        hex::encode(ripemd160(b"abc".to_vec())),
        "8eb208f7e05d987a9b044a8e98c6b087f15a0bfc"
    );
}

#[test]
fn generate_hands_out_one_share_per_node() {
    let (_pk_set, shares, _root) = mpc_node::recovery::generate(4, 3);
    assert_eq!(shares.len(), 4);
}

//! The legacy group-key merge.

use routing::get_group_key_response::GetGroupKeyResponse;
use routing::types::{DhtId, PublicSignKey, GROUP_SIZE};

fn clone_pair(p: &(DhtId, PublicSignKey)) -> (DhtId, PublicSignKey) {
    (p.0.duplicate(), p.1.duplicate())
}

fn clone_response(r: &GetGroupKeyResponse) -> GetGroupKeyResponse {
    GetGroupKeyResponse {
        target_id: r.target_id.duplicate(),
        public_sign_keys: r.public_sign_keys.iter().map(clone_pair).collect(),
    }
}

#[test]
fn merge() {
    let obj = GetGroupKeyResponse::generate_random();
    assert!(obj.public_sign_keys.len() >= GROUP_SIZE as usize);
    // If the group size changes, reimplement the below.
    assert!(GROUP_SIZE >= 13);

    // Pick keys at scattered positions.
    let mut keys: Vec<(DhtId, PublicSignKey)> = Vec::with_capacity(7);
    keys.push(clone_pair(&obj.public_sign_keys[3]));
    keys.push(clone_pair(&obj.public_sign_keys[5]));
    keys.push(clone_pair(&obj.public_sign_keys[7]));
    keys.push(clone_pair(&obj.public_sign_keys[8]));
    keys.push(clone_pair(&obj.public_sign_keys[9]));
    keys.push(clone_pair(&obj.public_sign_keys[10]));
    keys.push(clone_pair(&obj.public_sign_keys[13]));

    let mut responses: Vec<GetGroupKeyResponse> = Vec::with_capacity(4);
    for _ in 0..4 {
        let mut response = GetGroupKeyResponse::generate_random();
        response.target_id = obj.target_id.duplicate();
        response.public_sign_keys[1] = clone_pair(&keys[0]);
        response.public_sign_keys[4] = clone_pair(&keys[1]);
        response.public_sign_keys[6] = clone_pair(&keys[2]);
        response.public_sign_keys[0] = clone_pair(&keys[3]);
        response.public_sign_keys[5] = clone_pair(&keys[4]);
        response.public_sign_keys[9] = clone_pair(&keys[5]);
        response.public_sign_keys[10] = clone_pair(&keys[6]);
        responses.push(response);
    }

    let merged_obj = obj.merge(&responses);
    assert!(merged_obj.is_some());
    let merged_response = merged_obj.unwrap();
    for i in 0..7 {
        let got = &merged_response.public_sign_keys[i];
        assert!(keys.iter().any(|a| a.0.equals(&got.0) && a.1.equals(&got.1)));
    }
    assert_eq!(merged_response.public_sign_keys.len(), GROUP_SIZE as usize);
}

#[test]
fn merge_rejects_a_different_target() {
    let obj = GetGroupKeyResponse::generate_random();
    let mut other = clone_response(&obj);
    other.target_id = DhtId::generate_random();
    let mut more = Vec::new();
    for _ in 0..4 {
        let mut response = GetGroupKeyResponse::generate_random();
        response.target_id = obj.target_id.duplicate();
        more.push(response);
    }
    more.push(other);
    assert!(obj.merge(&more).is_none());
}

#[test]
fn get_group_key_response_serialisation() {
    let obj_before = GetGroupKeyResponse::generate_random();

    let encoded = obj_before.encode();
    let obj_after = GetGroupKeyResponse::decode(&encoded).expect("round trip");

    assert!(obj_before.target_id.equals(&obj_after.target_id));
    assert_eq!(obj_before.public_sign_keys.len(), obj_after.public_sign_keys.len());
    for (a, b) in obj_before.public_sign_keys.iter().zip(obj_after.public_sign_keys.iter()) {
        assert!(a.0.equals(&b.0));
        assert!(a.1.equals(&b.1));
    }
}

#[test]
fn truncated_bytes_do_not_decode() {
    let obj = GetGroupKeyResponse::generate_random();
    let mut encoded = obj.encode();
    encoded.pop();
    assert!(GetGroupKeyResponse::decode(&encoded).is_none());
}

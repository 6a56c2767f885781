use kitties::idgen::{next_id, randomness_subject};
use kitties::{AssetId, AssetStore, Kitty, OwnerId, Registry};
use sp_runtime::traits::BlakeTwo256;

fn blake2(data: &[u8]) -> [u8; 32] {
    <BlakeTwo256 as sp_runtime::traits::Hash>::hash(data).to_fixed_bytes()
}

#[test]
fn identifier_bytes_round_trip() {
    let mut bytes = [0u8; 32];
    for (i, b) in bytes.iter_mut().enumerate() {
        *b = (i as u8).wrapping_mul(7).wrapping_add(1);
    }
    let id = AssetId::from_bytes(bytes);
    assert_eq!(id.to_bytes(), bytes);
    assert_eq!(AssetId::from_bytes(id.to_bytes()), id);
    let owner = OwnerId::from_bytes(bytes);
    assert_eq!(owner.to_bytes(), bytes);
    assert_eq!(OwnerId::from_bytes(owner.to_bytes()), owner);
}

#[test]
fn identifier_halves_are_little_endian() {
    let mut bytes = [0u8; 32];
    bytes[0] = 1;
    bytes[15] = 2;
    bytes[16] = 3;
    bytes[31] = 4;
    let id = AssetId::from_bytes(bytes);
    assert_eq!(id.head, 1u128 + (2u128 << 120));
    assert_eq!(id.tail, 3u128 + (4u128 << 120));
    assert_eq!(AssetId { head: 0x0102, tail: 0 }.to_bytes()[0], 0x02);
    assert_eq!(AssetId { head: 0x0102, tail: 0 }.to_bytes()[1], 0x01);
    assert_eq!(AssetId { head: 0, tail: 0xff }.to_bytes()[16], 0xff);
}

#[test]
fn identifiers_differ_when_one_byte_differs() {
    let a = [9u8; 32];
    for i in 0..32 {
        let mut b = a;
        b[i] ^= 0x80;
        assert_ne!(AssetId::from_bytes(a), AssetId::from_bytes(b));
        assert_ne!(OwnerId::from_bytes(a), OwnerId::from_bytes(b));
    }
}

#[test]
fn subject_is_the_digest_of_the_little_endian_nonce() {
    let nonce = 0x0102_0304_0506_0708u64;
    let expected = blake2(&[8, 7, 6, 5, 4, 3, 2, 1]);
    assert_eq!(randomness_subject(nonce), expected);
    assert_ne!(randomness_subject(nonce), blake2(&[1, 2, 3, 4, 5, 6, 7, 8]));
    assert_eq!(randomness_subject(0), blake2(&[0u8; 8]));
    assert_ne!(randomness_subject(0), randomness_subject(1));
}

#[test]
fn subject_follows_the_nonce_of_the_registry() {
    let mut registry = Registry::new();
    assert_eq!(registry.randomness_subject(), randomness_subject(0));
    assert!(registry.create_kitty(OwnerId::from_bytes([1; 32]), &[5; 32]).is_ok());
    assert_eq!(registry.randomness_subject(), randomness_subject(1));
    assert_eq!(registry.randomness_subject(), randomness_subject(1));
}

#[test]
fn next_id_is_the_digest_of_the_random_bytes() {
    let mut random = [0u8; 32];
    for (i, b) in random.iter_mut().enumerate() {
        *b = 200u8.wrapping_sub(i as u8);
    }
    let expected = blake2(&random);
    let id = next_id(&random);
    assert_eq!(id.to_bytes(), expected);
    assert_ne!(id.to_bytes(), random);
    assert_eq!(next_id(&random), id);
    assert_ne!(next_id(&[0u8; 32]), id);
}

#[test]
fn create_kitty_uses_the_derived_identifier() {
    let mut registry = Registry::new();
    let owner = OwnerId::from_bytes([1; 32]);
    let random = [42u8; 32];
    let id = next_id(&random);
    assert!(registry.create_kitty(owner, &random).is_ok());
    assert_eq!(registry.owner_of(&id), Some(owner));
    assert_eq!(registry.kitty_by_index(0), Some(id));
    assert_eq!(registry.kitty(&id), Some(Kitty { id, dna: id, price: 0, generation: 0 }));
}

#[test]
fn asset_store_is_a_plain_dictionary() {
    let mut store = AssetStore::new();
    let id = AssetId::from_bytes([1; 32]);
    let other = AssetId::from_bytes([2; 32]);
    let owner = OwnerId::from_bytes([3; 32]);
    assert_eq!(store.get(&id), None);
    assert_eq!(store.owner_of(&id), None);
    assert!(!store.contains(&id));

    store.put(id, Kitty { id, dna: other, price: 5, generation: 0 });
    assert!(store.contains(&id));
    assert_eq!(store.get(&id), Some(Kitty { id, dna: other, price: 5, generation: 0 }));
    assert_eq!(store.owner_of(&id), None);

    store.set_owner(id, owner);
    assert_eq!(store.owner_of(&id), Some(owner));
    store.put(id, Kitty { id, dna: id, price: 6, generation: 0 });
    assert_eq!(store.get(&id).unwrap().price, 6);
    assert_eq!(store.owner_of(&id), Some(owner));
    assert_eq!(store.get(&other), None);
}

#[test]
fn subject_of_nonce_zero_is_known() {
    assert_eq!(
        randomness_subject(0),
        [
            129, 228, 122, 25, 230, 178, 155, 10, 101, 185, 89, 23, 98, 206, 81, 67, 237, 48, 208,
            38, 30, 93, 36, 163, 32, 23, 82, 80, 107, 32, 241, 92
        ]
    );
    assert_eq!(
        randomness_subject(1),
        [
            29, 189, 125, 11, 86, 26, 65, 210, 60, 42, 70, 154, 212, 47, 189, 112, 213, 67, 139,
            174, 130, 111, 111, 214, 7, 65, 49, 144, 195, 124, 54, 59
        ]
    );
}

#[test]
fn identifier_of_known_randomness_is_known() {
    assert_eq!(
        next_id(&[7u8; 32]).to_bytes(),
        [
            23, 205, 199, 188, 163, 242, 160, 189, 166, 12, 109, 229, 185, 111, 130, 163, 98, 57,
            180, 75, 222, 57, 122, 56, 98, 213, 41, 186, 139, 61, 124, 98
        ]
    );
    assert_eq!(
        next_id(&[0u8; 32]),
        AssetId {
            head: 274078497229238519716512851335079390089,
            tail: 259310736415773319015180783747675886602
        }
    );
}

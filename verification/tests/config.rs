use replicator::config::{
    continuation_archive_issues, fingerprint, Binding, BindingProfile, BindingStore, StoredAvatar,
};
use replicator::continuation::ContinuationPlan;
use replicator::copilot::Copilot;

fn gradient_avatar(seed: u8) -> Vec<u8> {
    let mut v = Vec::with_capacity(16 * 16 * 4);
    for y in 0..16u32 {
        for x in 0..16u32 {
            let g = ((x * 8 + y * 4) as u8).wrapping_add(seed);
            v.extend_from_slice(&[g, g / 2, g / 3, 255]);
        }
    }
    v
}

#[test]
fn fingerprint_is_order_independent() {
    let a = fingerprint(&[3, 1, 2]);
    let b = fingerprint(&[1, 2, 3]);
    assert_eq!(a, b, "卡片顺序变了（冷却重排）不该换指纹");
    assert_ne!(a, fingerprint(&[1, 2, 4]));
}

#[test]
fn fingerprint_is_order_independent_hex() {
    assert_eq!(
        fingerprint(&[0x2, 0x1ab]),
        "0000000000000002-00000000000001ab"
    );
    assert_eq!(fingerprint(&[0x1ab, 0x2]), fingerprint(&[0x2, 0x1ab]));
    assert_eq!(fingerprint(&[]), "");
    assert_eq!(fingerprint(&[u64::MAX]), "ffffffffffffffff");
    assert_eq!(fingerprint(&[5, 5, 1]), "0000000000000001-0000000000000005-0000000000000005");
}

#[test]
fn store_keeps_profiles_and_avatars() {
    let mut store = BindingStore::new();
    assert!(store.get("abc").is_none());
    let profile = BindingProfile {
        stage_name: "1-7".to_owned(),
        bindings: vec![Binding {
            name: "桃金娘".to_owned(),
            index: 0,
            role: "先锋".to_owned(),
            width: 16,
            height: 16,
            avatar_base64: String::new(),
        }],
    };
    store.put("abc".to_owned(), profile.clone());
    assert_eq!(store.get("abc"), Some(&profile));
    store.put("abc".to_owned(), BindingProfile::default());
    assert_eq!(store.get("abc"), Some(&BindingProfile::default()));

    let bytes = gradient_avatar(7);
    store.remember_avatar("桃金娘".to_owned(), 16, 16, &bytes);
    let avatar = store.avatar("桃金娘").unwrap();
    assert_eq!((avatar.width, avatar.height), (16, 16));
    assert_eq!(avatar.decode().unwrap(), bytes);
    assert!(store.avatar("风笛").is_none());
}

#[test]
fn stored_avatars_round_trip_through_base64() {
    let a = StoredAvatar::from_bgra(1, 1, &[1, 2, 3, 255]);
    assert_eq!(a.bgra_base64, "AQID/w==");
    assert_eq!(a.decode().unwrap(), vec![1, 2, 3, 255]);
    let broken = StoredAvatar { width: 1, height: 1, bgra_base64: "*".to_owned() };
    assert!(broken.decode().is_err());
}

#[test]
fn archived_operators_need_usable_avatars() {
    let job = Copilot::parse(
        r#"{
            "stage_name":"x","frame_replicator":true,
            "opers":[{"name":"A","skill":1},{"name":"B","skill":1},{"name":"C","skill":1}],
            "actions":[
                {"type":"Deploy","frame":10,"name":"A","location":[1,1]},
                {"type":"Deploy","frame":11,"name":"B","location":[2,1]},
                {"type":"Deploy","frame":12,"name":"C","location":[3,1]},
                {"type":"Retreat","frame":20,"name":"A"},
                {"type":"Retreat","frame":20,"name":"B"},
                {"type":"Retreat","frame":20,"name":"C"},
                {"type":"Deploy","frame":30,"name":"A","location":[2,2]},
                {"type":"Deploy","frame":30,"name":"B","location":[2,3]},
                {"type":"Deploy","frame":30,"name":"C","location":[2,4]}
            ]
        }"#,
    )
    .unwrap();
    let plan = ContinuationPlan::build(&job, 15).unwrap();
    assert_eq!(plan.archived_binding_names, vec!["A", "B", "C"]);
    let mut store = BindingStore::new();
    store.remember_avatar("A".to_owned(), 16, 16, &gradient_avatar(1));
    store.remember_avatar("B".to_owned(), 16, 15, &gradient_avatar(2));
    assert_eq!(
        continuation_archive_issues(&plan, &store),
        vec!["干员「B」的头像档案损坏".to_owned(), "缺少干员「C」的头像档案".to_owned()]
    );
}

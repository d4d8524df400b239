use raydrone::scenes::{builtin_key, restore_plan, scene_from_id, scene_id, Restore, Scene};

#[test]
fn scene_ids_round_trip() {
    for s in [Scene::Pad, Scene::Choir, Scene::Bell, Scene::Noise] {
        assert_eq!(scene_from_id(scene_id(s)), Some(s));
    }
    assert_eq!(scene_id(Scene::Choir), "Choir");
    assert_eq!(scene_from_id("pad"), None);
    assert_eq!(scene_from_id(""), None);
}

#[test]
fn saved_reference_restores_scene() {
    assert_eq!(restore_plan(None), Restore::Fresh);
    assert_eq!(restore_plan(Some("live")), Restore::Live);
    assert_eq!(restore_plan(Some("builtin:Bell")), Restore::Builtin(Scene::Bell));
    assert_eq!(restore_plan(Some("builtin:Organ")), Restore::Builtin(Scene::Pad));
    assert_eq!(restore_plan(Some("builtin:")), Restore::Builtin(Scene::Pad));
    assert_eq!(restore_plan(Some("/home/me/drone.wav")), Restore::File);
    assert_eq!(restore_plan(Some("liver.wav")), Restore::File);
}

#[test]
fn builtin_keys_restore_their_scene() {
    assert_eq!(builtin_key(Scene::Pad), "builtin:Pad");
    for s in [Scene::Pad, Scene::Choir, Scene::Bell, Scene::Noise] {
        assert_eq!(restore_plan(Some(builtin_key(s))), Restore::Builtin(s));
    }
}

use pseudo3d::resources::manager::{sound_uid_by_name, TypedStore};
use pseudo3d::resources::uid::{
    ResourceUid, SoundManifestEntry, SoundUid, TextureTag, TextureUid,
};

#[test]
fn uid_keeps_its_index() {
    let uid: TextureUid = ResourceUid::new(7);
    assert_eq!(uid.index(), 7);
    assert_eq!(uid, ResourceUid::<TextureTag>::new(7));
}

#[test]
fn fresh_store_holds_nothing() {
    let store: TypedStore<TextureTag, u32> = TypedStore::with_capacity(3);
    assert!(store.try_get(ResourceUid::new(0)).is_none());
    assert!(store.try_get(ResourceUid::new(5)).is_none());
}

#[test]
fn store_reads_back_what_was_inserted() {
    let mut store: TypedStore<TextureTag, &str> = TypedStore::with_capacity(2);
    assert_eq!(store.insert(ResourceUid::new(1), "brick"), Ok(()));
    assert_eq!(*store.get(ResourceUid::new(1)), "brick");
    assert!(store.try_get(ResourceUid::new(0)).is_none());
}

#[test]
fn store_grows_past_its_capacity() {
    let mut store: TypedStore<TextureTag, u8> = TypedStore::with_capacity(0);
    assert_eq!(store.insert(ResourceUid::new(4), 9), Ok(()));
    assert_eq!(store.try_get(ResourceUid::new(4)), Some(&9));
    assert_eq!(store.try_get(ResourceUid::new(3)), None);
}

#[test]
fn store_refuses_a_second_value_for_a_uid() {
    let mut store: TypedStore<TextureTag, String> = TypedStore::with_capacity(1);
    assert_eq!(store.insert(ResourceUid::new(0), "first".to_string()), Ok(()));
    assert_eq!(
        store.insert(ResourceUid::new(0), "second".to_string()),
        Err("second".to_string())
    );
    assert_eq!(store.get(ResourceUid::new(0)), "first");
}

#[test]
fn sounds_are_found_by_name() {
    let entries = [
        SoundManifestEntry {
            uid: SoundUid::new(0),
            name: "music",
            path: "sounds/music.ogg",
        },
        SoundManifestEntry {
            uid: SoundUid::new(1),
            name: "footsteps",
            path: "sounds/footsteps.ogg",
        },
        SoundManifestEntry {
            uid: SoundUid::new(2),
            name: "footsteps",
            path: "sounds/other.ogg",
        },
    ];
    assert_eq!(sound_uid_by_name(&entries, "footsteps"), Some(SoundUid::new(1)));
    assert_eq!(sound_uid_by_name(&entries, "music"), Some(SoundUid::new(0)));
    assert_eq!(sound_uid_by_name(&entries, "foot"), None);
    assert_eq!(sound_uid_by_name(&[], "music"), None);
}

#[test]
fn store_keeps_the_first_value_of_each_uid_over_many_inserts() {
    let mut store: TypedStore<TextureTag, u32> = TypedStore::with_capacity(2);
    let requests = [(3, 30), (0, 0), (3, 31), (5, 50), (0, 1), (5, 51)];
    let mut accepted = Vec::new();
    for (index, value) in requests {
        accepted.push(store.insert(ResourceUid::new(index), value).is_ok());
    }
    assert_eq!(accepted, vec![true, true, false, true, false, false]);
    assert_eq!(store.try_get(ResourceUid::new(3)), Some(&30));
    assert_eq!(store.try_get(ResourceUid::new(0)), Some(&0));
    assert_eq!(store.try_get(ResourceUid::new(5)), Some(&50));
    assert_eq!(store.try_get(ResourceUid::new(1)), None);
    assert_eq!(store.try_get(ResourceUid::new(4)), None);
    assert_eq!(store.try_get(ResourceUid::new(6)), None);
}

#[test]
fn a_refused_insert_leaves_the_store_as_it_was() {
    let mut store: TypedStore<TextureTag, u8> = TypedStore::with_capacity(0);
    assert_eq!(store.insert(ResourceUid::new(2), 7), Ok(()));
    assert_eq!(store.insert(ResourceUid::new(2), 8), Err(8));
    assert_eq!(store.try_get(ResourceUid::new(2)), Some(&7));
    assert_eq!(store.try_get(ResourceUid::new(0)), None);
    assert_eq!(store.try_get(ResourceUid::new(1)), None);
}

#[test]
fn handles_from_equal_indices_are_equal() {
    assert_eq!(ResourceUid::<TextureTag>::new(3), ResourceUid::<TextureTag>::new(3));
    assert_ne!(ResourceUid::<TextureTag>::new(3), ResourceUid::<TextureTag>::new(4));
}

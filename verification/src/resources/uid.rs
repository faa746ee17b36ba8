use std::marker::PhantomData;
use vstd::prelude::*;

verus! {

/// A typed handle to a resource: an index into the store of one kind of asset.
/// The tag `T` keeps handles of different kinds apart at compile time.
#[derive(Debug, PartialEq, Eq, Hash)]
pub struct ResourceUid<T> {
    index: u32,
    _marker: PhantomData<T>,
}

impl<T> Clone for ResourceUid<T> {
    fn clone(&self) -> (uid: Self)
        ensures
            uid == *self,
    {
        *self
    }
}

impl<T> Copy for ResourceUid<T> {

}

impl<T> View for ResourceUid<T> {
    type V = u32;

    /// The index that this handle stands for.
    closed spec fn view(&self) -> u32 {
        self.index
    }
}

impl<T> ResourceUid<T> {
    pub fn new(index: u32) -> (uid: Self)
        ensures
            uid@ == index,
    {
        Self { index, _marker: PhantomData }
    }

    pub fn index(&self) -> (index: u32)
        ensures
            index == self@,
    {
        self.index
    }
}

/// A handle is its index: two handles of one kind are equal exactly when
/// they stand for the same index, so handles made from equal indices are equal.
pub proof fn law_uid_is_its_index<T>(a: ResourceUid<T>, b: ResourceUid<T>)
    ensures
        a == b <==> a@ == b@,
{
    if a@ == b@ {
        assert(a._marker == b._marker);
    }
}

pub type TextureUid = ResourceUid<TextureTag>;

pub type MapUid = ResourceUid<MapTag>;

pub type ShaderUid = ResourceUid<ShaderTag>;

pub type ConfigUid = ResourceUid<ConfigTag>;

pub type SoundUid = ResourceUid<SoundTag>;

pub type SoundPresetUid = ResourceUid<SoundPresetTag>;

#[derive(Debug, Clone, Copy, PartialEq, Eq, Hash)]
pub struct TextureTag;

#[derive(Debug, Clone, Copy, PartialEq, Eq, Hash)]
pub struct MapTag;

#[derive(Debug, Clone, Copy, PartialEq, Eq, Hash)]
pub struct ShaderTag;

#[derive(Debug, Clone, Copy, PartialEq, Eq, Hash)]
pub struct ConfigTag;

#[derive(Debug, Clone, Copy, PartialEq, Eq, Hash)]
pub struct SoundTag;

#[derive(Debug, Clone, Copy, PartialEq, Eq, Hash)]
pub struct SoundPresetTag;

/// A texture of the asset manifest: its handle and its file, relative to the assets root.
pub struct TextureManifestEntry {
    pub uid: TextureUid,
    pub path: &'static str,
}

/// A map of the asset manifest.
pub struct MapManifestEntry {
    pub uid: MapUid,
    pub path: &'static str,
}

/// A shader program of the asset manifest: its vertex and fragment sources.
pub struct ShaderManifestEntry {
    pub uid: ShaderUid,
    pub vert: &'static str,
    pub frag: &'static str,
}

/// A TOML configuration of the asset manifest.
pub struct ConfigManifestEntry {
    pub uid: ConfigUid,
    pub path: &'static str,
}

/// A sound clip of the asset manifest, found again by its name.
pub struct SoundManifestEntry {
    pub uid: SoundUid,
    pub name: &'static str,
    pub path: &'static str,
}

/// A sound preset (a recipe of clip, volume and pitch) of the asset manifest.
pub struct SoundPresetManifestEntry {
    pub uid: SoundPresetUid,
    pub path: &'static str,
}

} // verus!

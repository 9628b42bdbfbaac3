use goldfish::asset::{AdditionalAssetData, AssetType, TextureAsset, Version};
use goldfish::resources::TextureFormat;
use goldfish::types::{FrameId, FRAME_ID_MAX};
use std::cmp::Ordering;

#[test]
fn cubemap_formats_are_recognised() {
    assert!(TextureFormat::CubemapRGBA8.is_cubemap());
    assert!(TextureFormat::CubemapSRGB8.is_cubemap());
    assert!(!TextureFormat::RGBA8.is_cubemap());
    assert!(!TextureFormat::Depth.is_cubemap());
}

#[test]
fn frame_id_wraps_around() {
    let mut f = FrameId(FRAME_ID_MAX - 1);
    f.incr();
    assert_eq!(f.0, 0);
    f.incr();
    assert_eq!(f.0, 1);
}

#[test]
fn version_packs_major_and_minor() {
    assert_eq!(Version::new(1, 0).version, 0x10000);
    assert_eq!(Version::new(2, 3).version, 0x20003);
    assert_eq!(Version::new(1, 5).compare(&Version::new(2, 0)), Ordering::Less);
    assert_eq!(Version::new(2, 5).compare(&Version::new(2, 1)), Ordering::Greater);
    assert_eq!(Version::new(3, 4).compare(&Version::new(3, 4)), Ordering::Equal);
}

#[test]
fn asset_type_from_extension_ignores_case() {
    assert_eq!(AssetType::from_extension("PNG"), AssetType::Texture);
    assert_eq!(AssetType::from_extension("jpeg"), AssetType::Texture);
    assert_eq!(AssetType::from_extension("Obj"), AssetType::Mesh);
    assert_eq!(AssetType::from_extension("HLSL"), AssetType::Shader);
    assert_eq!(AssetType::from_extension("txt"), AssetType::Other);
}

#[test]
fn new_textures_default_to_rgba8() {
    assert_eq!(
        AdditionalAssetData::for_asset_type(AssetType::Texture),
        AdditionalAssetData::Texture(TextureAsset { format: TextureFormat::RGBA8 })
    );
    assert_eq!(AdditionalAssetData::for_asset_type(AssetType::Mesh), AdditionalAssetData::Mesh);
}

use jwalk_meta::fs_detect::{
    c_path_bytes, strategy_from_ftype, IoStrategy, IoStrategyCache, BTRFS_SUPER_MAGIC, CIFS_MAGIC_NUMBER,
    EXFAT_SUPER_MAGIC, EXT4_SUPER_MAGIC, MSDOS_SUPER_MAGIC, NFS_SUPER_MAGIC,
    OVERLAYFS_SUPER_MAGIC, SMB_SUPER_MAGIC, TMPFS_MAGIC, XFS_SUPER_MAGIC,
};
use std::path::Path;

#[test]
fn test_strategy_from_ftype_known_network() {
    assert_eq!(strategy_from_ftype(SMB_SUPER_MAGIC), IoStrategy::NetworkAsync);
    assert_eq!(strategy_from_ftype(NFS_SUPER_MAGIC), IoStrategy::NetworkAsync);
    assert_eq!(strategy_from_ftype(CIFS_MAGIC_NUMBER), IoStrategy::NetworkAsync);
}

#[test]
fn test_strategy_from_ftype_known_local() {
    assert_eq!(strategy_from_ftype(EXT4_SUPER_MAGIC), IoStrategy::LocalSync);
    assert_eq!(strategy_from_ftype(XFS_SUPER_MAGIC), IoStrategy::LocalSync);
    assert_eq!(strategy_from_ftype(BTRFS_SUPER_MAGIC), IoStrategy::LocalSync);
    assert_eq!(strategy_from_ftype(TMPFS_MAGIC), IoStrategy::LocalSync);
    assert_eq!(strategy_from_ftype(OVERLAYFS_SUPER_MAGIC), IoStrategy::LocalSync);
}

#[test]
fn test_strategy_from_ftype_fat_family() {
    assert_eq!(strategy_from_ftype(MSDOS_SUPER_MAGIC), IoStrategy::SkipNlinks);
    assert_eq!(strategy_from_ftype(EXFAT_SUPER_MAGIC), IoStrategy::SkipNlinks);
}

#[test]
fn test_strategy_from_ftype_unknown_conservative_local() {
    assert_eq!(strategy_from_ftype(0x12345678), IoStrategy::LocalSync);
    assert_eq!(strategy_from_ftype(0), IoStrategy::LocalSync);
    assert_eq!(strategy_from_ftype(-1), IoStrategy::LocalSync);
}

#[test]
fn test_detect_nonexistent_path_falls_back() {
    let mut cache = IoStrategyCache::new();
    let path = Path::new("/this/path/should/not/exist/9mf");
    // The path can be handed to stat, but stat finds nothing there: no
    // device, so no statfs either.
    let mut expected = path.as_os_str().as_encoded_bytes().to_vec();
    expected.push(0);
    assert_eq!(c_path_bytes(path.as_os_str().as_encoded_bytes()), Some(expected));
    assert!(!path.exists());
    let strategy = cache.detect(None, None);
    assert_eq!(strategy, IoStrategy::LocalSync);
}

#[test]
fn test_detect_path_with_nul_byte_falls_back() {
    let mut cache = IoStrategyCache::new();
    let path = Path::new("/tmp/foo\0bar");
    // A path holding a NUL byte cannot be handed to stat at all.
    assert_eq!(c_path_bytes(path.as_os_str().as_encoded_bytes()), None);
    let strategy = cache.detect(None, None);
    assert_eq!(strategy, IoStrategy::LocalSync);
}

#[test]
fn detect_caches_first_strategy_per_device() {
    let mut cache = IoStrategyCache::new();
    assert_eq!(cache.get(7), None);
    let s1 = cache.detect(Some(7), Some(NFS_SUPER_MAGIC));
    assert_eq!(s1, IoStrategy::NetworkAsync);
    assert_eq!(cache.get(7), Some(IoStrategy::NetworkAsync));
    // A second detect on the same device is answered from the cache.
    let s2 = cache.detect(Some(7), Some(EXT4_SUPER_MAGIC));
    assert_eq!(s2, IoStrategy::NetworkAsync);
}

#[test]
fn detect_unknown_statfs_caches_local_sync() {
    let mut cache = IoStrategyCache::new();
    assert_eq!(cache.detect(Some(3), None), IoStrategy::LocalSync);
    assert_eq!(cache.get(3), Some(IoStrategy::LocalSync));
    assert_eq!(cache.detect(Some(4), Some(EXFAT_SUPER_MAGIC)), IoStrategy::SkipNlinks);
    assert_eq!(cache.get(4), Some(IoStrategy::SkipNlinks));
}

#[test]
fn insert_overrides_cached_strategy() {
    let mut cache = IoStrategyCache::new();
    cache.insert(9, IoStrategy::SkipNlinks);
    assert_eq!(cache.get(9), Some(IoStrategy::SkipNlinks));
    assert_eq!(cache.detect(Some(9), Some(SMB_SUPER_MAGIC)), IoStrategy::SkipNlinks);
    cache.insert(9, IoStrategy::LocalSync);
    assert_eq!(cache.get(9), Some(IoStrategy::LocalSync));
}

#[test]
fn detect_without_stat_leaves_cache_alone() {
    let mut cache = IoStrategyCache::new();
    assert_eq!(cache.detect(None, Some(NFS_SUPER_MAGIC)), IoStrategy::LocalSync);
    assert_eq!(cache.get(0), None);
}

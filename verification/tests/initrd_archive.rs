use kernel_core::initrd::{archive_with_entry, cpio_find, try_set_model_from_initrd};
use kernel_core::ramfs;

#[test]
fn cpio_round_trip_finds_the_entry_data() {
    let name = b"ai.mod".to_vec();
    let data = vec![1u8, 2, 3, 4, 5];
    let archive = archive_with_entry(&name, &data);
    let (off, size) = cpio_find(&archive, &name).unwrap();
    assert_eq!(size, data.len());
    assert_eq!(&archive[off..off + size], &data[..]);
    // Header 110 + "ai.mod" + NUL = 117, aligned to 120.
    assert_eq!(off, 120);
}

#[test]
fn cpio_accepts_the_dot_slash_alias() {
    let data = vec![9u8; 40];
    let archive = archive_with_entry(&b"./ai.mod".to_vec(), &data);
    let (off, size) = cpio_find(&archive, &b"ai.mod".to_vec()).unwrap();
    assert_eq!(size, 40);
    assert_eq!(&archive[off..off + size], &data[..]);
}

#[test]
fn cpio_misses_other_names_and_bad_magic() {
    let archive = archive_with_entry(&b"other.bin".to_vec(), &vec![1u8, 2, 3]);
    assert!(cpio_find(&archive, &b"ai.mod".to_vec()).is_none());

    let mut broken = archive.clone();
    broken[0] = b'x';
    assert!(cpio_find(&broken, &b"other.bin".to_vec()).is_none());

    assert!(cpio_find(&vec![0u8; 50], &b"ai.mod".to_vec()).is_none());
}

#[test]
fn ramfs_find_matches_exact_names_only() {
    let data = vec![7u8; 16];
    let archive = archive_with_entry(&b"boot/config".to_vec(), &data);
    let (off, size) = ramfs::find(&archive, &b"boot/config".to_vec()).unwrap();
    assert_eq!(size, 16);
    assert_eq!(&archive[off..off + size], &data[..]);
    assert!(ramfs::find(&archive, &b"config".to_vec()).is_none());

    // Unlike the model lookup, ramfs does not strip "./".
    let dotted = archive_with_entry(&b"./x".to_vec(), &data);
    assert!(ramfs::find(&dotted, &b"x".to_vec()).is_none());
}

#[test]
fn model_blob_is_located_and_validated() {
    // A valid model header as the file contents.
    let mut blob = Vec::new();
    blob.extend_from_slice(b"AIMD");
    blob.extend_from_slice(&1u16.to_le_bytes());
    blob.extend_from_slice(&4u16.to_le_bytes());
    blob.extend_from_slice(&0u32.to_le_bytes());
    blob.push(0);
    blob.extend_from_slice(&[0, 0, 0]);
    let archive = archive_with_entry(&b"ai.mod".to_vec(), &blob);
    let (off, len) = try_set_model_from_initrd(&archive).unwrap();
    assert_eq!(&archive[off..off + 4], b"AIMD");
    assert_eq!(off + len, archive.len());

    // A blob with a wrong magic is refused.
    let mut bad = blob.clone();
    bad[0] = b'X';
    let archive_bad = archive_with_entry(&b"ai.mod".to_vec(), &bad);
    assert!(try_set_model_from_initrd(&archive_bad).is_none());

    // No entry, no model.
    let other = archive_with_entry(&b"other".to_vec(), &blob);
    assert!(try_set_model_from_initrd(&other).is_none());
}

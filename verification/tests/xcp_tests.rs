use std::ops::Range;
use std::path::PathBuf;

use rustix::fd::OwnedFd;
use rustix::fs::{Mode, OFlags};

use xcp::{
    allocate_file, copy_bytes_batched, copy_bytes_uspace, copy_file_blocks, copy_file_bytes,
    copy_range_uspace, copy_permissions, copy_single_file, extents_of, is_same_file,
    merge_extents, plan_blocks, preflight, preflight_check, refusal_error, Config, DriverKind,
    Error, FileIds, PathFacts, Reflink, Refusal,
};

fn test_config() -> Config {
    Config {
        worker_count: 1,
        block_size: 32 * 1024,
        batch_size: 32 * 1024,
        reflink: Reflink::Never,
        follow_symlinks: false,
        preserve_xattr: true,
        no_clobber: false,
        recursive: false,
        channel_capacity: 16,
        driver: DriverKind::ParFile,
    }
}

fn open_for_write(path: &PathBuf) -> OwnedFd {
    rustix::fs::open(
        path,
        OFlags::WRONLY | OFlags::CREATE | OFlags::TRUNC,
        Mode::from_raw_mode(0o644),
    )
    .unwrap()
}

fn open_for_read(path: &PathBuf) -> OwnedFd {
    rustix::fs::open(path, OFlags::RDONLY, Mode::empty()).unwrap()
}

fn write_at(fd: &OwnedFd, data: &[u8], offset: u64) {
    let mut off: usize = 0;
    while off < data.len() {
        let n = rustix::io::pwrite(fd, &data[off..], offset + off as u64).unwrap();
        assert!(n > 0);
        off += n;
    }
}

fn write_whole(path: &PathBuf, data: &[u8]) {
    let fd = open_for_write(path);
    write_at(&fd, data, 0);
}

fn file_len(path: &PathBuf) -> u64 {
    rustix::fs::stat(path).unwrap().st_size as u64
}

fn read_whole(path: &PathBuf) -> Vec<u8> {
    let fd = open_for_read(path);
    let len = rustix::fs::fstat(&fd).unwrap().st_size as usize;
    let mut buf = vec![0u8; len];
    let mut off: usize = 0;
    while off < len {
        let n = rustix::io::pread(&fd, &mut buf[off..], off as u64).unwrap();
        assert!(n > 0);
        off += n;
    }
    buf
}

fn existing_file_facts(path: &PathBuf) -> PathFacts {
    let st = rustix::fs::stat(path).unwrap();
    PathFacts {
        exists: true,
        is_dir: false,
        ids: FileIds {
            dev: st.st_dev as u64,
            ino: st.st_ino as u64,
        },
    }
}

#[test]
fn test_extent_merge() {
    let empty: Vec<Range<u64>> = vec![];
    assert_eq!(merge_extents(empty).unwrap(), vec![]);
    assert_eq!(merge_extents(vec![0..1]).unwrap(), vec![0..1]);
    assert_eq!(merge_extents(vec![0..1, 10..20]).unwrap(), vec![0..1, 10..20]);
    assert_eq!(merge_extents(vec![0..10, 11..20]).unwrap(), vec![0..20]);
    assert_eq!(
        merge_extents(vec![0..5, 11..20, 21..30, 40..50]).unwrap(),
        vec![0..5, 11..30, 40..50]
    );
    assert_eq!(
        merge_extents(vec![0..5, 11..20, 21..30, 40..50, 51..60]).unwrap(),
        vec![0..5, 11..30, 40..60]
    );
    assert_eq!(
        merge_extents(vec![0..10, 11..20, 21..30, 31..50, 51..60]).unwrap(),
        vec![0..60]
    );
}

#[test]
fn test_extent_merge_idempotent_values() {
    let once = merge_extents(vec![0..5, 11..20, 21..30, 40..50]).unwrap();
    let twice = merge_extents(once.clone()).unwrap();
    assert_eq!(once, twice);
}

#[test]
fn test_plan_blocks_values() {
    let blocks = plan_blocks(&vec![0..10, 20..25], 4);
    assert_eq!(blocks, vec![0..4, 4..8, 8..10, 20..24, 24..25]);
    let empty: Vec<Range<u64>> = vec![];
    assert_eq!(plan_blocks(&empty, 4), empty);
}

#[test]
fn test_copy_bytes_uspace_large() {
    let dir = tempfile::tempdir().unwrap();
    let from = dir.path().join("from.bin");
    let to = dir.path().join("to.bin");
    let size = 128 * 1024;
    let data = "X".repeat(size);

    write_whole(&from, data.as_bytes());

    {
        let infd = open_for_read(&from);
        let outfd = open_for_write(&to);
        let written = copy_bytes_uspace(&infd, &outfd, size).unwrap();
        assert_eq!(written, size);
    }

    assert_eq!(file_len(&from), file_len(&to));

    let from_data = read_whole(&from);
    let to_data = read_whole(&to);
    assert_eq!(from_data, to_data);
}

#[test]
fn test_copy_range_uspace_large() {
    let dir = tempfile::tempdir().unwrap();
    let from = dir.path().join("from.bin");
    let to = dir.path().join("to.bin");
    let size = 128 * 1024;
    let data = "X".repeat(size);

    write_whole(&from, data.as_bytes());

    {
        let infd = open_for_read(&from);
        let outfd = open_for_write(&to);

        let blocksize = size / 4;
        let mut written = 0;

        for off in (0..4).rev() {
            written += copy_range_uspace(&infd, &outfd, blocksize, blocksize * off).unwrap();
        }

        assert_eq!(written, size);
    }

    assert_eq!(file_len(&from), file_len(&to));

    let from_data = read_whole(&from);
    let to_data = read_whole(&to);
    assert_eq!(from_data, to_data);
}

#[test]
fn test_copy_file_bytes_moves_content() {
    let dir = tempfile::tempdir().unwrap();
    let from = dir.path().join("from.bin");
    let to = dir.path().join("to.bin");
    let data: Vec<u8> = (0..4096u32).map(|i| (i % 251) as u8).collect();
    write_whole(&from, &data);
    let infd = open_for_read(&from);
    let outfd = open_for_write(&to);
    let written = copy_file_bytes(&infd, &outfd, 4096).unwrap();
    assert_eq!(written, 4096);
    assert_eq!(read_whole(&to), data);
}

#[test]
fn test_allocate_file_sets_length() {
    let dir = tempfile::tempdir().unwrap();
    let p = dir.path().join("alloc.bin");
    let fd = open_for_write(&p);
    allocate_file(&fd, 1000).unwrap();
    assert_eq!(file_len(&p), 1000);
    let data = read_whole(&p);
    assert!(data.iter().all(|b| *b == 0));
}

#[test]
fn test_zero_byte_copies_succeed() {
    let dir = tempfile::tempdir().unwrap();
    let from = dir.path().join("from.bin");
    let to = dir.path().join("to.bin");
    write_whole(&from, b"");
    let infd = open_for_read(&from);
    let outfd = open_for_write(&to);
    assert_eq!(copy_range_uspace(&infd, &outfd, 0, 0).unwrap(), 0);
    assert_eq!(copy_bytes_uspace(&infd, &outfd, 0).unwrap(), 0);
    assert_eq!(copy_file_bytes(&infd, &outfd, 0).unwrap(), 0);
    let events = copy_bytes_batched(&infd, &outfd, 0, 32).unwrap();
    assert!(events.is_empty());
    assert_eq!(file_len(&to), 0);
}

#[test]
fn test_copy_range_uspace_past_eof_is_eof() {
    let dir = tempfile::tempdir().unwrap();
    let from = dir.path().join("from.bin");
    let to = dir.path().join("to.bin");
    write_whole(&from, b"abc");
    let infd = open_for_read(&from);
    let outfd = open_for_write(&to);
    let r = copy_range_uspace(&infd, &outfd, 10, 0);
    assert!(matches!(r, Err(Error::UnexpectedEof)));
}

#[test]
fn test_copy_bytes_batched_events() {
    let dir = tempfile::tempdir().unwrap();
    let from = dir.path().join("from.bin");
    let to = dir.path().join("to.bin");
    let data = vec![0x41u8; 100];
    write_whole(&from, &data);
    let infd = open_for_read(&from);
    let outfd = open_for_write(&to);
    let events = copy_bytes_batched(&infd, &outfd, 100, 32).unwrap();
    assert_eq!(events, vec![32, 32, 32, 4]);
    let total: u64 = events.iter().sum();
    assert_eq!(total, 100);
    assert_eq!(read_whole(&to), data);
}

#[test]
fn test_copy_both_drivers_128k() {
    let dir = tempfile::tempdir().unwrap();
    let from = dir.path().join("from.bin");
    let data = vec![0x58u8; 128 * 1024];
    write_whole(&from, &data);
    let mut config = test_config();
    config.block_size = 32 * 1024;
    config.batch_size = 32 * 1024;

    let to_file = dir.path().join("to_file.bin");
    let events = copy_single_file(&from, &to_file, 128 * 1024, &config).unwrap();
    let total: u64 = events.iter().sum();
    assert_eq!(total, 131072);
    assert_eq!(file_len(&to_file), 131072);
    assert_eq!(read_whole(&to_file), data);

    let to_block = dir.path().join("to_block.bin");
    let (blocks, events) = copy_file_blocks(&from, &to_block, 128 * 1024, &config).unwrap();
    assert_eq!(blocks.len(), events.len());
    for (b, e) in blocks.iter().zip(events.iter()) {
        assert_eq!(b.end - b.start, *e);
    }
    let total: u64 = events.iter().sum();
    assert_eq!(total, 131072);
    assert_eq!(file_len(&to_block), 131072);
    assert_eq!(read_whole(&to_block), data);
}

#[test]
fn test_copy_sparse_file_blocks() {
    let dir = tempfile::tempdir().unwrap();
    let from = dir.path().join("sparse.bin");
    let total_len: u64 = 2_097_152;
    {
        let fd = open_for_write(&from);
        write_at(&fd, &vec![0x61u8; 4096], 0);
        write_at(&fd, &vec![0x62u8; 4096], 1_048_576);
        rustix::fs::ftruncate(&fd, total_len).unwrap();
    }
    assert_eq!(file_len(&from), total_len);

    let to = dir.path().join("sparse_copy.bin");
    let config = test_config();
    let (blocks, events) = copy_file_blocks(&from, &to, total_len, &config).unwrap();
    assert_eq!(blocks.len(), events.len());

    assert_eq!(file_len(&to), total_len);
    let out = read_whole(&to);
    assert_eq!(&out[..4096], &vec![0x61u8; 4096][..]);
    assert_eq!(&out[1_048_576..1_052_672], &vec![0x62u8; 4096][..]);
    assert!(out[4096..1_048_576].iter().all(|b| *b == 0));
    assert!(out[1_052_672..].iter().all(|b| *b == 0));
}

#[test]
fn test_extents_of_covers_written_data() {
    let dir = tempfile::tempdir().unwrap();
    let path = dir.path().join("sparse_probe.bin");
    let total_len: u64 = 2_097_152;
    {
        let fd = open_for_write(&path);
        write_at(&fd, &vec![0x61u8; 4096], 0);
        write_at(&fd, &vec![0x62u8; 4096], 1_048_576);
        rustix::fs::ftruncate(&fd, total_len).unwrap();
    }
    let fd = open_for_read(&path);
    let extents = extents_of(&fd, total_len).unwrap();
    assert!(!extents.is_empty());
    let covers = |x: u64| extents.iter().any(|e| e.start <= x && x < e.end);
    for x in [0u64, 4095, 1_048_576, 1_052_671] {
        assert!(covers(x));
    }
    for e in &extents {
        assert!(e.start < e.end && e.end <= total_len);
    }
}

#[test]
fn test_copy_single_file_no_clobber() {
    let dir = tempfile::tempdir().unwrap();
    let from = dir.path().join("from.bin");
    let to = dir.path().join("to.bin");
    write_whole(&from, b"fresh");
    write_whole(&to, b"already here");
    let mut config = test_config();
    config.no_clobber = true;
    let r = copy_single_file(&from, &to, 5, &config);
    assert!(matches!(r, Err(Error::InvalidDestination(_))));
    assert_eq!(read_whole(&to), b"already here".to_vec());
}

#[test]
fn test_copy_single_file_reflink_auto() {
    let dir = tempfile::tempdir().unwrap();
    let from = dir.path().join("from.bin");
    let to = dir.path().join("to.bin");
    let data = vec![0x59u8; 8192];
    write_whole(&from, &data);
    let mut config = test_config();
    config.reflink = Reflink::Auto;
    let events = copy_single_file(&from, &to, 8192, &config).unwrap();
    let total: u64 = events.iter().sum();
    assert_eq!(total, 8192);
    assert_eq!(read_whole(&to), data);
}

#[test]
fn test_copy_permissions_copies_mode() {
    let dir = tempfile::tempdir().unwrap();
    let from = dir.path().join("from.bin");
    let to = dir.path().join("to.bin");
    write_whole(&from, b"x");
    write_whole(&to, b"y");
    rustix::fs::chmod(&from, Mode::from_raw_mode(0o600)).unwrap();
    copy_permissions(&from, &to).unwrap();
    let mode = rustix::fs::stat(&to).unwrap().st_mode;
    assert_eq!(mode & 0o777, 0o600);
}

#[test]
fn test_copy_xattr_roundtrip_when_supported() {
    let dir = tempfile::tempdir().unwrap();
    let from = dir.path().join("from.bin");
    let to = dir.path().join("to.bin");
    write_whole(&from, b"x");
    write_whole(&to, b"y");
    if xattr::set(&from, "user.demo", b"value").is_ok() {
        copy_permissions(&from, &to).unwrap();
        let got = xattr::get(&to, "user.demo").unwrap();
        assert_eq!(got, Some(b"value".to_vec()));
    }
}

#[test]
fn test_is_same_file_reflexive() {
    let dir = tempfile::tempdir().unwrap();
    let p = dir.path().join("p.bin");
    write_whole(&p, b"data");
    assert!(is_same_file(&p, &p).unwrap());
}

#[test]
fn test_is_same_file_distinct() {
    let dir = tempfile::tempdir().unwrap();
    let a = dir.path().join("a.bin");
    let b = dir.path().join("b.bin");
    write_whole(&a, b"one");
    write_whole(&b, b"two");
    assert!(!is_same_file(&a, &b).unwrap());
}

#[test]
fn test_is_same_file_missing_is_error() {
    let dir = tempfile::tempdir().unwrap();
    let a = dir.path().join("a.bin");
    write_whole(&a, b"one");
    let missing = dir.path().join("missing.bin");
    assert!(matches!(is_same_file(&a, &missing), Err(Error::Io(_))));
}

#[test]
fn test_preflight_many_sources_non_dir_dest() {
    let src = PathFacts {
        exists: true,
        is_dir: false,
        ids: FileIds { dev: 1, ino: 10 },
    };
    let other = PathFacts {
        exists: true,
        is_dir: false,
        ids: FileIds { dev: 1, ino: 11 },
    };
    let dest = PathFacts {
        exists: true,
        is_dir: false,
        ids: FileIds { dev: 1, ino: 12 },
    };
    let config = test_config();
    let r = preflight(&vec![src, other], &dest, &config);
    assert!(matches!(r, Err(Error::InvalidDestination(_))));
    assert_eq!(
        preflight_check(&vec![src, other], &dest, &config),
        Some(Refusal::ManySourcesNonDirectory)
    );
}

#[test]
fn test_preflight_same_file() {
    let dir = tempfile::tempdir().unwrap();
    let p = dir.path().join("p.bin");
    write_whole(&p, b"data");
    let facts = existing_file_facts(&p);
    let config = test_config();
    let r = preflight(&vec![facts], &facts, &config);
    assert!(matches!(r, Err(Error::InvalidDestination(_))));
    assert_eq!(
        preflight_check(&vec![facts], &facts, &config),
        Some(Refusal::SameFile)
    );
}

#[test]
fn test_preflight_directory_source_not_recursive() {
    let src = PathFacts {
        exists: true,
        is_dir: true,
        ids: FileIds { dev: 1, ino: 10 },
    };
    let dest = PathFacts {
        exists: false,
        is_dir: false,
        ids: FileIds { dev: 0, ino: 0 },
    };
    let mut config = test_config();
    config.recursive = false;
    let r = preflight(&vec![src], &dest, &config);
    assert!(matches!(r, Err(Error::InvalidSource(_))));
    assert_eq!(
        preflight_check(&vec![src], &dest, &config),
        Some(Refusal::SourceIsDirectory)
    );
    config.recursive = true;
    assert_eq!(preflight_check(&vec![src], &dest, &config), None);
}

#[test]
fn test_preflight_missing_source() {
    let src = PathFacts {
        exists: false,
        is_dir: false,
        ids: FileIds { dev: 0, ino: 0 },
    };
    let dest = PathFacts {
        exists: false,
        is_dir: false,
        ids: FileIds { dev: 0, ino: 0 },
    };
    let config = test_config();
    assert!(matches!(
        preflight(&vec![src], &dest, &config),
        Err(Error::InvalidSource(_))
    ));
}

#[test]
fn test_preflight_no_sources() {
    let dest = PathFacts {
        exists: false,
        is_dir: false,
        ids: FileIds { dev: 0, ino: 0 },
    };
    let config = test_config();
    assert!(matches!(
        preflight(&Vec::new(), &dest, &config),
        Err(Error::InvalidArguments(_))
    ));
}

#[test]
fn test_preflight_dest_exists_no_clobber() {
    let src = PathFacts {
        exists: true,
        is_dir: false,
        ids: FileIds { dev: 1, ino: 10 },
    };
    let dest = PathFacts {
        exists: true,
        is_dir: false,
        ids: FileIds { dev: 1, ino: 11 },
    };
    let mut config = test_config();
    config.no_clobber = true;
    assert_eq!(
        preflight_check(&vec![src], &dest, &config),
        Some(Refusal::DestinationExists)
    );
    assert!(matches!(
        preflight(&vec![src], &dest, &config),
        Err(Error::InvalidDestination(_))
    ));
    config.no_clobber = false;
    assert_eq!(preflight_check(&vec![src], &dest, &config), None);
}

#[test]
fn test_refusal_error_kinds() {
    assert!(matches!(
        refusal_error(Refusal::NoSources),
        Error::InvalidArguments(_)
    ));
    assert!(matches!(
        refusal_error(Refusal::SourceMissing),
        Error::InvalidSource(_)
    ));
    assert!(matches!(
        refusal_error(Refusal::SameFile),
        Error::InvalidDestination(_)
    ));
}

#[test]
fn test_open_missing_source_is_io_error() {
    let dir = tempfile::tempdir().unwrap();
    let missing = dir.path().join("missing.bin");
    let config = test_config();
    let to = dir.path().join("to.bin");
    assert!(matches!(
        copy_single_file(&missing, &to, 1, &config),
        Err(Error::Io(_))
    ));
}

use kernel::abi::{EEXIST, EISDIR, ENODEV, ENOENT, ENOTDIR, EINVAL, S_IFDIR, S_IFREG};
use kernel::vfs::dirent::create_dirent;
use kernel::vfs::path::{normalize_path, resolve_parent_and_basename_with_cwd, resolve_path_with_cwd};
use kernel::vfs::ramfs::{InodeKind, RamFs};
use kernel::vfs::tar::{parse_octal, unpack_tar_archive};

fn v(s: &str) -> Vec<u8> {
    s.as_bytes().to_vec()
}

#[test]
fn normalize_paths() {
    assert_eq!(normalize_path(&v("/"), &v("a/b")), v("/a/b"));
    assert_eq!(normalize_path(&v("/home"), &v("docs/../x/./y")), v("/home/x/y"));
    assert_eq!(normalize_path(&v("/home"), &v("/etc//motd/")), v("/etc/motd"));
    assert_eq!(normalize_path(&v("/a"), &v("../../..")), v("/"));
    assert_eq!(normalize_path(&v("/"), &v("")), v("/"));
}

fn sample_fs() -> (RamFs, usize, usize, usize) {
    let mut fs = RamFs::new();
    let root = fs.new_dir();
    let etc = fs.new_dir();
    fs.add_child(root, &v("etc"), etc);
    let motd = fs.create_file(etc, &v("motd"), 0o644, 0, 0).unwrap();
    (fs, root, etc, motd)
}

#[test]
fn ramfs_files_read_write_stat() {
    let (mut fs, root, etc, motd) = sample_fs();
    assert_eq!(fs.lookup(etc, &v("motd")), Ok(motd));
    assert_eq!(fs.lookup(etc, &v("none")), Err(ENOENT));
    assert_eq!(fs.create_file(etc, &v("motd"), 0o600, 1, 1), Ok(motd));
    assert_eq!(fs.write(motd, 0, &v("hello")), Ok(5));
    assert_eq!(fs.write(motd, 7, &v("!")), Ok(1));
    let st = fs.stat(motd);
    assert_eq!(st.st_mode, S_IFREG | 0o644);
    assert_eq!(st.st_size, 8);
    let mut buf = vec![9u8; 10];
    assert_eq!(fs.read(motd, 0, &mut buf), Ok(8));
    assert_eq!(&buf[..8], b"hello\0\0!");
    assert_eq!(buf[8], 9);
    assert_eq!(fs.read(motd, 100, &mut buf), Ok(0));
    assert_eq!(fs.read(root, 0, &mut buf), Err(EISDIR));
    assert_eq!(fs.stat(root).st_mode, S_IFDIR | 0o755);
    fs.truncate(motd);
    assert_eq!(fs.stat(motd).st_size, 0);
    assert_eq!(fs.kind_of(motd), InodeKind::RegularFile);
}

#[test]
fn ramfs_unlink_and_create_dir() {
    let (mut fs, root, etc, motd) = sample_fs();
    assert_eq!(fs.create_file(motd, &v("x"), 0o644, 0, 0), Err(ENOTDIR));
    let tmp = fs.create_dir(root, &v("tmp"), 0o777, 0, 0).unwrap();
    assert_eq!(fs.create_dir(root, &v("tmp"), 0o777, 0, 0), Err(EEXIST));
    assert_eq!(fs.lookup(root, &v("tmp")), Ok(tmp));
    assert_eq!(fs.entry_count(root), 2);
    assert_eq!(fs.unlink(etc, &v("motd")), Ok(()));
    assert_eq!(fs.unlink(etc, &v("motd")), Err(ENOENT));
    assert_eq!(fs.entry_count(etc), 0);
}

#[test]
fn ramfs_readdir_sorted() {
    let (mut fs, root, _etc, _motd) = sample_fs();
    fs.create_file(root, &v("b"), 0o644, 0, 0).unwrap();
    fs.create_file(root, &v("a"), 0o644, 0, 0).unwrap();
    let ents = fs.readdir(root).unwrap();
    let names: Vec<Vec<u8>> = ents
        .iter()
        .map(|d| d.d_name.iter().take_while(|&&b| b != 0).cloned().collect())
        .collect();
    assert_eq!(names, vec![v("a"), v("b"), v("etc")]);
}

#[test]
fn ramfs_rename_moves_entry() {
    let (mut fs, root, etc, motd) = sample_fs();
    assert_eq!(fs.rename(etc, &v("motd"), root, &v("welcome")), Ok(()));
    assert_eq!(fs.lookup(root, &v("welcome")), Ok(motd));
    assert_eq!(fs.lookup(etc, &v("motd")), Err(ENOENT));
}

#[test]
fn path_resolution() {
    let (fs, root, etc, motd) = sample_fs();
    assert_eq!(resolve_path_with_cwd(&fs, Some(root), &v("/"), &v("/etc/motd")), Ok(motd));
    assert_eq!(resolve_path_with_cwd(&fs, Some(root), &v("/etc"), &v("motd")), Ok(motd));
    assert_eq!(resolve_path_with_cwd(&fs, Some(root), &v("/"), &v("/")), Ok(root));
    assert_eq!(resolve_path_with_cwd(&fs, Some(root), &v("/"), &v("/nope")), Err(ENOENT));
    assert_eq!(resolve_path_with_cwd(&fs, None, &v("/"), &v("/etc")), Err(ENODEV));
    let (parent, base) = resolve_parent_and_basename_with_cwd(&fs, Some(root), &v("/"), &v("/etc/new")).unwrap();
    assert_eq!((parent, base), (etc, v("new")));
    assert!(matches!(resolve_parent_and_basename_with_cwd(&fs, Some(root), &v("/"), &v("/")), Err(e) if e == EINVAL));
}

#[test]
fn dirent_name_is_truncated_and_terminated() {
    let d = create_dirent(&v("motd"), 8);
    assert_eq!(d.d_type, 8);
    assert_eq!(&d.d_name[..5], b"motd\0");
    let long = vec![b'x'; 300];
    let d = create_dirent(&long, 4);
    assert_eq!(d.d_name[254], b'x');
    assert_eq!(d.d_name[255], 0);
}

#[test]
fn octal_fields() {
    assert_eq!(parse_octal(b"0000644\0"), 0o644);
    assert_eq!(parse_octal(b"00000000012 "), 10);
    assert_eq!(parse_octal(b"7x7"), 0o77);
    assert_eq!(parse_octal(b""), 0);
}

fn header(name: &str, size: usize, typeflag: u8) -> Vec<u8> {
    let mut h = vec![0u8; 512];
    h[..name.len()].copy_from_slice(name.as_bytes());
    let sz = format!("{:011o}", size);
    h[124..135].copy_from_slice(sz.as_bytes());
    h[156] = typeflag;
    h
}

fn archive(entries: &[(&str, &[u8], u8)]) -> Vec<u8> {
    let mut out = Vec::new();
    for (name, data, t) in entries {
        out.extend(header(name, data.len(), *t));
        let mut d = data.to_vec();
        while d.len() % 512 != 0 {
            d.push(0);
        }
        out.extend(d);
    }
    out.extend(vec![0u8; 1024]);
    out
}

#[test]
fn tar_unpacks_files_and_dirs() {
    let mut fs = RamFs::new();
    let root = fs.new_dir();
    let tar = archive(&[("bin/", &b""[..], b'5'), ("bin/init", &b"\x7fELF"[..], b'0'), ("etc/motd", &b"hi"[..], b'0')]);
    assert_eq!(unpack_tar_archive(&tar, &mut fs, root), Ok(2));
    let bin = fs.lookup(root, &v("bin")).unwrap();
    let init = fs.lookup(bin, &v("init")).unwrap();
    let mut buf = vec![0u8; 4];
    assert_eq!(fs.read(init, 0, &mut buf), Ok(4));
    assert_eq!(buf, b"\x7fELF".to_vec());
    let etc = fs.lookup(root, &v("etc")).unwrap();
    let motd = fs.lookup(etc, &v("motd")).unwrap();
    assert_eq!(fs.stat(motd).st_size, 2);
}

#[test]
fn tar_truncated_payload_is_refused() {
    let mut fs = RamFs::new();
    let root = fs.new_dir();
    let mut tar = header("big", 4096, b'0');
    tar.extend(vec![1u8; 100]);
    assert_eq!(unpack_tar_archive(&tar, &mut fs, root), Err("Tar file entry payload truncated"));
}

#[test]
fn tar_bad_utf8_name_is_refused() {
    let mut fs = RamFs::new();
    let root = fs.new_dir();
    let mut tar = header("x", 0, b'0');
    tar[0] = 0xFF;
    assert_eq!(unpack_tar_archive(&tar, &mut fs, root), Err("Invalid UTF-8 filename in tar"));
}

#[test]
fn tar_empty_archive() {
    let mut fs = RamFs::new();
    let root = fs.new_dir();
    assert_eq!(unpack_tar_archive(&[0u8; 1024], &mut fs, root), Ok(0));
    assert_eq!(unpack_tar_archive(&[], &mut fs, root), Ok(0));
}

#[test]
fn rename_onto_a_sibling_lists_one_entry() {
    let mut fs = RamFs::new();
    let d = fs.new_dir();
    let a = fs.new_file(vec![1]);
    let b = fs.new_file(vec![2]);
    fs.add_child(d, &v("a"), a);
    fs.add_child(d, &v("b"), b);
    assert_eq!(fs.readdir(d).unwrap().len(), 2);
    assert_eq!(fs.rename(d, &v("a"), d, &v("b")), Ok(()));
    assert_eq!(fs.entry_count(d), 1);
    assert_eq!(fs.lookup(d, &v("a")), Err(ENOENT));
    let found = fs.lookup(d, &v("b")).unwrap();
    let mut buf = vec![0u8; 4];
    assert_eq!(fs.read(found, 0, &mut buf), Ok(1));
    assert_eq!(buf[0], 1);
    let list = fs.readdir(d).unwrap();
    assert_eq!(list.len(), 1);
    assert_eq!(list[0].d_name, create_dirent(&v("b"), 8).d_name);
}

use capfs::errno::Errno;
use capfs::open_scratch_directory;
use capfs::fileops::{WHENCE_CUR, WHENCE_SET};
use capfs::fs::{FileType, WasiCtx};
use capfs::layout::ReadDir;
use capfs::open::{LOOKUP_SYMLINK_FOLLOW, O_CREAT, O_DIRECTORY, O_TRUNC};
use capfs::rights::{
    RIGHT_FD_FILESTAT_SET_SIZE, RIGHT_FD_READ, RIGHT_FD_SEEK,
    RIGHT_FD_WRITE, RIGHT_PATH_FILESTAT_GET, RIGHT_PATH_FILESTAT_SET_SIZE,
};
use capfs::stat::{FileStat, FILESTAT_SET_MTIM, FILESTAT_SET_MTIM_NOW};
use capfs::table::FdStat;
use capfs::utils::{cleanup_dir, cleanup_file, close_fd, create_dir, create_file};
use capfs::wasi_wrappers::{
    wasi_clock_time_get, wasi_fd_allocate, wasi_fd_close, wasi_fd_fdstat_get, wasi_fd_fdstat_set_rights,
    wasi_fd_filestat_get, wasi_fd_filestat_set_size, wasi_fd_filestat_set_times, wasi_fd_pread, wasi_fd_pwrite,
    wasi_fd_read, wasi_fd_readdir, wasi_fd_renumber, wasi_fd_seek, wasi_fd_tell, wasi_fd_write,
    wasi_path_filestat_get, wasi_path_filestat_set_times, wasi_path_open, wasi_path_readlink,
    wasi_path_remove_directory, wasi_path_rename, wasi_path_symlink, wasi_path_unlink_file, wasi_sched_yield,
};

const STDERR_FILENO: u32 = 2;

/// A fresh layer and a descriptor for its scratch directory, opened through
/// the preopened root.
fn scratch() -> (WasiCtx, u32) {
    let mut ctx = WasiCtx::new();
    let dir_fd = match open_scratch_directory(&mut ctx, ".") {
        Ok(dir_fd) => dir_fd,
        Err(err) => panic!("opening the scratch directory: {:?}", err),
    };
    (ctx, dir_fd)
}

fn zero_fdstat() -> FdStat {
    FdStat { fs_filetype: FileType::Unknown, fs_flags: 0, fs_rights_base: 0, fs_rights_inheriting: 0 }
}

fn zero_filestat() -> FileStat {
    FileStat {
        st_dev: 0,
        st_ino: 0,
        st_filetype: FileType::Unknown,
        st_nlink: 0,
        st_size: 0,
        st_atim: 0,
        st_mtim: 0,
        st_ctim: 0,
    }
}

#[test]
fn test_sched_yield() {
    let status = wasi_sched_yield();
    assert_eq!(status, Errno::Success, "sched_yield");
}

#[test]
fn test_truncation_rights() {
    let (mut ctx, dir_fd) = scratch();
    let mut file_fd = u32::MAX - 1;
    let mut status = wasi_path_open(&mut ctx, dir_fd, 0, "file", O_CREAT, 0, 0, 0, &mut file_fd);
    assert_eq!(status, Errno::Success, "opening a file");
    assert!(file_fd > STDERR_FILENO, "file descriptor range check");
    close_fd(&mut ctx, file_fd);

    let mut dir_fdstat = zero_fdstat();
    status = wasi_fd_fdstat_get(&ctx, dir_fd, &mut dir_fdstat);
    assert_eq!(status, Errno::Success, "calling fd_fdstat on the scratch directory");
    assert!(dir_fdstat.fs_filetype == FileType::Directory, "expected the scratch directory to be a directory");
    assert!(dir_fdstat.fs_flags == 0, "expected the scratch directory to have no special flags");
    if (dir_fdstat.fs_rights_base & RIGHT_PATH_FILESTAT_SET_SIZE) == 0 {
        println!("implementation doesn't support setting file sizes, skipping");
    } else {
        status = wasi_path_open(&mut ctx, dir_fd, 0, "file", O_TRUNC, 0, 0, 0, &mut file_fd);
        assert_eq!(status, Errno::Success, "truncating a file");
        close_fd(&mut ctx, file_fd);

        let mut rights_base = dir_fdstat.fs_rights_base;
        let mut rights_inheriting = dir_fdstat.fs_rights_inheriting;

        if (rights_inheriting & RIGHT_FD_FILESTAT_SET_SIZE) == 0 {
            println!("implementation doesn't support setting file sizes through file descriptors, skipping");
        } else {
            rights_inheriting &= !RIGHT_FD_FILESTAT_SET_SIZE;
            status = wasi_fd_fdstat_set_rights(&mut ctx, dir_fd, rights_base, rights_inheriting);
            assert_eq!(status, Errno::Success, "droping fd_filestat_set_size inheriting right on a directory");
        }

        status = wasi_path_open(&mut ctx, dir_fd, 0, "file", O_TRUNC, 0, 0, 0, &mut file_fd);
        assert_eq!(status, Errno::Success, "truncating a file without fd_filestat_set_size right");
        close_fd(&mut ctx, file_fd);

        rights_base &= !RIGHT_PATH_FILESTAT_SET_SIZE;
        status = wasi_fd_fdstat_set_rights(&mut ctx, dir_fd, rights_base, rights_inheriting);
        assert_eq!(status, Errno::Success, "droping path_filestat_set_size base right on a directory");

        status = wasi_fd_fdstat_get(&ctx, dir_fd, &mut dir_fdstat);
        assert_eq!(status, Errno::Success, "reading the fdstat from a directory");
        assert_eq!(
            dir_fdstat.fs_rights_base & RIGHT_PATH_FILESTAT_SET_SIZE,
            0,
            "reading the fdstat from a directory"
        );

        status = wasi_path_open(&mut ctx, dir_fd, 0, "file", O_TRUNC, 0, 0, 0, &mut file_fd);
        assert_eq!(status, Errno::NotCapable, "truncating a file without path_filestat_set_size right");
        assert_eq!(file_fd, u32::MAX, "failed open should set the file descriptor to -1");
    }

    cleanup_file(&mut ctx, dir_fd, "file");
}

#[test]
fn test_unlink_directory() {
    let (mut ctx, dir_fd) = scratch();
    create_dir(&mut ctx, dir_fd, "dir");
    let status = wasi_path_unlink_file(&mut ctx, dir_fd, "dir");
    assert_eq!(status, Errno::IsDir, "unlink_file on a directory should fail");
    cleanup_dir(&mut ctx, dir_fd, "dir");
}

#[test]
fn test_remove_nonempty_directory() {
    let (mut ctx, dir_fd) = scratch();
    create_dir(&mut ctx, dir_fd, "dir");
    create_dir(&mut ctx, dir_fd, "dir/nested");
    let mut status = wasi_path_remove_directory(&mut ctx, dir_fd, "dir");
    assert_eq!(status, Errno::NotEmpty, "remove_directory on a directory should return ENOTEMPTY");
    status = wasi_path_remove_directory(&mut ctx, dir_fd, "dir/nested");
    assert_eq!(status, Errno::Success, "remove_directory on a nested directory should succeed");
    cleanup_dir(&mut ctx, dir_fd, "dir");
}

#[test]
fn test_interesting_paths() {
    let (mut ctx, dir_fd) = scratch();
    let arg = "scratch";
    create_dir(&mut ctx, dir_fd, "dir");
    create_dir(&mut ctx, dir_fd, "dir/nested");

    let mut file_fd = u32::MAX - 1;
    let mut status = wasi_path_open(&mut ctx, dir_fd, 0, "dir/nested/file", O_CREAT, 0, 0, 0, &mut file_fd);
    assert_eq!(status, Errno::Success, "opening a file");
    assert!(file_fd > STDERR_FILENO, "file descriptor range check");
    close_fd(&mut ctx, file_fd);

    status = wasi_path_open(&mut ctx, dir_fd, 0, "/dir/nested/file", 0, 0, 0, 0, &mut file_fd);
    assert_eq!(status, Errno::NotCapable, "opening a file with an absolute path");
    assert_eq!(file_fd, u32::MAX, "failed open should set the file descriptor to -1");

    status = wasi_path_open(
        &mut ctx,
        dir_fd,
        0,
        "dir/.//nested/../../dir/nested/../nested///./file",
        0,
        0,
        0,
        0,
        &mut file_fd,
    );
    assert_eq!(status, Errno::Success, "opening a file with \"..\" in the path");
    assert!(file_fd > STDERR_FILENO, "file descriptor range check");
    close_fd(&mut ctx, file_fd);

    status = wasi_path_open(&mut ctx, dir_fd, 0, "dir/nested/file\0", 0, 0, 0, 0, &mut file_fd);
    assert_eq!(status, Errno::IllegalSequence, "opening a file with a trailing NUL");
    assert_eq!(file_fd, u32::MAX, "failed open should set the file descriptor to -1");

    status = wasi_path_open(&mut ctx, dir_fd, 0, "dir/nested/file/", 0, 0, 0, 0, &mut file_fd);
    assert_eq!(status, Errno::NotDir, "opening a file with a trailing slash");
    assert_eq!(file_fd, u32::MAX, "failed open should set the file descriptor to -1");

    status = wasi_path_open(&mut ctx, dir_fd, 0, "dir/nested/file///", 0, 0, 0, 0, &mut file_fd);
    assert_eq!(status, Errno::NotDir, "opening a file with trailing slashes");
    assert_eq!(file_fd, u32::MAX, "failed open should set the file descriptor to -1");

    status = wasi_path_open(&mut ctx, dir_fd, 0, "dir/nested/", 0, 0, 0, 0, &mut file_fd);
    assert_eq!(status, Errno::Success, "opening a directory with a trailing slash");
    assert!(file_fd > STDERR_FILENO, "file descriptor range check");
    close_fd(&mut ctx, file_fd);

    status = wasi_path_open(&mut ctx, dir_fd, 0, "dir/nested///", 0, 0, 0, 0, &mut file_fd);
    assert_eq!(status, Errno::Success, "opening a directory with trailing slashes");
    assert!(file_fd > STDERR_FILENO, "file descriptor range check");
    close_fd(&mut ctx, file_fd);

    let bad_path = format!("dir/nested/../../../{}/dir/nested/file", arg);
    status = wasi_path_open(&mut ctx, dir_fd, 0, &bad_path, 0, 0, 0, 0, &mut file_fd);
    assert_eq!(status, Errno::NotCapable, "opening a file with too many \"..\"s in the path");
    assert_eq!(file_fd, u32::MAX, "failed open should set the file descriptor to -1");

    status = wasi_path_unlink_file(&mut ctx, dir_fd, "dir/nested/file");
    assert_eq!(status, Errno::Success, "unlink_file on a symlink should succeed");
    status = wasi_path_remove_directory(&mut ctx, dir_fd, "dir/nested");
    assert_eq!(status, Errno::Success, "remove_directory on a directory should succeed");
    status = wasi_path_remove_directory(&mut ctx, dir_fd, "dir");
    assert_eq!(status, Errno::Success, "remove_directory on a directory should succeed");
}

#[test]
fn test_symlink_loop() {
    let (mut ctx, dir_fd) = scratch();
    let mut status = wasi_path_symlink(&mut ctx, "symlink", dir_fd, "symlink");
    assert_eq!(status, Errno::Success, "creating a symlink");
    let mut file_fd = u32::MAX - 1;
    status = wasi_path_open(&mut ctx, dir_fd, 0, "symlink", 0, 0, 0, 0, &mut file_fd);
    assert_eq!(status, Errno::Loop, "opening a self-referencing symlink");
    cleanup_file(&mut ctx, dir_fd, "symlink");
}

#[test]
fn test_nofollow_errors() {
    let (mut ctx, dir_fd) = scratch();
    let mut status = wasi_path_symlink(&mut ctx, "target", dir_fd, "symlink");
    assert_eq!(status, Errno::Success, "creating a symlink");

    let mut file_fd = u32::MAX - 1;
    status = wasi_path_open(&mut ctx, dir_fd, 0, "symlink", O_DIRECTORY, 0, 0, 0, &mut file_fd);
    assert_eq!(status, Errno::Loop, "opening a dangling symlink as a directory");
    assert_eq!(file_fd, u32::MAX, "failed open should set the file descriptor to -1");

    create_dir(&mut ctx, dir_fd, "target");

    status = wasi_path_open(&mut ctx, dir_fd, 0, "symlink", O_DIRECTORY, 0, 0, 0, &mut file_fd);
    assert_eq!(status, Errno::Loop, "opening a directory symlink as a directory");
    assert_eq!(file_fd, u32::MAX, "failed open should set the file descriptor to -1");

    status = wasi_path_open(&mut ctx, dir_fd, 0, "symlink", 0, 0, 0, 0, &mut file_fd);
    assert_eq!(status, Errno::Loop, "opening a symlink with O_NOFOLLOW should return ELOOP");
    assert_eq!(file_fd, u32::MAX, "failed open should set the file descriptor to -1");

    status = wasi_path_open(&mut ctx, dir_fd, LOOKUP_SYMLINK_FOLLOW, "symlink", O_DIRECTORY, 0, 0, 0, &mut file_fd);
    assert_eq!(status, Errno::Success, "opening a symlink as a directory");
    assert!(file_fd > STDERR_FILENO, "file descriptor range check");
    close_fd(&mut ctx, file_fd);

    status = wasi_path_remove_directory(&mut ctx, dir_fd, "target");
    assert_eq!(status, Errno::Success, "remove_directory on a directory should succeed");
    status = wasi_path_open(&mut ctx, dir_fd, 0, "target", O_CREAT, 0, 0, 0, &mut file_fd);
    assert_eq!(status, Errno::Success, "opening a file");
    assert!(file_fd > STDERR_FILENO, "file descriptor range check");
    close_fd(&mut ctx, file_fd);

    status = wasi_path_open(&mut ctx, dir_fd, 0, "symlink", O_DIRECTORY, 0, 0, 0, &mut file_fd);
    assert_eq!(status, Errno::Loop, "opening a directory symlink as a directory");
    assert_eq!(file_fd, u32::MAX, "failed open should set the file descriptor to -1");

    status = wasi_path_open(&mut ctx, dir_fd, 0, "symlink", 0, 0, 0, 0, &mut file_fd);
    assert_eq!(status, Errno::Loop, "opening a symlink with O_NOFOLLOW should return ELOOP");
    assert_eq!(file_fd, u32::MAX, "failed open should set the file descriptor to -1");

    status = wasi_path_open(&mut ctx, dir_fd, LOOKUP_SYMLINK_FOLLOW, "symlink", O_DIRECTORY, 0, 0, 0, &mut file_fd);
    assert_eq!(status, Errno::NotDir, "opening a symlink to a file as a directory");
    assert_eq!(file_fd, u32::MAX, "failed open should set the file descriptor to -1");

    cleanup_file(&mut ctx, dir_fd, "target");
    cleanup_file(&mut ctx, dir_fd, "symlink");
}

#[test]
fn test_close_preopen() {
    let (mut ctx, dir_fd) = scratch();
    let pre_fd = STDERR_FILENO + 1;
    assert!(dir_fd > pre_fd, "dir_fd number");

    let mut status = wasi_fd_close(&mut ctx, pre_fd);
    assert_eq!(status, Errno::NotSupported, "closing a preopened file descriptor");

    status = wasi_fd_renumber(&mut ctx, dir_fd, pre_fd);
    assert_eq!(status, Errno::NotSupported, "renumbering over a preopened file descriptor");

    let mut dir_fdstat = zero_fdstat();
    status = wasi_fd_fdstat_get(&ctx, dir_fd, &mut dir_fdstat);
    assert_eq!(status, Errno::Success, "calling fd_fdstat on the scratch directory");
    assert!(dir_fdstat.fs_filetype == FileType::Directory, "expected the scratch directory to be a directory");

    status = wasi_fd_renumber(&mut ctx, pre_fd, dir_fd);
    assert_eq!(status, Errno::NotSupported, "renumbering over a preopened file descriptor");

    status = wasi_fd_fdstat_get(&ctx, dir_fd, &mut dir_fdstat);
    assert_eq!(status, Errno::Success, "calling fd_fdstat on the scratch directory");
    assert!(dir_fdstat.fs_filetype == FileType::Directory, "expected the scratch directory to be a directory");

    status = wasi_fd_fdstat_get(&ctx, pre_fd, &mut dir_fdstat);
    assert_eq!(status, Errno::Success, "the preopened directory stays open");
    assert!(dir_fdstat.fs_filetype == FileType::Directory);
}

#[test]
fn test_clock_time_get() {
    let mut time: u64 = 0;
    let mut status = wasi_clock_time_get(1, 0, &mut time);
    assert_eq!(status, Errno::Success, "clock_time_get with a precision of 0");
    status = wasi_clock_time_get(1, 1, &mut time);
    assert_eq!(status, Errno::Success, "clock_time_get with a precision of 1");
}

#[test]
fn test_readlink_no_buffer() {
    let (mut ctx, dir_fd) = scratch();
    let mut status = wasi_path_symlink(&mut ctx, "target", dir_fd, "symlink");
    assert_eq!(status, Errno::Success, "creating a symlink");
    let mut bufused: usize = 1;
    status = wasi_path_readlink(&ctx, dir_fd, "symlink", &mut [], &mut bufused);
    assert_eq!(status, Errno::Success, "readlink with a 0-sized buffer should succeed");
    assert_eq!(bufused, 0);
    cleanup_file(&mut ctx, dir_fd, "symlink");
}

#[test]
fn test_isatty() {
    let (mut ctx, dir_fd) = scratch();
    let mut file_fd = u32::MAX - 1;
    let status = wasi_path_open(&mut ctx, dir_fd, 0, "file", O_CREAT, 0, 0, 0, &mut file_fd);
    assert_eq!(status, Errno::Success, "opening a file");
    assert!(file_fd > STDERR_FILENO, "file descriptor range check");
    assert_eq!(ctx.isatty(file_fd), Ok(false), "file is a tty");
    close_fd(&mut ctx, file_fd);
    cleanup_file(&mut ctx, dir_fd, "file");
}

#[test]
fn test_directory_seek() {
    let (mut ctx, dir_fd) = scratch();
    create_dir(&mut ctx, dir_fd, "dir");
    let mut fd = u32::MAX - 1;
    let mut status = wasi_path_open(&mut ctx, dir_fd, 0, "dir", 0, RIGHT_FD_SEEK, 0, 0, &mut fd);
    assert_eq!(status, Errno::Success, "opening a file");
    assert!(fd > STDERR_FILENO, "file descriptor range check");

    let mut newoffset = 1;
    status = wasi_fd_seek(&mut ctx, fd, 0, WHENCE_CUR, &mut newoffset);
    assert_eq!(status, Errno::NotCapable, "seek on a directory");

    let mut fdstat = zero_fdstat();
    status = wasi_fd_fdstat_get(&ctx, fd, &mut fdstat);
    assert_eq!(status, Errno::Success, "calling fd_fdstat on a directory");
    assert!(fdstat.fs_filetype == FileType::Directory, "expected the scratch directory to be a directory");
    assert_eq!(fdstat.fs_rights_base & RIGHT_FD_SEEK, 0, "directory has the seek right");

    close_fd(&mut ctx, fd);
    cleanup_dir(&mut ctx, dir_fd, "dir");
}

/// Names and headers of the entries in a readdir buffer, sorted by name.
fn read_entries(buf: &[u8]) -> Vec<(String, capfs::layout::Dirent)> {
    let mut rd = ReadDir::from_slice(buf);
    let mut out = Vec::new();
    while let Some(e) = rd.next() {
        out.push((String::from_utf8(e.name).expect("invalid utf8"), e.dirent));
    }
    out.sort_by_key(|d| d.0.clone());
    out
}

#[test]
fn test_fd_readdir() {
    let (mut ctx, dir_fd) = scratch();
    let mut stat = zero_filestat();
    let status = wasi_fd_filestat_get(&ctx, dir_fd, &mut stat);
    assert_eq!(status, Errno::Success, "reading scratch directory stats");

    let mut buf = [0u8; 256];
    let mut bufused = 0;
    let status = wasi_fd_readdir(&ctx, dir_fd, &mut buf, 256, 0, &mut bufused);
    assert_eq!(status, Errno::Success, "fd_readdir");
    let dirs = read_entries(&buf[..bufused.min(256)]);
    assert_eq!(dirs.len(), 2, "expected two entries in an empty directory");
    assert_eq!(dirs[0].0, ".", "first name");
    assert_eq!(dirs[0].1.d_type, 4, "first type");
    assert_eq!(dirs[0].1.d_ino, stat.st_ino);
    assert_eq!(dirs[0].1.d_namlen, 1);
    assert_eq!(dirs[1].0, "..", "second name");
    assert_eq!(dirs[1].1.d_type, 4, "second type");

    let mut file_fd = u32::MAX - 1;
    let status = wasi_path_open(
        &mut ctx,
        dir_fd,
        0,
        "file",
        O_CREAT,
        RIGHT_FD_READ | RIGHT_FD_WRITE,
        0,
        0,
        &mut file_fd,
    );
    assert_eq!(status, Errno::Success, "opening a file");
    assert!(file_fd > STDERR_FILENO, "file descriptor range check");
    let status = wasi_fd_filestat_get(&ctx, file_fd, &mut stat);
    assert_eq!(status, Errno::Success, "reading file stats");

    let status = wasi_fd_readdir(&ctx, dir_fd, &mut buf, 256, 0, &mut bufused);
    assert_eq!(status, Errno::Success, "fd_readdir");
    let dirs = read_entries(&buf[..bufused.min(256)]);
    assert_eq!(dirs.len(), 3, "expected three entries");
    assert_eq!(dirs[0].0, ".", "first name");
    assert_eq!(dirs[1].0, "..", "second name");
    assert_eq!(dirs[2].0, "file", "file name doesn't match");
    assert_eq!(dirs[2].1.d_type, 4, "second type");
    assert_eq!(dirs[2].1.d_ino, stat.st_ino);
}

#[test]
fn test_path_rename() {
    let (mut ctx, dir_fd) = scratch();
    create_dir(&mut ctx, dir_fd, "source");
    let mut status = wasi_path_rename(&mut ctx, dir_fd, "source", dir_fd, "target");
    assert_eq!(status, Errno::Success, "renaming a directory");
    let mut fd = u32::MAX - 1;
    status = wasi_path_open(&mut ctx, dir_fd, 0, "source", O_DIRECTORY, 0, 0, 0, &mut fd);
    assert_eq!(status, Errno::NotFound, "opening a nonexistent path as a directory");
    assert_eq!(fd, u32::MAX, "failed open should set the file descriptor to -1");
    status = wasi_path_open(&mut ctx, dir_fd, 0, "target", O_DIRECTORY, 0, 0, 0, &mut fd);
    assert_eq!(status, Errno::Success, "opening renamed path as a directory");
    assert!(fd > STDERR_FILENO, "file descriptor range check");
    close_fd(&mut ctx, fd);
    cleanup_dir(&mut ctx, dir_fd, "target");

    create_dir(&mut ctx, dir_fd, "source");
    create_dir(&mut ctx, dir_fd, "target");
    status = wasi_path_rename(&mut ctx, dir_fd, "source", dir_fd, "target");
    assert_eq!(status, Errno::Success, "renaming a directory");
    fd = u32::MAX - 1;
    status = wasi_path_open(&mut ctx, dir_fd, 0, "source", O_DIRECTORY, 0, 0, 0, &mut fd);
    assert_eq!(status, Errno::NotFound, "opening a nonexistent path as a directory");
    assert_eq!(fd, u32::MAX, "failed open should set the file descriptor to -1");
    status = wasi_path_open(&mut ctx, dir_fd, 0, "target", O_DIRECTORY, 0, 0, 0, &mut fd);
    assert_eq!(status, Errno::Success, "opening renamed path as a directory");
    assert!(fd > STDERR_FILENO, "file descriptor range check");
    close_fd(&mut ctx, fd);
    cleanup_dir(&mut ctx, dir_fd, "target");

    create_dir(&mut ctx, dir_fd, "source");
    create_dir(&mut ctx, dir_fd, "target");
    create_file(&mut ctx, dir_fd, "target/file");
    status = wasi_path_rename(&mut ctx, dir_fd, "source", dir_fd, "target");
    assert_eq!(status, Errno::NotEmpty, "renaming directory to a nonempty directory");
    status = wasi_path_rename(&mut ctx, dir_fd, "source", dir_fd, "target/file");
    assert_eq!(status, Errno::NotDir, "renaming directory to a file");
    cleanup_file(&mut ctx, dir_fd, "target/file");
    cleanup_dir(&mut ctx, dir_fd, "target");
    cleanup_dir(&mut ctx, dir_fd, "source");

    create_file(&mut ctx, dir_fd, "source");
    status = wasi_path_rename(&mut ctx, dir_fd, "source", dir_fd, "target");
    assert_eq!(status, Errno::Success, "renaming a file");
    fd = u32::MAX - 1;
    status = wasi_path_open(&mut ctx, dir_fd, 0, "source", 0, 0, 0, 0, &mut fd);
    assert_eq!(status, Errno::NotFound, "opening a nonexistent path");
    assert_eq!(fd, u32::MAX, "failed open should set the file descriptor to -1");
    status = wasi_path_open(&mut ctx, dir_fd, 0, "target", 0, 0, 0, 0, &mut fd);
    assert_eq!(status, Errno::Success, "opening renamed path");
    assert!(fd > STDERR_FILENO, "file descriptor range check");
    close_fd(&mut ctx, fd);
    cleanup_file(&mut ctx, dir_fd, "target");

    create_file(&mut ctx, dir_fd, "source");
    create_file(&mut ctx, dir_fd, "target");
    status = wasi_path_rename(&mut ctx, dir_fd, "source", dir_fd, "target");
    assert_eq!(status, Errno::Success, "renaming file to another existing file");
    fd = u32::MAX - 1;
    status = wasi_path_open(&mut ctx, dir_fd, 0, "source", 0, 0, 0, 0, &mut fd);
    assert_eq!(status, Errno::NotFound, "opening a nonexistent path");
    assert_eq!(fd, u32::MAX, "failed open should set the file descriptor to -1");
    status = wasi_path_open(&mut ctx, dir_fd, 0, "target", 0, 0, 0, 0, &mut fd);
    assert_eq!(status, Errno::Success, "opening renamed path");
    assert!(fd > STDERR_FILENO, "file descriptor range check");
    close_fd(&mut ctx, fd);
    cleanup_file(&mut ctx, dir_fd, "target");

    create_file(&mut ctx, dir_fd, "source");
    create_dir(&mut ctx, dir_fd, "target");
    status = wasi_path_rename(&mut ctx, dir_fd, "source", dir_fd, "target");
    assert_eq!(status, Errno::IsDir, "renaming file to existing directory");
    cleanup_dir(&mut ctx, dir_fd, "target");
    cleanup_file(&mut ctx, dir_fd, "source");
}

#[test]
fn test_file_allocate() {
    let (mut ctx, dir_fd) = scratch();
    let mut file_fd = u32::MAX - 1;
    let rights = RIGHT_FD_READ | RIGHT_FD_WRITE;
    let status = wasi_path_open(&mut ctx, dir_fd, 0, "file", O_CREAT, rights, 0, 0, &mut file_fd);
    assert_eq!(status, Errno::Success, "opening a file");
    assert!(file_fd > STDERR_FILENO, "file descriptor range check");

    let mut stat = zero_filestat();
    let status = wasi_fd_filestat_get(&ctx, file_fd, &mut stat);
    assert_eq!(status, Errno::Success, "reading file stats");
    assert_eq!(stat.st_size, 0, "file size should be 0");

    let status = wasi_fd_allocate(&mut ctx, file_fd, 0, 100);
    assert_eq!(status, Errno::Success, "allocating size");
    let status = wasi_fd_filestat_get(&ctx, file_fd, &mut stat);
    assert_eq!(status, Errno::Success, "reading file stats after initial allocation");
    assert_eq!(stat.st_size, 100, "file size should be 100");

    let status = wasi_fd_allocate(&mut ctx, file_fd, 10, 10);
    assert_eq!(status, Errno::Success, "allocating size less than current size");
    let status = wasi_fd_filestat_get(&ctx, file_fd, &mut stat);
    assert_eq!(status, Errno::Success, "reading file stats after additional allocation was not required");
    assert_eq!(stat.st_size, 100, "file size should remain unchanged at 100");

    let status = wasi_fd_allocate(&mut ctx, file_fd, 90, 20);
    assert_eq!(status, Errno::Success, "allocating size larger than current size");
    let status = wasi_fd_filestat_get(&ctx, file_fd, &mut stat);
    assert_eq!(status, Errno::Success, "reading file stats after additional allocation was required");
    assert_eq!(stat.st_size, 110, "file size should increase from 100 to 110");

    close_fd(&mut ctx, file_fd);
    cleanup_file(&mut ctx, dir_fd, "file");
}

#[test]
fn test_file_pread_pwrite() {
    let (mut ctx, dir_fd) = scratch();
    let mut file_fd = u32::MAX - 1;
    let mut status =
        wasi_path_open(&mut ctx, dir_fd, 0, "file", O_CREAT, RIGHT_FD_READ | RIGHT_FD_WRITE, 0, 0, &mut file_fd);
    assert_eq!(status, Errno::Success, "opening a file");
    assert!(file_fd > STDERR_FILENO, "file descriptor range check");

    let contents = &[0u8, 1, 2, 3];
    let mut nwritten = 0;
    status = wasi_fd_pwrite(&mut ctx, file_fd, contents, 0, &mut nwritten);
    assert_eq!(status, Errno::Success, "writing bytes at offset 0");
    assert_eq!(nwritten, 4, "nwritten bytes check");

    let contents = &mut [0u8; 4];
    let mut nread = 0;
    status = wasi_fd_pread(&ctx, file_fd, contents, 0, &mut nread);
    assert_eq!(status, Errno::Success, "reading bytes at offset 0");
    assert_eq!(nread, 4, "nread bytes check");
    assert_eq!(contents, &[0u8, 1, 2, 3], "written bytes equal read bytes");

    let contents = &mut [0u8; 4];
    let mut nread = 0;
    status = wasi_fd_pread(&ctx, file_fd, contents, 2, &mut nread);
    assert_eq!(status, Errno::Success, "reading bytes at offset 2");
    assert_eq!(nread, 2, "nread bytes check");
    assert_eq!(contents, &[2u8, 3, 0, 0], "file cursor was overwritten");

    let contents = &[1u8, 0];
    let mut nwritten = 0;
    status = wasi_fd_pwrite(&mut ctx, file_fd, contents, 2, &mut nwritten);
    assert_eq!(status, Errno::Success, "writing bytes at offset 2");
    assert_eq!(nwritten, 2, "nwritten bytes check");

    let contents = &mut [0u8; 4];
    let mut nread = 0;
    status = wasi_fd_pread(&ctx, file_fd, contents, 0, &mut nread);
    assert_eq!(status, Errno::Success, "reading bytes at offset 0");
    assert_eq!(nread, 4, "nread bytes check");
    assert_eq!(contents, &[0u8, 1, 1, 0], "file cursor was overwritten");

    close_fd(&mut ctx, file_fd);
}

#[test]
fn test_file_seek_tell() {
    let (mut ctx, dir_fd) = scratch();
    let mut file_fd = u32::MAX - 1;
    let rights = RIGHT_FD_READ | RIGHT_FD_WRITE;
    let mut status = wasi_path_open(&mut ctx, dir_fd, 0, "file", O_CREAT, rights, 0, 0, &mut file_fd);
    assert_eq!(status, Errno::Success, "opening a file");
    assert!(file_fd > STDERR_FILENO, "file descriptor range check");

    let mut offset: u64 = 0;
    status = wasi_fd_tell(&ctx, file_fd, &mut offset);
    assert_eq!(status, Errno::Success, "getting initial file offset");
    assert_eq!(offset, 0, "current offset should be 0");

    let buf = &[0u8; 100];
    let mut nwritten = 0;
    status = wasi_fd_write(&mut ctx, file_fd, buf, &mut nwritten);
    assert_eq!(status, Errno::Success, "writing to a file");
    assert_eq!(nwritten, 100, "should write 100 bytes to file");

    status = wasi_fd_tell(&ctx, file_fd, &mut offset);
    assert_eq!(status, Errno::Success, "getting file offset after writing");
    assert_eq!(offset, 100, "offset after writing should be 100");

    let mut newoffset = 1;
    status = wasi_fd_seek(&mut ctx, file_fd, -50, WHENCE_CUR, &mut newoffset);
    assert_eq!(status, Errno::Success, "seeking to the middle of a file");
    assert_eq!(newoffset, 50, "offset after seeking to the middle should be at 50");

    status = wasi_fd_seek(&mut ctx, file_fd, 0, WHENCE_SET, &mut newoffset);
    assert_eq!(status, Errno::Success, "seeking to the beginning of the file");
    assert_eq!(newoffset, 0, "offset after seeking to the beginning of the file should be at 0");

    status = wasi_fd_seek(&mut ctx, file_fd, 1000, WHENCE_CUR, &mut newoffset);
    assert_eq!(status, Errno::Success, "seeking beyond the end of the file");

    status = wasi_fd_seek(&mut ctx, file_fd, -2000, WHENCE_CUR, &mut newoffset);
    assert_eq!(status, Errno::Invalid, "seeking before byte 0 should be an error");

    close_fd(&mut ctx, file_fd);
    cleanup_file(&mut ctx, dir_fd, "file");
}

#[test]
fn test_file_unbuffered_write() {
    let (mut ctx, dir_fd) = scratch();
    create_file(&mut ctx, dir_fd, "file");
    let mut fd_read = u32::MAX - 1;
    let mut status = wasi_path_open(&mut ctx, dir_fd, 0, "file", 0, RIGHT_FD_READ, 0, 0, &mut fd_read);
    assert_eq!(status, Errno::Success, "opening a file");
    assert!(fd_read > STDERR_FILENO, "file descriptor range check");
    let mut fd_write = u32::MAX - 1;
    status = wasi_path_open(&mut ctx, dir_fd, 0, "file", 0, RIGHT_FD_WRITE, 0, 0, &mut fd_write);
    assert_eq!(status, Errno::Success, "opening a file");
    assert!(fd_write > STDERR_FILENO, "file descriptor range check");

    let mut nwritten = 0;
    status = wasi_fd_write(&mut ctx, fd_write, &[1u8], &mut nwritten);
    assert_eq!(status, Errno::Success, "writing byte to file");
    assert_eq!(nwritten, 1, "nwritten bytes check");

    let contents = &mut [0u8; 1];
    let mut nread = 0;
    status = wasi_fd_read(&mut ctx, fd_read, contents, &mut nread);
    assert_eq!(status, Errno::Success, "reading bytes from file");
    assert_eq!(nread, 1, "nread bytes check");
    assert_eq!(contents, &[1u8], "written bytes equal read bytes");

    close_fd(&mut ctx, fd_write);
    close_fd(&mut ctx, fd_read);
    cleanup_file(&mut ctx, dir_fd, "file");
}

#[test]
fn test_renumber() {
    let (mut ctx, dir_fd) = scratch();
    let pre_fd = STDERR_FILENO + 1;
    assert!(dir_fd > pre_fd, "dir_fd number");

    let mut fd_from = u32::MAX - 1;
    let mut status =
        wasi_path_open(&mut ctx, dir_fd, 0, "file1", O_CREAT, RIGHT_FD_READ | RIGHT_FD_WRITE, 0, 0, &mut fd_from);
    assert_eq!(status, Errno::Success, "opening a file");
    assert!(fd_from > STDERR_FILENO, "file descriptor range check");
    let mut fdstat_from = zero_fdstat();
    status = wasi_fd_fdstat_get(&ctx, fd_from, &mut fdstat_from);
    assert_eq!(status, Errno::Success, "calling fd_fdstat on the open file descriptor");

    let mut fd_to = u32::MAX - 1;
    status = wasi_path_open(&mut ctx, dir_fd, 0, "file2", O_CREAT, RIGHT_FD_READ | RIGHT_FD_WRITE, 0, 0, &mut fd_to);
    assert_eq!(status, Errno::Success, "opening a file");
    assert!(fd_to > STDERR_FILENO, "file descriptor range check");

    status = wasi_fd_renumber(&mut ctx, fd_from, fd_to);
    assert_eq!(status, Errno::Success, "renumbering two descriptors");
    status = wasi_fd_close(&mut ctx, fd_from);
    assert_eq!(status, Errno::BadDescriptor, "closing already closed file descriptor");

    let mut fdstat_to = zero_fdstat();
    status = wasi_fd_fdstat_get(&ctx, fd_to, &mut fdstat_to);
    assert_eq!(status, Errno::Success, "calling fd_fdstat on the open file descriptor");
    assert!(
        fdstat_from.fs_filetype == fdstat_to.fs_filetype
            && fdstat_from.fs_flags == fdstat_to.fs_flags
            && fdstat_from.fs_rights_base == fdstat_to.fs_rights_base
            && fdstat_from.fs_rights_inheriting == fdstat_to.fs_rights_inheriting,
        "expected fd_to have the same fdstat as fd_from"
    );
    close_fd(&mut ctx, fd_to);
}

#[test]
fn test_fd_filestat_set() {
    let (mut ctx, dir_fd) = scratch();
    let mut file_fd = u32::MAX - 1;
    let rights = RIGHT_FD_READ | RIGHT_FD_WRITE;
    let status = wasi_path_open(&mut ctx, dir_fd, 0, "file", O_CREAT, rights, 0, 0, &mut file_fd);
    assert_eq!(status, Errno::Success, "opening a file");
    assert!(file_fd > STDERR_FILENO, "file descriptor range check");

    let mut stat = zero_filestat();
    let status = wasi_fd_filestat_get(&ctx, file_fd, &mut stat);
    assert_eq!(status, Errno::Success, "reading file stats");
    assert_eq!(stat.st_size, 0, "file size should be 0");

    let status = wasi_fd_filestat_set_size(&mut ctx, file_fd, 100);
    assert_eq!(status, Errno::Success, "fd_filestat_set_size");
    let status = wasi_fd_filestat_get(&ctx, file_fd, &mut stat);
    assert_eq!(status, Errno::Success, "reading file stats after fd_filestat_set_size");
    assert_eq!(stat.st_size, 100, "file size should be 100");

    let old_atim = stat.st_atim;
    let new_mtim = stat.st_mtim - 100;
    let status = wasi_fd_filestat_set_times(&mut ctx, file_fd, new_mtim, new_mtim, FILESTAT_SET_MTIM);
    assert_eq!(status, Errno::Success, "fd_filestat_set_times");
    let status = wasi_fd_filestat_get(&ctx, file_fd, &mut stat);
    assert_eq!(status, Errno::Success, "reading file stats after fd_filestat_set_times");
    assert_eq!(stat.st_size, 100, "file size should remain unchanged at 100");
    assert_eq!(stat.st_mtim, new_mtim, "mtim should change");
    assert_eq!(stat.st_atim, old_atim, "atim should not change");

    close_fd(&mut ctx, file_fd);
    cleanup_file(&mut ctx, dir_fd, "file");
}

#[test]
fn test_readlink() {
    let (mut ctx, dir_fd) = scratch();
    create_file(&mut ctx, dir_fd, "target");
    let mut status = wasi_path_symlink(&mut ctx, "target", dir_fd, "symlink");
    assert_eq!(status, Errno::Success, "creating a symlink");

    let buf = &mut [0u8; 10];
    let mut bufused: usize = 0;
    status = wasi_path_readlink(&ctx, dir_fd, "symlink", buf, &mut bufused);
    assert_eq!(status, Errno::Success, "readlink should succeed");
    assert_eq!(bufused, 6, "should use 6 bytes of the buffer");
    assert_eq!(&buf[..6], "target".as_bytes(), "buffer should contain 'target'");
    assert_eq!(&buf[6..], &[0u8; 4], "the remaining bytes should be untouched");

    let buf = &mut [0u8; 4];
    let mut bufused: usize = 0;
    status = wasi_path_readlink(&ctx, dir_fd, "symlink", buf, &mut bufused);
    assert_eq!(status, Errno::Success, "readlink should succeed");
    assert_eq!(bufused, 4, "should use all 4 bytes of the buffer");
    assert_eq!(buf, "targ".as_bytes(), "buffer should contain 'targ'");

    cleanup_file(&mut ctx, dir_fd, "target");
    cleanup_file(&mut ctx, dir_fd, "symlink");
}

#[test]
fn test_dangling_symlink() {
    let (mut ctx, dir_fd) = scratch();
    let mut status = wasi_path_symlink(&mut ctx, "target", dir_fd, "symlink");
    assert_eq!(status, Errno::Success, "creating a symlink");
    let mut file_fd = u32::MAX - 1;
    status = wasi_path_open(&mut ctx, dir_fd, 0, "symlink", O_DIRECTORY, 0, 0, 0, &mut file_fd);
    assert_eq!(status, Errno::Loop, "opening a dangling symlink as a directory");
    assert_eq!(file_fd, u32::MAX, "failed open should set the file descriptor to -1");
    cleanup_file(&mut ctx, dir_fd, "symlink");
}

#[test]
fn test_path_filestat() {
    let (mut ctx, dir_fd) = scratch();
    let mut fdstat = zero_fdstat();
    let status = wasi_fd_fdstat_get(&ctx, dir_fd, &mut fdstat);
    assert_eq!(status, Errno::Success, "fd_fdstat_get");
    assert!(fdstat.fs_rights_base & RIGHT_PATH_FILESTAT_GET != 0);
    assert!(fdstat.fs_rights_inheriting & RIGHT_PATH_FILESTAT_GET != 0);

    let mut file_fd = u32::MAX - 1;
    let filename = "file";
    let status = wasi_path_open(
        &mut ctx,
        dir_fd,
        0,
        filename,
        O_CREAT,
        RIGHT_FD_READ | RIGHT_FD_WRITE | RIGHT_PATH_FILESTAT_GET,
        RIGHT_PATH_FILESTAT_GET,
        0,
        &mut file_fd,
    );
    assert_eq!(status, Errno::Success, "opening a file");
    assert!(file_fd > STDERR_FILENO, "file descriptor range check");

    let status = wasi_fd_fdstat_get(&ctx, file_fd, &mut fdstat);
    assert_eq!(status, Errno::Success, "fd_fdstat_get");
    assert_eq!(fdstat.fs_rights_base & RIGHT_PATH_FILESTAT_GET, 0, "files shouldn't have rights for path_* syscalls");
    assert_eq!(
        fdstat.fs_rights_inheriting & RIGHT_PATH_FILESTAT_GET,
        0,
        "files shouldn't have rights for path_* syscalls"
    );

    let mut stat = zero_filestat();
    let status = wasi_path_filestat_get(&ctx, dir_fd, 0, filename, filename.len(), &mut stat);
    assert_eq!(status, Errno::Success, "reading file stats");
    assert_eq!(stat.st_size, 0, "file size should be 0");

    let old_atim = stat.st_atim;
    let new_mtim = stat.st_mtim - 100;
    let status = wasi_path_filestat_set_times(
        &mut ctx,
        dir_fd,
        0,
        filename,
        filename.len(),
        new_mtim,
        new_mtim,
        FILESTAT_SET_MTIM,
    );
    assert_eq!(status, Errno::Success, "path_filestat_set_times should succeed");
    let status = wasi_path_filestat_get(&ctx, dir_fd, 0, filename, filename.len(), &mut stat);
    assert_eq!(status, Errno::Success, "reading file stats after path_filestat_set_times");
    assert_eq!(stat.st_mtim, new_mtim, "mtim should change");
    assert_eq!(stat.st_atim, old_atim, "atim should not change");

    let status = wasi_path_filestat_set_times(
        &mut ctx,
        dir_fd,
        0,
        filename,
        filename.len(),
        new_mtim,
        new_mtim,
        FILESTAT_SET_MTIM | FILESTAT_SET_MTIM_NOW,
    );
    assert_eq!(status, Errno::Invalid, "MTIM and MTIM_NOW can't both be set");
    let status = wasi_path_filestat_get(&ctx, dir_fd, 0, filename, filename.len(), &mut stat);
    assert_eq!(status, Errno::Success, "reading file stats after path_filestat_set_times");
    assert_eq!(stat.st_mtim, new_mtim, "mtim should not change");
    assert_eq!(stat.st_atim, old_atim, "atim should not change");

    close_fd(&mut ctx, file_fd);
    cleanup_file(&mut ctx, dir_fd, "file");
}

use mem_ipc::shm::{open_or_create_shm, unlink_shm, ShmError};

#[test]
fn region_path_resolves_under_mount_point() {
    let name = "/mem_ipc_path_region";
    let region = open_or_create_shm(name, Some(128)).expect("create region");
    assert_eq!(region.path(), "/dev/shm/mem_ipc_path_region");
    region.close().expect("close region");
    unlink_shm(name).expect("unlink region");
}

#[test]
fn two_handles_observe_the_same_bytes() {
    let name = "/mem_ipc_shared_region";
    let writer = open_or_create_shm(name, Some(256)).expect("create region");
    // second handle attaches without a size, leaving the region alone
    let reader = open_or_create_shm(name, None).expect("attach region");

    let payload = b"shared bytes at an offset";
    let offset = 64;
    let wrote = nix::sys::uio::pwrite(writer.raw_fd(), payload, offset)
        .expect("write through the first handle");
    assert_eq!(wrote, payload.len());

    let mut got = vec![0u8; payload.len()];
    let read = nix::sys::uio::pread(reader.raw_fd(), &mut got, offset)
        .expect("read through the second handle");
    assert_eq!(read, payload.len());
    assert_eq!(&got, payload, "the two handles diverged");

    writer.close().expect("close writer");
    reader.close().expect("close reader");
    unlink_shm(name).expect("unlink region");
}

#[test]
fn attach_without_size_keeps_length_and_with_size_resizes() {
    let name = "/mem_ipc_resize_region";
    let region = open_or_create_shm(name, Some(512)).expect("create region");
    let md = nix::sys::stat::fstat(region.raw_fd()).expect("stat region");
    assert_eq!(md.st_size, 512);
    region.close().expect("close");

    let again = open_or_create_shm(name, None).expect("attach without size");
    let md = nix::sys::stat::fstat(again.raw_fd()).expect("stat region");
    assert_eq!(md.st_size, 512, "attaching without a size resized the region");
    again.close().expect("close");

    let shrunk = open_or_create_shm(name, Some(16)).expect("attach with size");
    let md = nix::sys::stat::fstat(shrunk.raw_fd()).expect("stat region");
    assert_eq!(md.st_size, 16, "an explicit size must resize exactly");
    shrunk.close().expect("close");
    unlink_shm(name).expect("unlink region");
}

#[test]
fn unlinked_name_is_recreated_fresh() {
    let name = "/mem_ipc_fresh_region";
    let region = open_or_create_shm(name, Some(64)).expect("create region");
    region.close().expect("close");
    unlink_shm(name).expect("unlink region");

    // open-or-create after unlink makes a brand-new region
    let fresh = open_or_create_shm(name, Some(32)).expect("recreate after unlink");
    let md = nix::sys::stat::fstat(fresh.raw_fd()).expect("stat region");
    assert_eq!(md.st_size, 32);
    fresh.close().expect("close");
    unlink_shm(name).expect("unlink region");
}

#[test]
fn invalid_region_names_are_rejected() {
    assert!(matches!(open_or_create_shm("", Some(8)), Err(ShmError::InvalidName)));
    assert!(matches!(open_or_create_shm("no_slash", Some(8)), Err(ShmError::InvalidName)));
    assert!(matches!(open_or_create_shm("/nul\0name", Some(8)), Err(ShmError::InvalidName)));
    assert!(matches!(unlink_shm("no_slash"), Err(ShmError::InvalidName)));
}

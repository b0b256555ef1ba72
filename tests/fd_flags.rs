use nix::fcntl::OFlag;
use procman::nonblocking_flags;

#[test]
fn adds_the_nonblocking_bit() {
    let nb = OFlag::O_NONBLOCK.bits();
    let append = OFlag::O_APPEND.bits();
    let rdwr = OFlag::O_RDWR.bits();
    assert_ne!(nb, 0);
    assert_eq!(nonblocking_flags(0), nb);
    assert_eq!(nonblocking_flags(nb), nb);
    assert_eq!(nonblocking_flags(rdwr | append), rdwr | append | nb);
}

#[test]
fn drops_bits_that_name_no_flag() {
    let nb = OFlag::O_NONBLOCK.bits();
    let append = OFlag::O_APPEND.bits();
    let unknown = 0x4000_0000;
    assert_eq!(OFlag::from_bits_truncate(unknown).bits(), 0);
    assert_eq!(nonblocking_flags(unknown | append), append | nb);
}

use matter_transport::dedup::RxCtrState;

const ENCRYPTED: bool = true;
const NOT_ENCRYPTED: bool = false;

fn assert_ndup(b: bool) {
    assert!(!b);
}

fn assert_dup(b: bool) {
    assert!(b);
}

#[test]
fn new_msg_ctr() {
    let mut s = RxCtrState::new(101);

    assert_ndup(s.recv(103, ENCRYPTED));
    assert_ndup(s.recv(104, ENCRYPTED));
    assert_ndup(s.recv(106, ENCRYPTED));
    assert_eq!(s.max_ctr, 106);
    assert_eq!(s.ctr_bitmap, 0b1111_1111_1111_0110);

    assert_ndup(s.recv(118, NOT_ENCRYPTED));
    assert_eq!(s.ctr_bitmap, 0b0110_1000_0000_0000);
    assert_ndup(s.recv(119, NOT_ENCRYPTED));
    assert_ndup(s.recv(121, NOT_ENCRYPTED));
    assert_eq!(s.ctr_bitmap, 0b0100_0000_0000_0110);
}

#[test]
fn dup_max_ctr() {
    let mut s = RxCtrState::new(101);

    assert_ndup(s.recv(103, ENCRYPTED));
    assert_dup(s.recv(103, ENCRYPTED));
    assert_dup(s.recv(103, NOT_ENCRYPTED));

    assert_eq!(s.max_ctr, 103);
    assert_eq!(s.ctr_bitmap, 0b1111_1111_1111_1110);
}

#[test]
fn dup_in_rx_bitmap() {
    let mut ctr = 101;
    let mut s = RxCtrState::new(101);
    for _ in 1..8 {
        ctr += 2;
        assert_ndup(s.recv(ctr, ENCRYPTED));
    }
    assert_ndup(s.recv(116, ENCRYPTED));
    assert_ndup(s.recv(117, ENCRYPTED));
    assert_eq!(s.max_ctr, 117);
    assert_eq!(s.ctr_bitmap, 0b1010_1010_1010_1011);

    // duplicate on the left corner
    assert_dup(s.recv(101, ENCRYPTED));
    assert_dup(s.recv(101, NOT_ENCRYPTED));

    // duplicate on the right corner
    assert_dup(s.recv(116, ENCRYPTED));
    assert_dup(s.recv(116, NOT_ENCRYPTED));

    // valid insert
    assert_ndup(s.recv(102, ENCRYPTED));
    assert_dup(s.recv(102, ENCRYPTED));
    assert_eq!(s.ctr_bitmap, 0b1110_1010_1010_1011);
}

#[test]
fn valid_corners_in_rx_bitmap() {
    let mut ctr = 102;
    let mut s = RxCtrState::new(101);
    for _ in 1..9 {
        ctr += 2;
        assert_ndup(s.recv(ctr, ENCRYPTED));
    }
    assert_eq!(s.max_ctr, 118);
    assert_eq!(s.ctr_bitmap, 0b0010_1010_1010_1010);

    // valid insert on the left corner
    assert_ndup(s.recv(102, ENCRYPTED));
    assert_eq!(s.ctr_bitmap, 0b1010_1010_1010_1010);

    // valid insert on the right corner
    assert_ndup(s.recv(117, ENCRYPTED));
    assert_eq!(s.ctr_bitmap, 0b1010_1010_1010_1011);
}

#[test]
fn encrypted_wraparound() {
    let mut s = RxCtrState::new(65534);

    assert_ndup(s.recv(65535, ENCRYPTED));
    assert_ndup(s.recv(65536, ENCRYPTED));
    assert_dup(s.recv(0, ENCRYPTED));
}

#[test]
fn unencrypted_wraparound() {
    let mut s = RxCtrState::new(65534);

    assert_ndup(s.recv(65536, NOT_ENCRYPTED));
    assert_ndup(s.recv(0, NOT_ENCRYPTED));
}

#[test]
fn unencrypted_device_reboot() {
    println!("Sub 65532 is {:?}", 1_u16.overflowing_sub(65532));
    println!("Sub 65535 is {:?}", 1_u16.overflowing_sub(65535));
    println!("Sub 11-13 is {:?}", 11_u32.wrapping_sub(13_u32) as i32);
    println!("Sub regular is {:?}", 2000_u16.overflowing_sub(1998));
    let mut s = RxCtrState::new(20010);

    assert_ndup(s.recv(20011, NOT_ENCRYPTED));
    assert_ndup(s.recv(0, NOT_ENCRYPTED));
}

#[test]
fn reboot_resets_window() {
    let mut s = RxCtrState::new(20010);
    assert_ndup(s.recv(20011, NOT_ENCRYPTED));
    assert_ndup(s.recv(0, NOT_ENCRYPTED));
    assert_eq!(s.max_ctr, 0);
    assert_eq!(s.ctr_bitmap, 0xffff);
}

#[test]
fn new_window_rejects_earlier_counters() {
    let mut s = RxCtrState::new(101);
    assert_eq!(s.max_ctr, 101);
    assert_eq!(s.ctr_bitmap, 0xffff);
    assert_dup(s.recv(100, ENCRYPTED));
    assert_dup(s.recv(85, NOT_ENCRYPTED));
    assert_eq!(s.ctr_bitmap, 0xffff);
}

#[test]
fn repeat_after_accept_is_duplicate() {
    let mut s = RxCtrState::new(500);
    for c in [501u32, 499, 400, 510, 505] {
        let first = s.recv(c, NOT_ENCRYPTED);
        if !first {
            assert_dup(s.recv(c, ENCRYPTED));
            assert_dup(s.recv(c, NOT_ENCRYPTED));
        }
    }
}

#[test]
fn old_encrypted_counter_is_duplicate() {
    let mut s = RxCtrState::new(1000);
    s.ctr_bitmap = 0;
    assert_dup(s.recv(983, ENCRYPTED));
    assert_dup(s.recv(0, ENCRYPTED));
    assert_eq!(s.max_ctr, 1000);
    assert_eq!(s.ctr_bitmap, 0);
    // the left edge of the window itself is still a fresh counter
    assert_ndup(s.recv(984, ENCRYPTED));
    assert_eq!(s.ctr_bitmap, 0x8000);
}

#[test]
fn unencrypted_outside_window_becomes_max() {
    let mut s = RxCtrState::new(1000);
    assert_ndup(s.recv(3, NOT_ENCRYPTED));
    assert_eq!(s.max_ctr, 3);
    assert_ndup(s.recv(900_000, NOT_ENCRYPTED));
    assert_eq!(s.max_ctr, 900_000);
    assert_eq!(s.ctr_bitmap, 0xffff);
}

#[test]
fn encrypted_max_never_decreases() {
    let mut s = RxCtrState::new(1000);
    let mut last = s.max_ctr;
    for c in [999u32, 1005, 3, 1004, 70_000, 10, 69_990] {
        s.recv(c, ENCRYPTED);
        assert!(s.max_ctr >= last);
        last = s.max_ctr;
    }
    assert_eq!(s.max_ctr, 70_000);
}

#[test]
fn forward_jump_shifts_bitmap() {
    let mut s = RxCtrState::new(200);
    s.ctr_bitmap = 0b0000_0000_1010_0101;
    assert_ndup(s.recv(205, ENCRYPTED));
    assert_eq!(s.max_ctr, 205);
    assert_eq!(s.ctr_bitmap, (0b0000_0000_1010_0101u16 << 5) | (1 << 4));
    assert_ndup(s.recv(221, ENCRYPTED));
    assert_eq!(s.ctr_bitmap, 0xffff);
}

#[test]
fn counter_wrap_at_u32_max() {
    let mut s = RxCtrState::new(u32::MAX - 1);
    assert_ndup(s.recv(u32::MAX, ENCRYPTED));
    assert_eq!(s.ctr_bitmap, 0xffff);
    // 0 follows u32::MAX by one, but is smaller: it is not a forward jump
    assert_dup(s.recv(0, ENCRYPTED));
    assert_eq!(s.max_ctr, u32::MAX);
}

#[test]
fn window_below_small_max_reaches_top_counters() {
    let mut s = RxCtrState::new(3);
    s.ctr_bitmap = 0;
    // u32::MAX is 4 below 3 modulo 2^32, so it lands in the window at bit 3
    assert_ndup(s.recv(u32::MAX, ENCRYPTED));
    assert_eq!(s.max_ctr, 3);
    assert_eq!(s.ctr_bitmap, 0b1000);
    assert_dup(s.recv(u32::MAX, ENCRYPTED));
}

#[test]
fn accepted_counter_stays_duplicate() {
    let mut s = RxCtrState::new(1000);
    s.ctr_bitmap = 0;
    assert_ndup(s.recv(995, ENCRYPTED));
    for c in [1001u32, 1003, 998, 1010, 1011] {
        s.recv(c, ENCRYPTED);
        assert_dup(s.recv(995, ENCRYPTED));
    }
    assert_ndup(s.recv(1040, ENCRYPTED));
    assert_dup(s.recv(995, ENCRYPTED));
    assert_eq!(s.max_ctr, 1040);
}

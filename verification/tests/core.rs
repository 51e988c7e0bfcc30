use lib::address::{is_power_of_two, PhysAddr, VirtAddr};
use lib::capability::{names, CapabilitySet};
use lib::crash::{
    append_current, checksum, decode, encode, init, kind_name, latest_record, latest_sequence, mark_checkpoint,
    mark_ready, Record, RECORD_SIZE, SECTOR_SIZE, STATE_BOOTING, STATE_CHECKPOINT, STATE_PANIC, STATE_READY,
};
use lib::input::{Buttons, Event, InputQueue, KeyCode, KeyEvent, Modifiers, QUEUE_CAPACITY};

#[test]
fn addresses() {
    assert!(is_power_of_two(1));
    assert!(is_power_of_two(4096));
    assert!(!is_power_of_two(0));
    assert!(!is_power_of_two(12));
    assert!(PhysAddr::new(0x2000).is_aligned(4096));
    assert!(!PhysAddr::new(0x2000).is_aligned(3));
    assert!(!PhysAddr::new(0x2100).is_aligned(4096));
    assert_eq!(PhysAddr::new(u64::MAX - 1).checked_add(1), Some(PhysAddr(u64::MAX)));
    assert_eq!(PhysAddr::new(u64::MAX).checked_add(1), None);
    assert_eq!(VirtAddr::new(0x1000).checked_add(0x10).map(|a| a.value()), Some(0x1010));
    assert_eq!(VirtAddr::new(usize::MAX).checked_add(1), None);
    assert!(VirtAddr::new(0x10).is_aligned(16));
}

#[test]
fn capabilities() {
    let kernel = CapabilitySet::kernel();
    assert_eq!(kernel.bits(), 0x1f);
    assert!(kernel.contains(CapabilitySet::vfs_write()));
    let user = CapabilitySet::clock().union(CapabilitySet::vfs_read());
    assert_eq!(user.bits(), 9);
    assert!(user.contains(CapabilitySet::clock()));
    assert!(!user.contains(CapabilitySet::log_write()));
    assert!(user.contains(CapabilitySet::none()));
    assert_eq!(names(user), vec!["clock", "vfs-read"]);
    assert_eq!(names(kernel), vec!["clock", "log-write", "process-spawn", "vfs-read", "vfs-write"]);
    assert!(names(CapabilitySet::none()).is_empty());
    assert_eq!(CapabilitySet::from_bits(0x12).bits(), 0x12);
}

fn key(code: KeyCode) -> Event {
    Event::Key(KeyEvent { code, pressed: true, repeat: false, modifiers: Modifiers::empty(), text: None })
}

#[test]
fn input_queue_is_fifo_and_bounded() {
    let mut queue = InputQueue::new();
    assert_eq!(queue.pop(), None);
    assert!(queue.push(key(KeyCode::A)));
    assert!(queue.push(Event::Connected));
    assert_eq!(queue.pop(), Some(key(KeyCode::A)));
    assert_eq!(queue.pop(), Some(Event::Connected));
    for _ in 0..QUEUE_CAPACITY {
        assert!(queue.push(Event::Disconnected));
    }
    assert!(!queue.push(key(KeyCode::B)));
    assert!(!queue.push(key(KeyCode::B)));
    assert_eq!(queue.dropped(), 2);
    queue.reset();
    assert_eq!(queue.dropped(), 0);
    assert_eq!(queue.pop(), None);
    assert!(Modifiers::from_bits(Modifiers::SHIFT | Modifiers::CTRL).contains(Modifiers::CTRL));
    assert!(!Modifiers::from_bits(Modifiers::SHIFT).contains(Modifiers::ALT));
    assert_eq!(Buttons::from_bits(Buttons::LEFT).bits(), 1);
    assert_ne!(KeyCode::A.index(), KeyCode::B.index());
}

#[test]
fn crash_records_roundtrip() {
    let record = Record { state: STATE_PANIC, kind: 2, sequence: 9, code: 0x2014, arg0: 0x4000, arg1: 7 };
    let bytes = encode(record);
    assert_eq!(bytes.len(), RECORD_SIZE);
    assert_eq!(&bytes[..4], &0x4e52_5843u32.to_le_bytes());
    assert_eq!(decode(&bytes), Some(record));
    assert_eq!(u32::from_le_bytes(bytes[40..44].try_into().unwrap()), checksum(&bytes));
    let mut corrupt = bytes.clone();
    corrupt[20] ^= 1;
    assert_eq!(decode(&corrupt), None);
    let mut wrong_magic = bytes.clone();
    wrong_magic[0] = 0;
    assert_eq!(decode(&wrong_magic), None);
    assert_eq!(kind_name(1), "panic");
    assert_eq!(kind_name(3), "page-fault");
    assert_eq!(kind_name(9), "unknown");
}

#[test]
fn crash_log_rotates() {
    let mut sector = vec![0u8; SECTOR_SIZE];
    assert_eq!(latest_record(&sector), None);
    assert_eq!(latest_sequence(&sector), None);
    let (slot, booting) = init(&mut sector);
    assert_eq!((slot, booting.state, booting.sequence), (0, STATE_BOOTING, 1));
    let (slot, checkpoint) = mark_checkpoint(&mut sector);
    assert_eq!((slot, checkpoint.state, checkpoint.sequence), (1, STATE_CHECKPOINT, 2));
    let (slot, ready) = mark_ready(&mut sector);
    assert_eq!((slot, ready.state, ready.sequence), (2, STATE_READY, 3));
    assert_eq!(latest_record(&sector), Some((2, ready)));
    let panic = Record { state: STATE_PANIC, kind: 1, sequence: 0, code: 5, arg0: 0, arg1: 0 };
    let (slot, written) = append_current(&mut sector, panic);
    assert_eq!((slot, written.sequence, written.code), (3, 4, 5));
    let (slot, again) = init(&mut sector);
    assert_eq!((slot, again.sequence), (0, 5));
    assert_eq!(latest_sequence(&sector), Some(5));
    let explicit = Record { sequence: 100, ..panic };
    let (slot, written) = append_current(&mut sector, explicit);
    assert_eq!((slot, written.sequence), (1, 100));
    assert_eq!(latest_record(&sector), Some((1, written)));
}

#[test]
fn crash_decode_catches_every_single_byte_change() {
    let record = Record { state: STATE_PANIC, kind: 1, sequence: 3, code: 0x0e, arg0: 0xdead_beef, arg1: 0 };
    let bytes = encode(record);
    for index in 0..RECORD_SIZE {
        for flip in [1u8, 0x80, 0xff] {
            let mut changed = bytes.clone();
            changed[index] ^= flip;
            assert_eq!(decode(&changed), None, "byte {} flipped by {:#x}", index, flip);
        }
    }
}

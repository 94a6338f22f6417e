use furnace_core::devices::{core_id, BufferSize, QemuExitCode, SerialLogger, QEMU_SP_ADDR};
use furnace_core::interrupts::InterruptIndex;
use furnace_core::keyboard::{add_decoded_key, add_scancode, deliver_decoded_key, deliver_scancode, first_look, second_look, DecodedKeyStream, Delivery, FirstLook, KeyQueue, ScancodeStream, SecondLook, WakeSlot, SC_CAP};
use furnace_core::once::Once;
use furnace_core::readline::{handle_character, retrieve_data, Readline};
use pc_keyboard::DecodedKey;
use std::task::Waker;

#[test]
fn test_once_notinit() {
    let once: Once<bool> = Once::new();
    assert_eq!(once.get(), None);
}

#[test]
fn test_once_init() {
    let mut once: Once<bool> = Once::new();
    assert_eq!(*once.try_init(true), true);
    assert_eq!(*once.get().unwrap(), true);
}

#[test]
fn once_keeps_first_value() {
    let mut once: Once<u32> = Once::new();
    assert_eq!(*once.try_init(1), 1);
    assert_eq!(*once.try_init(2), 1);
    assert_eq!(once.get(), Some(&1));
}

#[test]
fn interrupt_vectors() {
    assert_eq!(InterruptIndex::Timer.as_u8(), 32);
    assert_eq!(InterruptIndex::Keyboard.as_u8(), 33);
    assert_eq!(InterruptIndex::Keyboard.as_usize(), 33);
}

#[test]
fn core_id_masks_affinity() {
    assert_eq!(core_id(0x8000_0003), 3);
    assert_eq!(core_id(0x8000_0100), 0);
    assert_eq!(core_id(6), 2);
}

#[test]
fn exit_codes_and_ports() {
    assert_eq!(QemuExitCode::Success.code(), 0x10);
    assert_eq!(QemuExitCode::Failed.code(), 0x11);
    assert_eq!(SerialLogger::new_qemu().base(), QEMU_SP_ADDR);
    let size = BufferSize::new(80, 25);
    assert_eq!((size.x, size.y), (80, 25));
}

#[test]
fn readline_edits_and_hands_out_line() {
    let mut rl = Readline::new();
    assert_eq!(retrieve_data(&mut rl), None);
    assert_eq!(handle_character(&mut rl, '\u{8}'), None);
    assert_eq!(handle_character(&mut rl, 'a'), Some('a'));
    assert_eq!(handle_character(&mut rl, 'b'), Some('b'));
    assert_eq!(handle_character(&mut rl, '\u{8}'), Some('\u{8}'));
    assert_eq!(handle_character(&mut rl, '\n'), None);
    assert_eq!(handle_character(&mut rl, 'c'), Some('c'));
    assert_eq!(retrieve_data(&mut rl), Some(String::from("ac")));
    assert_eq!(rl.retrieve_data(), None);
}

#[test]
fn scancodes_flow_through_the_stream() {
    let waker = Waker::noop();
    assert_eq!(add_scancode(None, 1), Delivery::Uninitialized);
    let q: KeyQueue<u8> = KeyQueue::new();
    let stream = ScancodeStream::new(q.share());
    assert_eq!(stream.poll_next(waker).0, None);
    assert_eq!(add_scancode(Some(&q), 0x1e), Delivery::Queued);
    assert_eq!(add_scancode(Some(&q), 0x9e), Delivery::Queued);
    assert_eq!(stream.poll_next(waker).0, Some(0x1e));
    assert_eq!(stream.poll_next(waker).0, Some(0x9e));
    assert_eq!(stream.poll_next(waker).0, None);
}

#[test]
fn full_scancode_queue_is_cleared() {
    let waker = Waker::noop();
    let q: KeyQueue<u8> = KeyQueue::new();
    for i in 0..SC_CAP {
        assert_eq!(add_scancode(Some(&q), i as u8), Delivery::Queued);
    }
    assert_eq!(add_scancode(Some(&q), 200), Delivery::Cleared);
    let stream = ScancodeStream::new(q.share());
    assert_eq!(stream.poll_next(waker).0, Some(200));
    assert_eq!(stream.poll_next(waker).0, None);
    assert_eq!(add_scancode(Some(&q), 7), Delivery::Queued);
    assert_eq!(stream.poll_next(waker).0, Some(7));
}

#[test]
fn decoded_keys_drop_when_full() {
    let waker = Waker::noop();
    assert_eq!(add_decoded_key(None, DecodedKey::Unicode('a')), Delivery::Uninitialized);
    let slot = WakeSlot::new();
    let stream = DecodedKeyStream::new(slot.share());
    assert_eq!(stream.poll_next(None, waker).0, None);
    let q: KeyQueue<DecodedKey> = KeyQueue::with_slot(&slot);
    for _ in 0..SC_CAP {
        assert_eq!(add_decoded_key(Some(&q), DecodedKey::Unicode('x')), Delivery::Queued);
    }
    assert_eq!(add_decoded_key(Some(&q), DecodedKey::Unicode('y')), Delivery::Dropped);
    assert_eq!(stream.poll_next(Some(&q), waker).0, Some(DecodedKey::Unicode('x')));
}

#[test]
fn poll_steps_follow_each_pop() {
    assert_eq!(first_look(Some(3u8)), FirstLook::Ready(3));
    assert_eq!(first_look::<u8>(None), FirstLook::RegisterAndRetry);
    assert_eq!(second_look(Some(4u8)), SecondLook::TakeWakerAndReady(4));
    assert_eq!(second_look::<u8>(None), SecondLook::Pending);
}

#[test]
fn delivery_follows_the_push_outcome() {
    let waker = Waker::noop();
    let q: KeyQueue<u8> = KeyQueue::new();
    let stream = ScancodeStream::new(q.share());
    assert_eq!(deliver_scancode(&q, Ok(())), Delivery::Queued);
    assert_eq!(deliver_scancode(&q, Err(9)), Delivery::Cleared);
    assert_eq!(stream.poll_next(waker).0, Some(9));
    let k: KeyQueue<DecodedKey> = KeyQueue::new();
    assert_eq!(deliver_decoded_key(&k, Ok(())), Delivery::Queued);
    assert_eq!(deliver_decoded_key(&k, Err(DecodedKey::Unicode('z'))), Delivery::Dropped);
}

use lockness::bags::error::{RecvError, SendError, TryRecvError, TrySendError};
use lockness::bags::mask::{clear_extra_bits, compute_request_mask, drain_mask};
use lockness::bags::mpsc::View;
use lockness::bags::{mpmc, mpsc_slot, MpmcReceiver, MpmcSender, SlotReceiver, SlotSender};

#[test]
fn mpsc_sanity() {
    assert_eq!(View::new(usize::MAX).first_available_block(), None);
    assert_eq!(View::new(usize::MAX << 1).first_available_block(), None);
    assert_eq!(
        View::new(usize::MAX << 2)
            .first_available_block()
            .map(|b| b.index),
        Some(62)
    );

    assert_eq!(View::new(0).first_available_block().map(|b| b.index), Some(0));
    assert_eq!(View::new(1).first_available_block().map(|b| b.index), Some(0));
    assert_eq!(
        View::new(1 << (usize::BITS - 1))
            .first_available_block()
            .map(|b| b.index),
        Some(1)
    );
}

#[test]
fn view_flags_and_blocks() {
    assert!(View::new(1).is_sleeping());
    assert!(!View::new(2).is_sleeping());
    assert!(View::new(1).is_empty());
    assert!(View::new(0).is_empty());
    assert!(!View::new(1 << 5).is_empty());
    let b = View::new(0).first_available_block().unwrap();
    assert_eq!(b.mask, 1 << (usize::BITS - 1));
    let mut iter = View::new((1 << (usize::BITS - 1)) | (1 << 3) | 1).into_iter();
    let first = iter.next().unwrap();
    assert_eq!(first.index, 0);
    assert_eq!(first.mask, 1 << (usize::BITS - 1));
    let second = iter.next().unwrap();
    assert_eq!(second.index, usize::BITS as usize - 4);
    assert_eq!(second.mask, 1 << 3);
    assert_eq!(iter.next(), None);
}

fn request_mask_string(items: usize, bias: u32) -> String {
    let result = compute_request_mask(items, bias);
    assert!(items >= result.count_ones() as usize);
    format!("compute_request_mask(items={items:#2}, bias={bias:#2})={result:#034b}\n")
}

#[test]
fn sane_request_mask() {
    let mut actual = String::new();
    for (i, bias) in [(1, 0), (1, 1), (1, 2), (1, 5), (1, 29), (30, 0), (30, 17), (30, 29), (7, 7), (7, 27)] {
        actual.push_str(&request_mask_string(i, bias));
    }
    let expected = "compute_request_mask(items= 1, bias= 0)=0b10000000000000000000000000000000
compute_request_mask(items= 1, bias= 1)=0b01000000000000000000000000000000
compute_request_mask(items= 1, bias= 2)=0b00100000000000000000000000000000
compute_request_mask(items= 1, bias= 5)=0b00000100000000000000000000000000
compute_request_mask(items= 1, bias=29)=0b00000000000000000000000000000100
compute_request_mask(items=30, bias= 0)=0b11111111111111111111111111111100
compute_request_mask(items=30, bias=17)=0b11111111111111111111111111111100
compute_request_mask(items=30, bias=29)=0b11111111111111111111111111111100
compute_request_mask(items= 7, bias= 7)=0b00000001111111000000000000000000
compute_request_mask(items= 7, bias=27)=0b11110000000000000000000000011100
";
    assert_eq!(expected, actual);
}

#[test]
fn request_mask_caps_at_thirty_items() {
    assert_eq!(compute_request_mask(100, 0), 0b11111111111111111111111111111100);
}

#[test]
fn clear_extra_bits_keeps_high_or_low() {
    let mask = 0b1011_0000_0000_0000_0000_0000_0000_0110u32;
    assert_eq!(clear_extra_bits(mask, 2, false), 0b1010_0000_0000_0000_0000_0000_0000_0000);
    assert_eq!(clear_extra_bits(mask, 2, true), 0b0000_0000_0000_0000_0000_0000_0000_0110);
    assert_eq!(clear_extra_bits(mask, 10, true), mask);
}

#[test]
fn drain_mask_lists_slots_in_order() {
    let mask = (1u32 << 31) | (1 << 20) | (1 << 2) | 1;
    assert_eq!(drain_mask(mask, 30), vec![0, 11, 29]);
    assert_eq!(drain_mask(mask, 32), vec![0, 11, 29, 31]);
    assert_eq!(drain_mask(0, 30), Vec::<usize>::new());
}

#[test]
fn drops_multi() {
    let (sender, receiver) = mpmc::<Box<i32>>();
    for i in 0..30 {
        let sender = sender.clone();
        sender.send(Box::new(i)).unwrap();
    }
    sender.try_send(Box::new(666)).unwrap_err();

    {
        let mut nums = receiver
            .clone()
            .recv()
            .unwrap()
            .into_iter()
            .map(|n| *n)
            .collect::<Vec<_>>();
        nums.sort_unstable();
        let expected = (0..30).collect::<Vec<_>>();
        assert_eq!(&expected, &nums);
    }
    receiver.try_recv().unwrap_err();
    drop(sender);
    receiver.recv().unwrap_err();
}

type MpmcSendFn<T> = fn(&MpmcSender<T>, T) -> Result<(), SendError<T>>;
type MpmcRecvFn<T> = fn(&MpmcReceiver<T>) -> Result<Vec<T>, RecvError>;

fn mpmc_send_polyfill<T>(sender: &MpmcSender<T>, mut value: T) -> Result<(), SendError<T>> {
    loop {
        match sender.try_send(value) {
            Ok(()) => return Ok(()),
            Err(TrySendError::Disconnected(t)) => return Err(SendError(t)),
            Err(TrySendError::Full(t)) => value = t,
        }
    }
}

fn mpmc_recv_polyfill<T>(receiver: &MpmcReceiver<T>) -> Result<Vec<T>, RecvError> {
    loop {
        match receiver.try_recv() {
            Ok(value) => return Ok(value),
            Err(TryRecvError::Disconnected) => return Err(RecvError),
            Err(TryRecvError::Empty) => (),
        }
    }
}

fn mpmc_drops(send: MpmcSendFn<Box<i32>>, recv: MpmcRecvFn<Box<i32>>) {
    {
        let (_sender, _receiver) = mpmc::<Box<i32>>();
    }
    {
        let (sender, _receiver) = mpmc::<Box<i32>>();
        send(&sender, Box::new(42)).unwrap();
    }
    {
        let (sender, receiver) = mpmc::<Box<i32>>();
        drop(receiver);
        send(&sender, Box::new(42)).unwrap_err();
    }
    {
        let (sender, receiver) = mpmc::<Box<i32>>();
        send(&sender, Box::new(42)).unwrap();
        drop(receiver);
        send(&sender, Box::new(666)).unwrap_err();
    }
    {
        let (sender, receiver) = mpmc::<Box<i32>>();
        drop(sender);
        recv(&receiver).unwrap_err();
    }
    {
        let (sender, receiver) = mpmc::<Box<i32>>();
        send(&sender, Box::new(666)).unwrap();
        drop(sender);
        let value = *recv(&receiver).unwrap().pop().unwrap();
        assert_eq!(666, value);
        recv(&receiver).unwrap_err();
    }
}

#[test]
fn mpmc_drops_polyfill() {
    mpmc_drops(mpmc_send_polyfill, mpmc_recv_polyfill);
}

#[test]
fn mpmc_drops_blocking() {
    mpmc_drops(|s, v| s.send(v), |r| r.recv());
}

#[test]
fn mpmc_sends_a_vector() {
    let (sender, receiver) = mpmc::<u32>();
    let mut items: Vec<u32> = (0..40).collect();
    sender.try_send(&mut items).unwrap();
    assert_eq!(items, (0..10).collect::<Vec<_>>());
    let mut got = receiver.try_recv().unwrap();
    got.sort_unstable();
    assert_eq!(got, (10..40).collect::<Vec<_>>());
    assert!(matches!(sender.try_send(&mut Vec::<u32>::new()), Ok(())));
}

type SlotSendFn<T> = fn(&SlotSender<T>, T) -> Result<(), SendError<T>>;
type SlotRecvFn<T> = fn(&SlotReceiver<T>) -> Result<T, RecvError>;

fn slot_send_polyfill<T>(sender: &SlotSender<T>, mut value: T) -> Result<(), SendError<T>> {
    loop {
        match sender.try_send(value) {
            Ok(()) => return Ok(()),
            Err(TrySendError::Disconnected(t)) => return Err(SendError(t)),
            Err(TrySendError::Full(t)) => value = t,
        }
    }
}

fn slot_recv_polyfill<T>(receiver: &SlotReceiver<T>) -> Result<T, RecvError> {
    loop {
        match receiver.try_recv() {
            Ok(value) => return Ok(value),
            Err(TryRecvError::Disconnected) => return Err(RecvError),
            Err(TryRecvError::Empty) => (),
        }
    }
}

fn slot_drops(send: SlotSendFn<Box<i32>>, recv: SlotRecvFn<Box<i32>>) {
    {
        let (_sender, _receiver) = mpsc_slot::<Box<i32>>();
    }
    {
        let (sender, _receiver) = mpsc_slot::<Box<i32>>();
        send(&sender, Box::new(42)).unwrap();
    }
    {
        let (sender, receiver) = mpsc_slot::<Box<i32>>();
        drop(receiver);
        send(&sender, Box::new(42)).unwrap_err();
    }
    {
        let (sender, receiver) = mpsc_slot::<Box<i32>>();
        send(&sender, Box::new(42)).unwrap();
        drop(receiver);
        send(&sender, Box::new(666)).unwrap_err();
    }
    {
        let (sender, receiver) = mpsc_slot::<Box<i32>>();
        drop(sender);
        recv(&receiver).unwrap_err();
    }
    {
        let (sender, receiver) = mpsc_slot::<Box<i32>>();
        send(&sender, Box::new(666)).unwrap();
        drop(sender);
        let value = *recv(&receiver).unwrap();
        assert_eq!(666, value);
        recv(&receiver).unwrap_err();
    }
}

#[test]
fn slot_drops_polyfill() {
    slot_drops(slot_send_polyfill, slot_recv_polyfill);
}

#[test]
fn slot_drops_blocking() {
    slot_drops(|s, v| s.send(v), |r| r.recv());
}

#[test]
fn slot_full_until_received() {
    let (sender, receiver) = mpsc_slot::<u8>();
    sender.try_send(1).unwrap();
    assert_eq!(sender.try_send(2), Err(TrySendError::Full(2)));
    assert_eq!(receiver.try_recv(), Ok(1));
    assert_eq!(receiver.try_recv(), Err(TryRecvError::Empty));
    sender.try_send(3).unwrap();
    assert_eq!(receiver.try_recv(), Ok(3));
}


#[test]
fn mpmc_send_hands_back_data_when_receivers_gone() {
    let (sender, receiver) = mpmc::<u32>();
    drop(receiver);
    match sender.send(7) {
        Err(SendError(v)) => assert_eq!(v, 7),
        Ok(()) => panic!("sent with no receiver"),
    }
    let mut items: Vec<u32> = vec![1, 2, 3];
    assert!(sender.send(&mut items).is_err());
    assert_eq!(items, vec![1, 2, 3]);
    assert!(sender.send(&mut Vec::<u32>::new()).is_ok());
}

#[test]
fn clear_extra_bits_worked_examples() {
    assert_eq!(clear_extra_bits(0b1011, 2, false), 0b1010);
    assert_eq!(clear_extra_bits(0b1011, 2, true), 0b0011);
}

use lockness::atomic_bag::slot::mpsc;
use lockness::atomic_bag::{won_block, StatusView};

#[test]
fn atomic_bag_sanity() {
    assert_eq!(StatusView::new(usize::MAX).first_available_block(), None);
    assert_eq!(StatusView::new(usize::MAX << 1).first_available_block(), None);
    assert_eq!(
        StatusView::new(usize::MAX << 2)
            .first_available_block()
            .map(|b| b.index),
        Some(62)
    );

    assert_eq!(
        StatusView::new(0).first_available_block().map(|b| b.index),
        Some(0)
    );
    assert_eq!(
        StatusView::new(1).first_available_block().map(|b| b.index),
        Some(0)
    );
    assert_eq!(
        StatusView::new(1 << (usize::BITS - 1))
            .first_available_block()
            .map(|b| b.index),
        Some(1)
    );
}

#[test]
fn status_view_iterates_occupied_blocks() {
    let view = StatusView::new((1 << (usize::BITS - 3)) | 1);
    assert!(view.is_sleeping());
    assert!(!view.is_empty());
    let mut iter = view.into_iter();
    let block = iter.next().unwrap();
    assert_eq!(block.index, 2);
    assert_eq!(block.mask, 1 << (usize::BITS - 3));
    assert_eq!(iter.next(), None);
    assert!(StatusView::new(1).is_empty());
}

#[test]
fn write() {
    let (sender, _) = mpsc();

    assert!(sender.try_send(Box::new(0usize)).is_none());
    for i in 1..10usize {
        assert_eq!(Some(Box::new(i - 1)), sender.try_send(Box::new(i)));
    }
}

#[test]
fn read() {
    let (_, receiver) = mpsc::<Box<usize>>();

    assert!(receiver.try_recv().is_none());
}

#[test]
fn push_pop() {
    let (sender, receiver) = mpsc();

    for i in 0..10usize {
        assert!(sender.try_send(Box::new(i)).is_none());
        assert_eq!(Some(Box::new(i)), receiver.try_recv());
    }
}

#[test]
fn recv_variants_take_the_latest_value() {
    let (sender, receiver) = mpsc();
    assert_eq!(receiver.recv(), None);
    assert_eq!(receiver.recv_timeout(std::time::Duration::from_millis(1)), None);
    sender.try_send(1u8);
    sender.try_send(2u8);
    assert_eq!(receiver.recv_timeout(std::time::Duration::from_millis(1)), Some(2));
    sender.try_send(3u8);
    assert_eq!(receiver.recv_deadline(std::time::Instant::now()), Some(3));
    sender.try_send(4u8);
    assert_eq!(receiver.recv(), Some(4));
}

#[test]
fn shutdown_returns_the_leftover_value() {
    let (sender, receiver) = mpsc();
    sender.try_send(7u32);
    drop(sender);
    assert_eq!(receiver.shutdown(), Some(7));

    let (sender, receiver) = mpsc();
    sender.try_send(7u32);
    assert_eq!(receiver.shutdown(), None);
    drop(sender);
}

#[test]
fn a_block_is_won_only_when_its_bit_was_clear() {
    assert!(won_block(0, 1 << 62));
    assert!(won_block(0b1011, 0b0100));
    assert!(!won_block(0b0100, 0b0100));
    assert!(!won_block(usize::MAX, 1 << 63));
}

#[test]
fn the_sleep_bit_never_changes_the_first_free_block() {
    for v in [0usize, 1, 0b110, usize::MAX << 3, usize::MAX >> 1, 1 << 63] {
        assert_eq!(
            StatusView::new(v).first_available_block(),
            StatusView::new(v ^ 1).first_available_block()
        );
    }
}

#[test]
fn block_iter_visits_every_occupied_block_once_in_order() {
    let bits = usize::BITS as usize;
    for v in [0usize, 1, usize::MAX, 0b1011_0110, (1 << (bits - 1)) | (1 << 5) | 1] {
        let mut iter = StatusView::new(v).into_iter();
        let mut seen = Vec::new();
        while let Some(b) = iter.next() {
            seen.push(b.index);
        }
        let expected: Vec<usize> = (0..bits - 1).filter(|i| v & (1 << (bits - 1 - i)) != 0).collect();
        assert_eq!(seen, expected);
        assert_eq!(iter.next(), None);
    }
}

use lockness::bag::status::StatusView;

#[test]
fn mod_sanity() {
    assert_eq!(StatusView(0xFF_FE_00_00).empty_blocks(), 0xFF_FE_00_00);
    assert_eq!(StatusView(0xFF_FE_00_00 >> 15).full_blocks(), 0xFF_FE_00_00);
    assert_eq!(StatusView(u32::MAX).empty_blocks(), 0xFF_FE_00_00);
    assert_eq!(StatusView(u32::MAX).full_blocks(), 0xFF_FE_00_00);

    assert_eq!(StatusView((1 << 31) >> 4).next_empty_block(), Some(4));
    assert_eq!(StatusView((1 << 31) >> (4 + 15)).next_full_block(), Some(4));

    assert_eq!(StatusView((1 << 31) >> 4).next_full_block(), None);
    assert_eq!(StatusView((1 << 31) >> (4 + 15)).next_empty_block(), None);

    assert_eq!(StatusView(0xFF_FE_00_00 >> 15).best_available_block(), None);
    assert_eq!(StatusView(0x01_00_00_00).best_available_block(), Some(7));
    assert_eq!(StatusView(0x00_01_00_00).best_available_block(), Some(1));
}

#[test]
fn init_marks_every_block_empty() {
    assert_eq!(StatusView::init(), 0xFF_FE_00_00);
    assert_eq!(StatusView(StatusView::init()).best_available_block(), Some(0));
    assert_eq!(StatusView(0).next_non_full_block(), Some(0));
    assert_eq!(StatusView(0x0001_fffc).next_non_full_block(), None);
}

#[test]
fn exhaustive() {
    for n in 0..=u32::MAX {
        assert_eq!(
            StatusView(n).best_available_block_for_testing(),
            StatusView(n).best_available_block()
        );
    }
}

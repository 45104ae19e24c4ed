use lockness::bag::block::TaskBlock;

#[test]
fn block_fill_drain() {
    let mut tasks = TaskBlock::new();

    let mut i = 0;
    while tasks.push(i).is_none() {
        i += 1;
    }

    while let Some(j) = tasks.pop() {
        i -= 1;
        assert_eq!(i, j);
    }

    assert!(tasks.is_empty());
}

#[test]
fn block_iter() {
    let mut tasks = TaskBlock::new();

    let mut i = 0;
    while tasks.push(i).is_none() {
        i += 1;
    }

    let mut collected = Vec::new();
    while let Some(task) = tasks.next() {
        collected.push(task);
    }
    assert_eq!(collected, (0..i).rev().collect::<Vec<_>>());
}

#[test]
fn drop() {
    let mut tasks = TaskBlock::new();

    tasks.push(0);
}

#[test]
fn block_holds_fifteen_tasks() {
    assert_eq!(TaskBlock::<u8>::capacity(), 15);
    let mut tasks = TaskBlock::new();
    for i in 0..15u8 {
        assert_eq!(tasks.push(i), None);
    }
    assert_eq!(tasks.push(99), Some(99));
    assert_eq!(tasks.pop(), Some(14));
}

use std::cell::Cell;
use std::rc::Rc;

use lockness::executor::{choose_max_threads, threads_from_setting, LocknessExecutorBuilder, SyncWrapper};
use lockness::scheduler::Builder;
use lockness::tasks::block::TaskBlock;
use lockness::RawOneLatest;

#[test]
fn raw_one_latest_keeps_the_latest() {
    let latest = RawOneLatest::default();
    assert_eq!(latest.try_pop(), None);
    assert_eq!(latest.push(1), None);
    assert_eq!(latest.push(2), Some(1));
    assert_eq!(latest.try_pop(), Some(2));
    assert_eq!(latest.try_pop(), None);
}

#[test]
fn task_block_runs_last_first() {
    let order = Rc::new(Cell::new(0));
    let mut block = TaskBlock::new();
    for i in 1..=3 {
        let order = order.clone();
        block.push(move || order.set(order.get() * 10 + i));
    }
    assert!(!block.pop_and_run());
    assert_eq!(order.get(), 3);
    block.reset();
    assert!(block.pop_and_run());
    assert_eq!(order.get(), 3);
}

#[test]
fn sync_wrapper_round_trip() {
    assert_eq!(SyncWrapper::new(5).into_inner(), 5);
}

#[test]
fn max_threads_setting() {
    assert_eq!(threads_from_setting(-1), None);
    assert_eq!(threads_from_setting(0), None);
    assert_eq!(threads_from_setting(8), Some(8));
    assert_eq!(choose_max_threads(Some(3), Some(16)), 3);
    assert_eq!(choose_max_threads(None, Some(16)), 16);
    assert_eq!(choose_max_threads(None, None), 1);
}

#[test]
fn executor_builder_uses_default_when_unset() {
    let _executor = LocknessExecutorBuilder::new().build((), 4);
    let _executor = LocknessExecutorBuilder::new().max_threads(2).build((), 4);
}

#[test]
fn scheduler_builder_caps_threads() {
    let _ = Builder::new(Some(1000));
    let mut builder = Builder::new(None);
    builder.max_num_threads(7).max_num_threads(9);
}

#[test]
fn raw_one_latest_wait_pop_takes_a_pushed_value() {
    let latest = RawOneLatest::default();
    latest.push(5);
    assert_eq!(latest.wait_pop(), Some(5));
    assert_eq!(latest.try_pop(), None);
}

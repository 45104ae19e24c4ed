use std::cell::Cell;
use std::rc::Rc;

use lockness::ClosureVec;

fn validate_correctness<F: FnOnce() + 'static>(mut f: impl FnMut(usize) -> F) {
    let mut tasks = ClosureVec::new();

    let count = Rc::new(Cell::new(0));

    for i in 0..3 {
        let f = f(i);
        let count = count.clone();
        tasks.push(move || {
            f();
            count.set(count.get() + 1);
        });
    }
    while !tasks.pop_and_run() {}

    assert_eq!(3, count.get());
}

fn validate_empty<F: FnOnce() + 'static>(mut f: impl FnMut(usize) -> F) {
    let mut tasks = ClosureVec::new();
    assert!(tasks.is_empty());

    for i in 0..3 {
        tasks.push(f(i));
        assert!(!tasks.is_empty());
    }

    for _ in 0..3 {
        assert!(!tasks.is_empty());
        assert!(!tasks.pop_and_run());
    }
    assert!(tasks.is_empty());
}

fn validate_do_nothing<F: FnOnce() + 'static>(mut f: impl FnMut(usize) -> F) {
    let mut tasks = ClosureVec::new();
    if false {
        tasks.push(f(42));
    }
}

fn validate_drop_without_running<F: FnOnce() + 'static>(mut f: impl FnMut(usize) -> F) {
    let mut tasks = ClosureVec::new();
    let f = f(69);
    tasks.push(move || {
        f();
        panic!("Should never run");
    });
}

fn validate_clear_add_cycle<F: FnOnce() + 'static>(mut f: impl FnMut(usize) -> F) {
    let mut tasks = ClosureVec::new();

    let count = Rc::new(Cell::new(0));

    for i in 0..3 {
        tasks.clear();
        let f = f(i);
        let count = count.clone();
        tasks.push(move || {
            f();
            count.set(count.get() + 1);
        });
    }
    while !tasks.pop_and_run() {}
    tasks.clear();

    assert_eq!(1, count.get());
}

fn validate_all<F: FnOnce() + 'static>(c: impl FnMut(usize) -> F + Clone + 'static) {
    validate_correctness(c.clone());
    validate_empty(c.clone());
    validate_clear_add_cycle(c.clone());
    validate_do_nothing(c.clone());
    validate_drop_without_running(c);
}

#[test]
fn closure_vec_zst() {
    validate_all(|_| || println!("{:?}", ()));
}

#[test]
fn closure_vec_normal() {
    validate_all(|i| {
        move || {
            println!("{i:?}");
        }
    });
}

#[derive(Clone, Debug)]
struct Big(Vec<usize>);

#[test]
fn big_ass() {
    let mut v = Big(Vec::new());
    validate_all(move |i| {
        v.0.push(i);
        {
            let v = v.clone();
            move || {
                println!("{:?}", &v);
            }
        }
    });
}

#[test]
fn pop_and_run_runs_the_last_pushed_first() {
    let order = Rc::new(Cell::new(0));
    let mut tasks = ClosureVec::new();
    for i in 1..=3 {
        let order = order.clone();
        tasks.push(move || order.set(order.get() * 10 + i));
    }
    while !tasks.pop_and_run() {}
    assert_eq!(order.get(), 321);
    assert!(tasks.pop_and_run());
}

#[test]
#[should_panic]
fn closure_vec_panic_in_drop() {
    #[derive(Debug)]
    struct P;

    impl Drop for P {
        fn drop(&mut self) {
            panic!("Lol get fucked");
        }
    }

    let mut tasks = ClosureVec::new();
    let p = P;
    let v = vec![true, false];
    tasks.push(move || {
        println!("{:?} {:?}", &v, &p);
    });
}

#[test]
#[should_panic]
fn panic_in_f() {
    let mut tasks = ClosureVec::new();
    let v = vec![true, false];
    tasks.push(move || {
        println!("{:?}", &v);
        panic!("Life's tough");
    });
    tasks.pop_and_run();
}

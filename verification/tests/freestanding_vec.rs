use lockness::FreestandingVec;

#[test]
fn validate_empty() {
    let mut v = FreestandingVec::new(());
    assert!(v.is_empty());

    for i in 0..3 {
        v.push(i);
        assert!(!v.is_empty());
    }

    for _ in 0..3 {
        assert!(!v.is_empty());
        assert!(v.pop(|(), _| ()).is_some());
    }
    assert!(v.is_empty());
}

#[test]
fn validate_do_nothing() {
    drop(FreestandingVec::<Vec<usize>, Vec<usize>>::new(vec![1]));
}

#[test]
fn freestanding_vec_zst() {
    let mut v = FreestandingVec::new(());

    for i in 0..1000 {
        v.push(i);
    }
    for i in (0..1000).rev() {
        assert_eq!(Some(i), v.pop(|(), x| x));
    }
}

#[test]
fn freestanding_vec_normal() {
    let mut v = FreestandingVec::new(vec![1, 2, 3]);

    for i in 0..1000 {
        v.push(Box::new(i));
    }

    for i in (0..1000).rev() {
        assert_eq!(
            Some(i),
            v.pop(|v, x| {
                assert_eq!(&[1, 2, 3], v.as_slice());
                *x
            })
        );
    }
}

#[derive(Clone, Debug)]
struct Big(Vec<usize>);

#[test]
fn big() {
    let mut v = FreestandingVec::new(vec![1, 2, 3]);

    {
        let mut b = Big(Vec::new());
        for i in 0..100 {
            b.0.push(i);
            v.push(b.clone());
        }
    }

    for i in (0..100).rev() {
        assert_eq!(
            Some((0..=i).collect::<Vec<_>>()),
            v.pop(|v, b| {
                assert_eq!(&[1, 2, 3], v.as_slice());
                b.0
            })
        );
    }
}

#[test]
fn init_starts_over() {
    let mut tasks = FreestandingVec::new(());
    for _ in 0..4 {
        tasks.push(42usize);
    }
    tasks.init(());
    assert!(tasks.is_empty());
    for _ in 0..4 {
        tasks.push(42usize);
    }
    for _ in 0..4 {
        assert!(tasks.pop(|(), x| x).is_some());
    }
    assert!(tasks.pop(|(), x| x).is_none());
}

#[test]
#[should_panic]
fn freestanding_vec_panic_in_drop() {
    #[derive(Debug)]
    struct P;

    impl Drop for P {
        fn drop(&mut self) {
            panic!("Lol get fucked");
        }
    }

    let mut v = FreestandingVec::new(P);
    v.push(());
}

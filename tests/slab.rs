use cubism::slab::SimpleSlab;

#[test]
fn simple_slab_push() {
    let mut slab = SimpleSlab::new();
    assert_eq!(0, slab.push(100));
    assert_eq!(1, slab.push(101));
    assert_eq!(slab.last_free(), 2);
    assert_eq!(slab.len(), 2);
}

#[test]
fn simple_slab_take() {
    let mut slab = SimpleSlab::new();
    assert_eq!(0, slab.push(100));
    assert_eq!(1, slab.push(101));
    assert_eq!(Some(100), slab.take(0));
    assert_eq!(slab.last_free(), 0);
    assert_eq!(slab.len(), 2);
}

#[test]
fn simple_slab_take_push() {
    let mut slab = SimpleSlab::new();
    assert_eq!(0, slab.push(100));
    assert_eq!(1, slab.push(101));
    assert_eq!(2, slab.push(102));
    assert_eq!(Some(101), slab.take(1));
    assert_eq!(slab.last_free(), 1);
    assert_eq!(slab.len(), 3);
    assert_eq!(1, slab.push(104));
}

#[test]
fn slab_refill_skips_to_next_hole() {
    let mut slab = SimpleSlab::new();
    for v in 0..5 {
        slab.push(v);
    }
    assert_eq!(Some(1), slab.take(1));
    assert_eq!(Some(3), slab.take(3));
    assert_eq!(1, slab.push(10));
    assert_eq!(slab.last_free(), 3);
    assert_eq!(3, slab.push(11));
    assert_eq!(slab.last_free(), 5);
    assert_eq!(5, slab.push(12));
}

#[test]
fn slab_take_out_of_range_or_empty() {
    let mut slab = SimpleSlab::new();
    slab.push(7);
    assert_eq!(None, slab.take(4));
    assert_eq!(Some(7), slab.take(0));
    assert_eq!(None, slab.take(0));
    assert_eq!(slab.len(), 1);
}

#[test]
fn slab_get_and_get_mut() {
    let mut slab = SimpleSlab::new();
    slab.push(1);
    slab.push(2);
    assert_eq!(slab.get(1), Some(&2));
    assert_eq!(slab.get(2), None);
    if let Some(v) = slab.get_mut(0) {
        *v = 9;
    }
    assert_eq!(slab.get(0), Some(&9));
    slab.take(0);
    assert!(slab.get_mut(0).is_none());
    assert_eq!(slab.iter().len(), 2);
    assert!(slab.iter()[0].is_none());
}

use cubism::mem::{AlignedMemory, MemLayout, MODEL_ALIGNMENT, MOC_ALIGNMENT};

#[test]
fn test_mem_alloc() {
    let m = AlignedMemory::allocate(100, 4);
    assert_eq!(m.layout().size(), 100);
    assert_eq!(m.layout().align(), 4);
    assert!(m.as_slice().iter().all(|b| *b == 0));
}

#[test]
fn alignment() {
    let m = AlignedMemory::allocate(128, MOC_ALIGNMENT);
    assert_eq!(m.layout().align(), 64);
}

#[test]
fn model_alignment() {
    let m = AlignedMemory::allocate(32, MODEL_ALIGNMENT);
    assert_eq!(m.layout().align(), 16);
}

#[test]
fn layout_rejects_bad_alignment() {
    assert!(MemLayout::from_size_align(8, 0).is_none());
    assert!(MemLayout::from_size_align(8, 3).is_none());
    assert!(MemLayout::from_size_align(8, 12).is_none());
    assert!(MemLayout::from_size_align(8, 8).is_some());
    assert!(MemLayout::from_size_align(isize::MAX as usize, 2).is_none());
    assert!(MemLayout::from_size_align(isize::MAX as usize, 1).is_some());
}

//! Buffer layouts (size and a power-of-two alignment) and fixed-size byte
//! buffers that carry the layout they are meant for.

use vstd::prelude::*;

verus! {

/// The alignment that moc storage requires.
pub const MOC_ALIGNMENT: usize = 64;
/// The alignment that model storage requires.
pub const MODEL_ALIGNMENT: usize = 16;

/// Whether `n` is a power of two.
pub open spec fn is_power_of_two(n: nat) -> bool
    decreases n,
{
    if n == 1 {
        true
    } else if n < 2 || n % 2 != 0 {
        false
    } else {
        is_power_of_two(n / 2)
    }
}

/// Whether `size` bytes at alignment `align` form a valid layout: the
/// alignment is a power of two and the size, rounded up to it, does not
/// exceed `isize::MAX`.
pub open spec fn valid_layout(size: nat, align: nat) -> bool {
    &&& is_power_of_two(align)
    &&& size + align - 1 <= isize::MAX
}

fn power_of_two(n: usize) -> (r: bool)
    ensures
        r == is_power_of_two(n as nat),
{
    let mut m: usize = n;
    while m >= 2 && m % 2 == 0
        invariant
            is_power_of_two(m as nat) == is_power_of_two(n as nat),
        decreases m,
    {
        m = m / 2;
    }
    m == 1
}

/// The size and alignment of a buffer.
#[derive(Copy, Clone, Debug, PartialEq, Eq, Structural)]
pub struct MemLayout {
    size: usize,
    align: usize,
}

impl MemLayout {
    pub closed spec fn size_spec(&self) -> usize {
        self.size
    }

    pub closed spec fn align_spec(&self) -> usize {
        self.align
    }

    /// The layout of `size` bytes at alignment `align`, if that is valid.
    pub fn from_size_align(size: usize, align: usize) -> (r: Option<MemLayout>)
        ensures
            r is Some <==> valid_layout(size as nat, align as nat),
            r is Some ==> r.unwrap().size_spec() == size && r.unwrap().align_spec() == align,
    {
        if !power_of_two(align) {
            return None;
        }
        if align - 1 > isize::MAX as usize || size > (isize::MAX as usize) - (align - 1) {
            return None;
        }
        Some(MemLayout { size, align })
    }

    /// The size in bytes.
    pub fn size(&self) -> (r: usize)
        ensures
            r == self.size_spec(),
    {
        self.size
    }

    /// The alignment in bytes.
    pub fn align(&self) -> (r: usize)
        ensures
            r == self.align_spec(),
    {
        self.align
    }
}

/// A zero-initialised buffer of a fixed size together with the layout it is
/// meant for. The library keeps the layout as a record and does not align
/// the storage itself: memory that the native core works in is allocated by
/// the host at `layout()`. The buffer is never resized.
pub struct AlignedMemory {
    buf: Vec<u8>,
    layout: MemLayout,
}

impl AlignedMemory {
    pub closed spec fn bytes(&self) -> Seq<u8> {
        self.buf@
    }

    pub closed spec fn layout_spec(&self) -> MemLayout {
        self.layout
    }

    /// A buffer of `size` zero bytes at alignment `align`.
    pub fn allocate(size: usize, align: usize) -> (r: AlignedMemory)
        requires
            valid_layout(size as nat, align as nat),
        ensures
            r.layout_spec().size_spec() == size,
            r.layout_spec().align_spec() == align,
            r.bytes() == Seq::new(size as nat, |_i: int| 0u8),
    {
        let layout = match MemLayout::from_size_align(size, align) {
            Some(l) => l,
            None => MemLayout { size, align },
        };
        let mut buf: Vec<u8> = Vec::new();
        let mut i: usize = 0;
        while i < size
            invariant
                i <= size,
                buf@ == Seq::new(i as nat, |_j: int| 0u8),
            decreases size - i,
        {
            buf.push(0u8);
            i = i + 1;
            assert(buf@ =~= Seq::new(i as nat, |_j: int| 0u8));
        }
        AlignedMemory { buf, layout }
    }

    /// The buffer's size and alignment.
    pub fn layout(&self) -> (r: &MemLayout)
        ensures
            *r == self.layout_spec(),
    {
        &self.layout
    }

    /// The buffer's bytes.
    pub fn as_slice(&self) -> (r: &[u8])
        ensures
            r@ == self.bytes(),
    {
        self.buf.as_slice()
    }
}

} // verus!

use vstd::prelude::*;

verus! {

/// Size of the addressable memory: addresses wrap modulo this many bytes.
pub const MEMORY_SIZE: usize = 0x1000;

/// The address that `address` refers to once wrapped into the address space.
pub open spec fn wrap(address: int) -> int {
    address % (MEMORY_SIZE as int)
}

/// A fully zeroed address space.
pub open spec fn zeroed() -> Seq<u8> {
    Seq::new(MEMORY_SIZE as nat, |k: int| 0u8)
}

/// Addressable memory: a byte store that grows on demand up to
/// `MEMORY_SIZE` bytes. Addresses are taken modulo `MEMORY_SIZE`, so every
/// access succeeds; bytes that were never written read as zero.
pub struct Mmu {
    ram: Vec<u8>,
}

impl View for Mmu {
    type V = Seq<u8>;

    /// The whole address space: the bytes held so far, then zeros.
    closed spec fn view(&self) -> Seq<u8> {
        Seq::new(MEMORY_SIZE as nat, |k: int| if k < self.ram.len() { self.ram[k] } else { 0u8 })
    }
}

impl Mmu {
    /// The view always spans the whole address space.
    pub proof fn lemma_view_len(&self)
        ensures
            self@.len() == MEMORY_SIZE,
    {
    }

    /// An empty memory unit: every address reads as zero.
    pub fn new() -> (r: Mmu)
        ensures
            r@ == zeroed(),
    {
        let r = Mmu { ram: Vec::new() };
        assert(r@ =~= zeroed());
        r
    }

    /// Zeroes every byte held, keeping the storage that was allocated.
    pub fn clear(&mut self)
        ensures
            final(self)@ == zeroed(),
    {
        let n = self.ram.len();
        let mut k: usize = 0;
        while k < n
            invariant
                n == self.ram.len(),
                k <= n,
                forall|j: int| 0 <= j < k ==> self.ram[j] == 0,
            decreases n - k,
        {
            self.ram.set(k, 0);
            k = k + 1;
        }
        assert(self@ =~= zeroed());
    }

    /// Makes sure that the byte at `address` (already wrapped) is held.
    fn extend(&mut self, address: usize)
        requires
            address < MEMORY_SIZE,
        ensures
            final(self)@ == old(self)@,
            address < final(self).ram.len(),
    {
        if address >= self.ram.len() {
            let ghost before = self@;
            self.ram.resize(address + 1, 0);
            assert forall|k: int| 0 <= k < self.ram.len() implies self.ram[k] == before[k] by {
                if k >= old(self).ram.len() {
                    assert(self.ram@[k] == 0u8);
                }
            }
            assert(self@ =~= before);
        }
    }

    /// The byte at `address`, wrapped into the address space.
    pub fn read(&mut self, address: usize) -> (r: u8)
        ensures
            r == old(self)@[wrap(address as int)],
            final(self)@ == old(self)@,
    {
        let a = address % MEMORY_SIZE;
        self.extend(a);
        self.ram[a]
    }

    /// Stores `value` at `address`, wrapped into the address space.
    pub fn write(&mut self, address: usize, value: u8)
        ensures
            final(self)@ == old(self)@.update(wrap(address as int), value),
    {
        let a = address % MEMORY_SIZE;
        self.extend(a);
        self.ram.set(a, value);
        assert(self@ =~= old(self)@.update(wrap(address as int), value));
    }

    /// Copies `buffer` into memory starting at `address`.
    pub fn write_all(&mut self, address: usize, buffer: &[u8])
        requires
            address + buffer@.len() <= MEMORY_SIZE,
        ensures
            final(self)@ == old(self)@.subrange(0, address as int) + buffer@ + old(self)@.subrange(
                address + buffer@.len(),
                MEMORY_SIZE as int,
            ),
    {
        let n = buffer.len();
        let mut k: usize = 0;
        while k < n
            invariant
                n == buffer@.len(),
                address + n <= MEMORY_SIZE,
                k <= n,
                self@.len() == MEMORY_SIZE,
                forall|j: int| 0 <= j < address ==> self@[j] == old(self)@[j],
                forall|j: int| 0 <= j < k ==> self@[address + j] == buffer@[j],
                forall|j: int| address + k <= j < MEMORY_SIZE ==> self@[j] == old(self)@[j],
            decreases n - k,
        {
            self.write(address + k, buffer[k]);
            k = k + 1;
        }
        assert(self@ =~= old(self)@.subrange(0, address as int) + buffer@ + old(self)@.subrange(
            address + buffer@.len(),
            MEMORY_SIZE as int,
        ));
    }
}

impl Default for Mmu {
    fn default() -> (r: Mmu)
        ensures
            r@ == zeroed(),
    {
        Mmu::new()
    }
}

} // verus!

//! The flat 64 KiB byte array shared by code and data, with bounds-checked
//! accessors for callers that index by `usize` and total accessors for the
//! execution engine, whose 16-bit addresses always lie in range.

use vstd::prelude::*;

verus! {

/// Number of bytes in the flat address space.
pub const MEMORY_SIZE: usize = 0x10000;

/// A memory access through the `usize`-indexed accessors failed: the offending
/// index lies at or beyond `MEMORY_SIZE`. The state is left unchanged.
#[derive(Debug, Clone, Copy, PartialEq, Eq, Structural)]
pub struct ExecutionFault {
    pub address: usize,
}

/// Flat byte-addressed memory. Every value of this type holds exactly
/// `MEMORY_SIZE` bytes, so every 16-bit address is a valid index.
#[derive(Debug)]
pub struct Memory {
    addresses: Vec<u8>,
}

impl View for Memory {
    type V = Seq<u8>;

    closed spec fn view(&self) -> Seq<u8> {
        self.addresses@
    }
}

impl Memory {
    #[verifier::type_invariant]
    spec fn wf(self) -> bool {
        self.addresses@.len() == MEMORY_SIZE
    }

    /// A fresh memory, zero-filled.
    pub fn new() -> (m: Memory)
        ensures
            m@.len() == MEMORY_SIZE,
            forall|i: int| 0 <= i < MEMORY_SIZE ==> m@[i] == 0u8,
    {
        let mut addresses: Vec<u8> = Vec::new();
        while addresses.len() < MEMORY_SIZE
            invariant
                addresses@.len() <= MEMORY_SIZE,
                forall|i: int| 0 <= i < addresses@.len() ==> addresses@[i] == 0u8,
            decreases MEMORY_SIZE - addresses@.len(),
        {
            addresses.push(0u8);
        }
        Memory { addresses }
    }

    /// Total read at a 16-bit address; used by the execution engine.
    pub fn read_byte(&self, address: u16) -> (value: u8)
        ensures
            value == self@[address as int],
    {
        proof {
            use_type_invariant(self);
        }
        self.addresses[address as usize]
    }

    /// Total write at a 16-bit address; used by the execution engine.
    pub fn write_byte(&mut self, address: u16, value: u8)
        ensures
            final(self)@ == old(self)@.update(address as int, value),
    {
        proof {
            use_type_invariant(&*self);
        }
        self.addresses[address as usize] = value;
    }

    /// Bounds-checked read: succeeds exactly when the index is below
    /// `MEMORY_SIZE`, and otherwise reports the offending index.
    pub fn read(&self, address: usize) -> (r: Result<u8, ExecutionFault>)
        ensures
            address < MEMORY_SIZE ==> r == Ok::<u8, ExecutionFault>(self@[address as int]),
            address >= MEMORY_SIZE ==> r == Err::<u8, ExecutionFault>(
                (ExecutionFault { address }),
            ),
    {
        proof {
            use_type_invariant(self);
        }
        if address < MEMORY_SIZE {
            Ok(self.addresses[address])
        } else {
            Err(ExecutionFault { address })
        }
    }

    /// Bounds-checked write: succeeds exactly when the index is below
    /// `MEMORY_SIZE`; a failed write leaves the contents unchanged.
    pub fn write(&mut self, address: usize, value: u8) -> (r: Result<(), ExecutionFault>)
        ensures
            address < MEMORY_SIZE ==> final(self)@ == old(self)@.update(address as int, value)
                && r == Ok::<(), ExecutionFault>(()),
            address >= MEMORY_SIZE ==> final(self)@ == old(self)@ && r == Err::<
                (),
                ExecutionFault,
            >((ExecutionFault { address })),
    {
        proof {
            use_type_invariant(&*self);
        }
        if address < MEMORY_SIZE {
            self.addresses[address] = value;
            Ok(())
        } else {
            Err(ExecutionFault { address })
        }
    }

    /// Bounds-checked 16-bit write, big-endian: the high byte lands at
    /// `address`, the low byte at `address + 1`. Fails, leaving the contents
    /// unchanged, when either index is out of range.
    pub fn write_word(&mut self, address: usize, value: u16) -> (r: Result<(), ExecutionFault>)
        ensures
            address + 1 < MEMORY_SIZE ==> final(self)@ == old(self)@.update(
                address as int,
                (value / 256) as u8,
            ).update(address + 1, (value % 256) as u8) && r == Ok::<(), ExecutionFault>(()),
            address + 1 >= MEMORY_SIZE && address < MEMORY_SIZE ==> final(self)@ == old(self)@
                && r == Err::<(), ExecutionFault>((ExecutionFault { address: (address + 1) as usize })),
            address >= MEMORY_SIZE ==> final(self)@ == old(self)@ && r == Err::<
                (),
                ExecutionFault,
            >((ExecutionFault { address })),
    {
        proof {
            use_type_invariant(&*self);
        }
        if address >= MEMORY_SIZE {
            Err(ExecutionFault { address })
        } else if address + 1 >= MEMORY_SIZE {
            Err(ExecutionFault { address: address + 1 })
        } else {
            self.addresses[address] = (value / 256) as u8;
            self.addresses[address + 1] = (value % 256) as u8;
            Ok(())
        }
    }

    /// Writes `bytes` sequentially starting at address 0, leaving the rest of
    /// memory unchanged. Fails, changing nothing, when the sequence does not
    /// fit; the reported index is the first that would fall out of range.
    pub fn load(&mut self, bytes: &Vec<u8>) -> (r: Result<(), ExecutionFault>)
        ensures
            bytes@.len() <= MEMORY_SIZE ==> final(self)@ == bytes@ + old(self)@.skip(
                bytes@.len() as int,
            ) && r == Ok::<(), ExecutionFault>(()),
            bytes@.len() > MEMORY_SIZE ==> final(self)@ == old(self)@ && r == Err::<
                (),
                ExecutionFault,
            >((ExecutionFault { address: MEMORY_SIZE })),
    {
        proof {
            use_type_invariant(&*self);
        }
        if bytes.len() > MEMORY_SIZE {
            return Err(ExecutionFault { address: MEMORY_SIZE });
        }
        let mut i: usize = 0;
        while i < bytes.len()
            invariant
                i <= bytes@.len() <= MEMORY_SIZE,
                self.addresses@.len() == MEMORY_SIZE,
                forall|k: int| 0 <= k < i ==> self.addresses@[k] == bytes@[k],
                forall|k: int| i <= k < MEMORY_SIZE ==> self.addresses@[k] == old(self)@[k],
            decreases bytes@.len() - i,
        {
            self.addresses[i] = bytes[i];
            i += 1;
        }
        proof {
            assert(self.addresses@ =~= bytes@ + old(self)@.skip(bytes@.len() as int));
        }
        Ok(())
    }
}

} // verus!

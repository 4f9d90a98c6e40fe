use vstd::prelude::*;

verus! {

pub const BIOS_BASE: u32 = 0x0000_0000;
pub const BIOS_SIZE: u32 = 0x4000;
pub const ONBOARD_WRAM_BASE: u32 = 0x0200_0000;
pub const ONBOARD_WRAM_SIZE: u32 = 0x4_0000;
pub const ONCHIP_WRAM_BASE: u32 = 0x0300_0000;
pub const ONCHIP_WRAM_SIZE: u32 = 0x8000;
pub const ROM_BASE: u32 = 0x0800_0000;
pub const ROM_SIZE: u32 = 0x0200_0000;

/// `addr` lies in the region of `size` bytes that starts at `base`.
pub open spec fn in_region(addr: u32, base: u32, size: u32) -> bool {
    base <= addr && addr - base < size
}

/// `addr` lies in one of the two RAM regions.
pub open spec fn in_ram(addr: u32) -> bool {
    in_region(addr, ONBOARD_WRAM_BASE, ONBOARD_WRAM_SIZE) || in_region(
        addr,
        ONCHIP_WRAM_BASE,
        ONCHIP_WRAM_SIZE,
    )
}

/// The byte at `offset` of a region backed by `data`: past the end of the
/// data, a region reads as zero.
pub open spec fn backed_byte(data: Seq<u8>, offset: int) -> u8 {
    if 0 <= offset < data.len() {
        data[offset]
    } else {
        0
    }
}

/// What a memory made from a firmware image and a cartridge image holds at
/// `addr`, before any write.
pub open spec fn initial_byte(bios: Seq<u8>, rom: Seq<u8>, addr: u32) -> u8 {
    if in_region(addr, BIOS_BASE, BIOS_SIZE) {
        backed_byte(bios, addr - BIOS_BASE)
    } else if in_region(addr, ROM_BASE, ROM_SIZE) {
        backed_byte(rom, addr - ROM_BASE)
    } else {
        0
    }
}

/// Little-endian composition of four bytes, `b0` the least significant.
pub open spec fn word_of_bytes(b0: u8, b1: u8, b2: u8, b3: u8) -> u32 {
    ((b3 as u32) << 24) | ((b2 as u32) << 16) | ((b1 as u32) << 8) | (b0 as u32)
}

/// Byte `k` (0 the least significant) of `v`.
pub open spec fn byte_of(v: u32, k: u32) -> u8 {
    ((v >> (8 * k) as u32) & 0xFF) as u8
}

/// `m1` is `m0` after a store of byte `v` at `addr`: the byte lands where
/// `addr` is writable, and nothing else changes.
pub open spec fn byte_stored(m0: Memory, m1: Memory, addr: u32, v: u8) -> bool {
    &&& forall|a: u32| #[trigger]
        m1.byte_at(a) == if a == addr && m0.writable(a) {
            v
        } else {
            m0.byte_at(a)
        }
    &&& forall|a: u32| #[trigger] m1.writable(a) == m0.writable(a)
}

/// `m1` is `m0` after a store of word `v` at `addr` rounded down to a
/// multiple of 4, least significant byte first: each byte lands where its
/// address is writable, and nothing else changes.
pub open spec fn word_stored(m0: Memory, m1: Memory, addr: u32, v: u32) -> bool {
    let base = addr & 0xFFFF_FFFC;
    &&& forall|a: u32| #[trigger]
        m1.byte_at(a) == if base <= a && a - base < 4 && m0.writable(a) {
            byte_of(v, (a - base) as u32)
        } else {
            m0.byte_at(a)
        }
    &&& forall|a: u32| #[trigger] m1.writable(a) == m0.writable(a)
}

/// Byte-addressable memory of four disjoint regions: boot firmware, on-board
/// RAM, on-chip RAM and cartridge ROM. Addresses outside them, or past a
/// region's data, read as zero; writes outside the RAM regions are ignored.
pub struct Memory {
    bios: Vec<u8>,
    onboard_wram: Vec<u8>,
    onchip_wram: Vec<u8>,
    rom: Vec<u8>,
}

impl Memory {
    /// The byte that a read of `addr` returns.
    pub closed spec fn byte_at(&self, addr: u32) -> u8 {
        if in_region(addr, BIOS_BASE, BIOS_SIZE) {
            backed_byte(self.bios@, addr - BIOS_BASE)
        } else if in_region(addr, ONBOARD_WRAM_BASE, ONBOARD_WRAM_SIZE) {
            backed_byte(self.onboard_wram@, addr - ONBOARD_WRAM_BASE)
        } else if in_region(addr, ONCHIP_WRAM_BASE, ONCHIP_WRAM_SIZE) {
            backed_byte(self.onchip_wram@, addr - ONCHIP_WRAM_BASE)
        } else if in_region(addr, ROM_BASE, ROM_SIZE) {
            backed_byte(self.rom@, addr - ROM_BASE)
        } else {
            0
        }
    }

    /// A write of `addr` takes effect: it lies in RAM and RAM is backed there.
    pub closed spec fn writable(&self, addr: u32) -> bool {
        if in_region(addr, ONBOARD_WRAM_BASE, ONBOARD_WRAM_SIZE) {
            addr - ONBOARD_WRAM_BASE < self.onboard_wram@.len()
        } else if in_region(addr, ONCHIP_WRAM_BASE, ONCHIP_WRAM_SIZE) {
            addr - ONCHIP_WRAM_BASE < self.onchip_wram@.len()
        } else {
            false
        }
    }

    /// The little-endian word that a read of `addr` returns; addresses wrap
    /// past the top of the address space.
    pub open spec fn word_at(&self, addr: u32) -> u32 {
        word_of_bytes(
            self.byte_at(addr),
            self.byte_at(addr.wrapping_add(1)),
            self.byte_at(addr.wrapping_add(2)),
            self.byte_at(addr.wrapping_add(3)),
        )
    }

    /// Every RAM address takes writes.
    pub open spec fn ram_backed(&self) -> bool {
        forall|a: u32| in_ram(a) ==> #[trigger] self.writable(a)
    }

    /// Memory with empty firmware and cartridge images and zeroed RAM: every
    /// address reads as zero.
    pub fn new() -> (m: Memory)
        ensures
            forall|a: u32| #[trigger] m.byte_at(a) == 0,
            m.ram_backed(),
    {
        Memory::new_with_bios_and_rom(Vec::new(), Vec::new())
    }

    /// Memory holding `bios` at the firmware base and `rom` at the cartridge
    /// base, with zeroed RAM. Only the first 16 KiB of `bios` and 32 MiB of
    /// `rom` can be addressed.
    pub fn new_with_bios_and_rom(bios: Vec<u8>, rom: Vec<u8>) -> (m: Memory)
        ensures
            forall|a: u32| #[trigger] m.byte_at(a) == initial_byte(bios@, rom@, a),
            m.ram_backed(),
    {
        let onboard_wram = zeroed(ONBOARD_WRAM_SIZE as usize);
        let onchip_wram = zeroed(ONCHIP_WRAM_SIZE as usize);
        Memory { bios, onboard_wram, onchip_wram, rom }
    }

    /// Reads one byte.
    pub fn get_byte(&self, addr: u32) -> (r: u8)
        ensures
            r == self.byte_at(addr),
    {
        if addr < BIOS_BASE + BIOS_SIZE {
            read_backed(&self.bios, addr - BIOS_BASE)
        } else if ONBOARD_WRAM_BASE <= addr && addr - ONBOARD_WRAM_BASE < ONBOARD_WRAM_SIZE {
            read_backed(&self.onboard_wram, addr - ONBOARD_WRAM_BASE)
        } else if ONCHIP_WRAM_BASE <= addr && addr - ONCHIP_WRAM_BASE < ONCHIP_WRAM_SIZE {
            read_backed(&self.onchip_wram, addr - ONCHIP_WRAM_BASE)
        } else if ROM_BASE <= addr && addr - ROM_BASE < ROM_SIZE {
            read_backed(&self.rom, addr - ROM_BASE)
        } else {
            0
        }
    }

    /// Reads a little-endian halfword from `addr` and `addr + 1`.
    pub fn get_halfword(&self, addr: u32) -> (r: u16)
        ensures
            r == self.byte_at(addr) as u16 + 256 * self.byte_at(addr.wrapping_add(1)) as u16,
    {
        let lo = self.get_byte(addr) as u16;
        let hi = self.get_byte(addr.wrapping_add(1)) as u16;
        hi * 256 + lo
    }

    /// Reads a little-endian word from `addr` to `addr + 3`.
    pub fn get_word(&self, addr: u32) -> (r: u32)
        ensures
            r == self.word_at(addr),
    {
        let b0 = self.get_byte(addr);
        let b1 = self.get_byte(addr.wrapping_add(1));
        let b2 = self.get_byte(addr.wrapping_add(2));
        let b3 = self.get_byte(addr.wrapping_add(3));
        ((b3 as u32) << 24) | ((b2 as u32) << 16) | ((b1 as u32) << 8) | (b0 as u32)
    }

    /// Writes one byte: the write lands where `addr` is writable and is
    /// ignored elsewhere.
    pub fn set_byte(&mut self, addr: u32, value: u8)
        ensures
            byte_stored(*old(self), *final(self), addr, value),
    {
        if ONBOARD_WRAM_BASE <= addr && addr - ONBOARD_WRAM_BASE < ONBOARD_WRAM_SIZE {
            let off = (addr - ONBOARD_WRAM_BASE) as usize;
            if off < self.onboard_wram.len() {
                self.onboard_wram.set(off, value);
            }
        } else if ONCHIP_WRAM_BASE <= addr && addr - ONCHIP_WRAM_BASE < ONCHIP_WRAM_SIZE {
            let off = (addr - ONCHIP_WRAM_BASE) as usize;
            if off < self.onchip_wram.len() {
                self.onchip_wram.set(off, value);
            }
        }
    }

    /// Writes the word `value` at `addr` rounded down to a multiple of 4,
    /// least significant byte first; each byte lands where its address is
    /// writable.
    pub fn set_word(&mut self, addr: u32, value: u32)
        ensures
            word_stored(*old(self), *final(self), addr, value),
    {
        let base = addr & 0xFFFF_FFFC;
        assert(base <= 0xFFFF_FFFC) by (bit_vector)
            requires
                base == addr & 0xFFFF_FFFC,
        ;
        let b0 = (value & 0xFF) as u8;
        let b1 = ((value >> 8) & 0xFF) as u8;
        let b2 = ((value >> 16) & 0xFF) as u8;
        let b3 = ((value >> 24) & 0xFF) as u8;
        assert(b0 == byte_of(value, 0) && b1 == byte_of(value, 1) && b2 == byte_of(value, 2) && b3
            == byte_of(value, 3)) by {
            assert(value >> 0u32 == value) by (bit_vector);
        }
        self.set_byte(base, b0);
        self.set_byte(base + 1, b1);
        self.set_byte(base + 2, b2);
        self.set_byte(base + 3, b3);
    }
}

/// The byte at `offset` of `data`, or zero past its end.
fn read_backed(data: &Vec<u8>, offset: u32) -> (r: u8)
    ensures
        r == backed_byte(data@, offset as int),
{
    if (offset as usize) < data.len() {
        data[offset as usize]
    } else {
        0
    }
}

/// `n` zero bytes.
fn zeroed(n: usize) -> (v: Vec<u8>)
    ensures
        v@ == Seq::new(n as nat, |i: int| 0u8),
{
    let mut v: Vec<u8> = Vec::with_capacity(n);
    let mut i: usize = 0;
    while i < n
        invariant
            i <= n,
            v@ == Seq::new(i as nat, |k: int| 0u8),
        decreases n - i,
    {
        v.push(0);
        i = i + 1;
        assert(v@ =~= Seq::new(i as nat, |k: int| 0u8));
    }
    v
}

} // verus!

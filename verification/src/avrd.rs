//! Register model of the AVR general purpose I/O ports that the firmware
//! modules drive: one data-direction, output and input register per port.

use core::marker::PhantomData;
use vstd::prelude::*;

verus! {

/// The four 8-bit I/O ports of the ATmega family.
#[derive(Clone, Copy, Debug, PartialEq, Eq, Structural)]
pub enum RegisterPort {
    A,
    B,
    C,
    D,
}

/// Marker trait for a microcontroller variant.
pub trait Mcu {}

/// The ATmega32 used on all ctLab modules.
#[derive(Clone, Copy, Debug, Default)]
pub struct Atmega32;

impl Mcu for Atmega32 {}

/// The registers that belong to one port.
#[derive(Clone, Copy, Debug, Default, PartialEq, Eq, Structural)]
pub struct PortRegs {
    /// Data direction register (1 = output).
    pub ddr: u8,
    /// Output latch.
    pub port: u8,
    /// Input pins as sampled by the hardware.
    pub pin: u8,
}

/// Whether bit `bit` of `value` is set.
pub open spec fn bit_set(value: u8, bit: u8) -> bool {
    (value >> bit) & 1u8 == 1u8
}

/// `value` with bit `bit` forced to `high`, all other bits kept.
pub open spec fn with_bit(value: u8, bit: u8, high: bool) -> u8 {
    if high {
        value | (1u8 << bit)
    } else {
        value & !(1u8 << bit)
    }
}

/// Port access for one microcontroller: the register file of ports A to D.
#[derive(Debug)]
pub struct AvrdPortIo<M: Mcu> {
    pub a: PortRegs,
    pub b: PortRegs,
    pub c: PortRegs,
    pub d: PortRegs,
    /// Byte that the SPI peripheral receives on the next transfer.
    pub spi_rx: u8,
    /// Byte that the last SPI transfer sent.
    pub spi_tx: u8,
    pub _marker: PhantomData<M>,
}

impl<M: Mcu> AvrdPortIo<M> {
    /// The registers of one port.
    pub open spec fn regs(&self, port: RegisterPort) -> PortRegs {
        match port {
            RegisterPort::A => self.a,
            RegisterPort::B => self.b,
            RegisterPort::C => self.c,
            RegisterPort::D => self.d,
        }
    }

    /// All four ports are equal to those of `other` except `port`.
    pub open spec fn same_except(&self, other: &Self, port: RegisterPort) -> bool {
        &&& (port != RegisterPort::A ==> self.a == other.a)
        &&& (port != RegisterPort::B ==> self.b == other.b)
        &&& (port != RegisterPort::C ==> self.c == other.c)
        &&& (port != RegisterPort::D ==> self.d == other.d)
        &&& self.spi_rx == other.spi_rx
        &&& self.spi_tx == other.spi_tx
    }

    /// A register file with every register cleared, as after reset.
    pub fn new() -> (io: Self)
        ensures
            io.a == (PortRegs { ddr: 0, port: 0, pin: 0 }),
            io.b == (PortRegs { ddr: 0, port: 0, pin: 0 }),
            io.c == (PortRegs { ddr: 0, port: 0, pin: 0 }),
            io.d == (PortRegs { ddr: 0, port: 0, pin: 0 }),
            io.spi_rx == 0,
            io.spi_tx == 0,
    {
        let z = PortRegs { ddr: 0, port: 0, pin: 0 };
        AvrdPortIo { a: z, b: z, c: z, d: z, spi_rx: 0, spi_tx: 0, _marker: PhantomData }
    }

    fn put_regs(&mut self, port: RegisterPort, regs: PortRegs)
        ensures
            final(self).regs(port) == regs,
            final(self).same_except(old(self), port),
    {
        match port {
            RegisterPort::A => self.a = regs,
            RegisterPort::B => self.b = regs,
            RegisterPort::C => self.c = regs,
            RegisterPort::D => self.d = regs,
        }
    }

    fn get_regs(&self, port: RegisterPort) -> (r: PortRegs)
        ensures
            r == self.regs(port),
    {
        match port {
            RegisterPort::A => self.a,
            RegisterPort::B => self.b,
            RegisterPort::C => self.c,
            RegisterPort::D => self.d,
        }
    }

    /// Loads the direction and output registers of `port`.
    pub fn init_port(&mut self, port: RegisterPort, ddr: u8, value: u8)
        ensures
            final(self).regs(port) == (PortRegs { ddr, port: value, pin: old(self).regs(port).pin }),
            final(self).same_except(old(self), port),
    {
        let r = self.get_regs(port);
        self.put_regs(port, PortRegs { ddr, port: value, pin: r.pin });
    }

    /// Sets or clears one bit of the output register of `port`.
    pub fn write_bit(&mut self, port: RegisterPort, bit: u8, high: bool)
        requires
            bit < 8,
        ensures
            final(self).regs(port) == (PortRegs {
                port: with_bit(old(self).regs(port).port, bit, high),
                ..old(self).regs(port)
            }),
            final(self).same_except(old(self), port),
    {
        let r = self.get_regs(port);
        let v = if high { r.port | (1u8 << bit) } else { r.port & !(1u8 << bit) };
        self.put_regs(port, PortRegs { port: v, ..r });
    }

    /// Reads one bit of the input register of `port`.
    pub fn read_bit(&self, port: RegisterPort, bit: u8) -> (r: bool)
        requires
            bit < 8,
        ensures
            r == bit_set(self.regs(port).pin, bit),
    {
        let v = self.get_regs(port).pin;
        (v >> bit) & 1u8 == 1u8
    }

    /// Writes the whole output register of `port`.
    pub fn write_port(&mut self, port: RegisterPort, value: u8)
        ensures
            final(self).regs(port) == (PortRegs { port: value, ..old(self).regs(port) }),
            final(self).same_except(old(self), port),
    {
        let r = self.get_regs(port);
        self.put_regs(port, PortRegs { port: value, ..r });
    }

    /// Busy-waits `cycles` CPU cycles; no register changes.
    pub fn spin_delay_cycles(&mut self, cycles: u16)
        ensures
            *final(self) == *old(self),
    {
        let _ = cycles;
    }

    /// Waits until a running ADC conversion has completed; no port register changes.
    pub fn wait_for_adc(&mut self)
        ensures
            *final(self) == *old(self),
    {
    }

    /// Full-duplex SPI exchange: sends `tx`, returns the byte received meanwhile.
    pub fn spi_transfer(&mut self, tx: u8) -> (r: u8)
        ensures
            r == old(self).spi_rx,
            final(self).spi_tx == tx,
            final(self).spi_rx == old(self).spi_rx,
            final(self).a == old(self).a,
            final(self).b == old(self).b,
            final(self).c == old(self).c,
            final(self).d == old(self).d,
    {
        self.spi_tx = tx;
        self.spi_rx
    }
}

impl<M: Mcu> Default for AvrdPortIo<M> {
    fn default() -> (io: Self)
        ensures
            io.a == (PortRegs { ddr: 0, port: 0, pin: 0 }),
            io.b == (PortRegs { ddr: 0, port: 0, pin: 0 }),
            io.c == (PortRegs { ddr: 0, port: 0, pin: 0 }),
            io.d == (PortRegs { ddr: 0, port: 0, pin: 0 }),
            io.spi_rx == 0,
            io.spi_tx == 0,
    {
        Self::new()
    }
}

} // verus!

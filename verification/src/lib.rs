//! Driver for an 84x48 monochrome dot-matrix display controller.
//!
//! The crate has two layers: [`Buffer`], an in-memory framebuffer whose byte
//! layout mirrors the controller's display RAM exactly, and [`Pcd8544`], the
//! protocol state machine that drives the chip over an abstract serial bus,
//! a command/data select line and a reset line.

use vstd::prelude::*;

pub mod buffer;
pub mod mock;
pub mod ports;

pub use buffer::Buffer;
use ports::ControlPin;
use ports::Delayer;
use ports::SerialBus;

verus! {

/// Display width in columns.
pub const WIDTH: u8 = 84;

/// Display height in pixel rows.
pub const HEIGHT: u8 = 48;

/// Size of the display RAM in bytes: one byte covers 8 vertically stacked
/// pixels of one column, so 84 columns times 6 banks of 8 rows.
pub const BUF_SIZE: usize = 504;

/// Function Set command base: `0b0010_0xxx`, with the three low bits holding
/// the power-down, addressing and instruction-set flags.
pub const FUNCTION_SET: u8 = 0x20;

/// Function Set flag: chip powered down.
pub const POWER_DOWN: u8 = 0x04;

/// Function Set flag: vertical (instead of horizontal) addressing.
pub const ADDRESSING_VERT: u8 = 0x02;

/// Function Set flag: extended (instead of basic) instruction set.
pub const EXTENDED_INSTR: u8 = 0x01;

/// Display control command selecting normal (non-inverted) mode.
pub const DISPLAY_NORMAL: u8 = 0x0C;

/// Extended-instruction command base setting the operating voltage; the low
/// seven bits carry the contrast value.
pub const SET_VOP: u8 = 0x80;

/// Basic-instruction command base setting the cursor column (0 to 83).
pub const COL_ADDR: u8 = 0x80;

/// Basic-instruction command base setting the cursor bank (0 to 5).
pub const BANK_ADDR: u8 = 0x40;

/// One transmission on the serial bus, tagged with the level the
/// command/data select line was driven to for it.
pub ghost enum Frame {
    /// A single instruction byte, framed with command/data select low.
    Command(u8),
    /// A display-data run, framed with command/data select high.
    Data(Seq<u8>),
}

/// The raw byte run a frame puts on the bus.
pub open spec fn frame_bytes(f: Frame) -> Seq<u8> {
    match f {
        Frame::Command(c) => seq![c],
        Frame::Data(d) => d,
    }
}

/// The byte runs of a whole frame log, in transmission order.
pub open spec fn frames_bytes(l: Seq<Frame>) -> Seq<Seq<u8>> {
    l.map_values(|f: Frame| frame_bytes(f))
}

/// `new_log` extends `old_log` by some leading part of `frames`: nothing but
/// a prefix of the expected transmissions went out.
pub open spec fn appended_prefix<T>(old_log: Seq<T>, new_log: Seq<T>, frames: Seq<T>) -> bool {
    exists|k: int| 0 <= k <= frames.len() && new_log == old_log + frames.take(k)
}

proof fn lemma_appended_prefix<T>(old_log: Seq<T>, new_log: Seq<T>, frames: Seq<T>, k: int)
    requires
        0 <= k <= frames.len(),
        new_log == old_log + frames.take(k),
    ensures
        appended_prefix(old_log, new_log, frames),
{
}

proof fn lemma_frames_bytes_push(l: Seq<Frame>, f: Frame)
    ensures
        frames_bytes(l.push(f)) == frames_bytes(l).push(frame_bytes(f)),
{
    assert(frames_bytes(l.push(f)) =~= frames_bytes(l).push(frame_bytes(f)));
}

/// A tracked function register never leaves the basic instruction set and
/// never asserts power-down: only the vertical-addressing flag may vary.
pub open spec fn func_ok(f: u8) -> bool {
    f == 0x20u8 || f == 0x22u8
}

/// The function register after an addressing-mode change: the
/// vertical-addressing flag follows `horizontal`, every other bit is kept.
pub open spec fn vert_applied(f: u8, horizontal: bool) -> u8 {
    if horizontal {
        f & !ADDRESSING_VERT
    } else {
        f | ADDRESSING_VERT
    }
}

/// The five command frames of a contrast reconfiguration: enter the extended
/// instruction set, program the temperature coefficient, the bias and the
/// operating voltage, then return to the basic instruction set.
pub open spec fn contrast_frames(func: u8, contrast: u8, bias: u8, temp: u8) -> Seq<Frame> {
    seq![
        Frame::Command(func | EXTENDED_INSTR),
        Frame::Command(temp),
        Frame::Command(bias),
        Frame::Command(SET_VOP | contrast),
        Frame::Command(func & !EXTENDED_INSTR),
    ]
}

/// The two command frames of a cursor move.
pub open spec fn position_frames(x: u8, y: u8) -> Seq<Frame> {
    seq![Frame::Command(COL_ADDR | x), Frame::Command(BANK_ADDR | y)]
}

/// The frames of a full clear: one data run covering the whole display RAM
/// with zeroes, then the cursor returned to the origin.
pub open spec fn clear_frames() -> Seq<Frame> {
    seq![
        Frame::Data(Seq::new(504, |i: int| 0u8)),
        Frame::Command(0x80u8),
        Frame::Command(0x40u8),
    ]
}

/// The frames of the whole initialization sequence: select horizontal
/// addressing, program the default contrast triplet, select normal display
/// mode, clear the display RAM and home the cursor.
pub open spec fn init_frames() -> Seq<Frame> {
    seq![Frame::Command(FUNCTION_SET)] + contrast_frames(FUNCTION_SET, 0x3f, 0x14, 0x06)
        + seq![Frame::Command(DISPLAY_NORMAL)] + clear_frames()
}

/// The levels a reset pulse drives onto the reset line: inactive, the active
/// low pulse, inactive again.
pub open spec fn reset_levels() -> Seq<bool> {
    seq![true, false, true]
}

/// The hold times of a reset pulse, one after each edge. The chip wants the
/// pulse longer than 100 ns and shorter than 100 ms; 100 us sits safely
/// inside that window.
pub open spec fn reset_waits() -> Seq<u32> {
    seq![100u32, 100u32, 100u32]
}

/// Failure of a controller operation, tagged with the capability that
/// failed and carrying that capability's own error value.
#[derive(Clone, Copy, Debug)]
pub enum Error<SPI, DC, RST> {
    /// The serial bus rejected a write.
    Spi(SPI),
    /// The command/data select line could not be driven.
    Dc(DC),
    /// The reset line could not be driven.
    Rst(RST),
}

/// Driver for the display controller: owns the bus, the command/data select
/// line and the reset line, and mirrors the chip's function register.
pub struct Pcd8544<SPI, DC, RST> {
    spi: SPI,
    dc: DC,
    rst: RST,
    func: u8,
    base: Ghost<Seq<Seq<u8>>>,
    log: Ghost<Seq<Frame>>,
}

impl<SPI: SerialBus, DC: ControlPin, RST: ControlPin> Pcd8544<SPI, DC, RST> {
    /// Every frame this controller has put on the bus since construction.
    pub closed spec fn log(&self) -> Seq<Frame> {
        self.log@
    }

    /// The mirrored function register: what was last written as the
    /// Function Set command.
    pub closed spec fn func_reg(&self) -> u8 {
        self.func
    }

    /// What the bus had already accepted when the controller took it over.
    pub closed spec fn trace_base(&self) -> Seq<Seq<u8>> {
        self.base@
    }

    /// The owned bus's full transmission trace.
    pub closed spec fn bus_frames(&self) -> Seq<Seq<u8>> {
        self.spi.frames()
    }

    /// The owned command/data select line's level trace.
    pub closed spec fn dc_levels(&self) -> Seq<bool> {
        self.dc.levels()
    }

    /// The owned reset line's level trace.
    pub closed spec fn rst_levels(&self) -> Seq<bool> {
        self.rst.levels()
    }

    /// The frame log and the bus's own trace agree byte for byte, and the
    /// mirrored function register holds a basic-instruction-set value.
    pub open spec fn wf(&self) -> bool {
        &&& self.bus_frames() == self.trace_base() + frames_bytes(self.log())
        &&& func_ok(self.func_reg())
    }

    /// Single-byte command transmission: command/data select driven low,
    /// then the byte written as one run.
    fn cmd(&mut self, command: u8) -> (r: Result<
        (),
        Error<SPI::BusError, DC::PinError, RST::PinError>,
    >)
        requires
            old(self).wf(),
        ensures
            final(self).wf(),
            final(self).func_reg() == old(self).func_reg(),
            final(self).trace_base() == old(self).trace_base(),
            final(self).rst_levels() == old(self).rst_levels(),
            r is Ok ==> final(self).log() == old(self).log().push(Frame::Command(command))
                && final(self).dc_levels() == old(self).dc_levels().push(false),
            r is Err ==> final(self).log() == old(self).log(),
            r matches Err(e) ==> (e matches Error::Spi(_) || e matches Error::Dc(_)),
    {
        match self.dc.set_low() {
            Err(e) => {
                return Err(Error::Dc(e));
            },
            Ok(()) => {},
        }
        let mut run: Vec<u8> = Vec::new();
        run.push(command);
        match self.spi.write(run.as_slice()) {
            Err(e) => {
                return Err(Error::Spi(e));
            },
            Ok(()) => {},
        }
        proof {
            self.log@ = self.log@.push(Frame::Command(command));
            lemma_frames_bytes_push(old(self).log@, Frame::Command(command));
            assert(run@ =~= frame_bytes(Frame::Command(command)));
            assert(self.spi.frames() =~= self.base@ + frames_bytes(self.log@));
        }
        Ok(())
    }

    /// Raw data-mode transmission: command/data select driven high, then the
    /// whole run written as one auto-incrementing display-data write. The
    /// controller imposes no length limit; an overlong run wraps around the
    /// chip's display RAM.
    pub fn data(&mut self, data: &[u8]) -> (r: Result<
        (),
        Error<SPI::BusError, DC::PinError, RST::PinError>,
    >)
        requires
            old(self).wf(),
        ensures
            final(self).wf(),
            final(self).func_reg() == old(self).func_reg(),
            final(self).trace_base() == old(self).trace_base(),
            final(self).rst_levels() == old(self).rst_levels(),
            r is Ok ==> final(self).log() == old(self).log().push(Frame::Data(data@))
                && final(self).dc_levels() == old(self).dc_levels().push(true),
            r is Err ==> final(self).log() == old(self).log(),
            r matches Err(e) ==> (e matches Error::Spi(_) || e matches Error::Dc(_)),
    {
        match self.dc.set_high() {
            Err(e) => {
                return Err(Error::Dc(e));
            },
            Ok(()) => {},
        }
        match self.spi.write(data) {
            Err(e) => {
                return Err(Error::Spi(e));
            },
            Ok(()) => {},
        }
        proof {
            self.log@ = self.log@.push(Frame::Data(data@));
            lemma_frames_bytes_push(old(self).log@, Frame::Data(data@));
            assert(self.spi.frames() =~= self.base@ + frames_bytes(self.log@));
        }
        Ok(())
    }

    /// Switches between horizontal and vertical addressing by flipping the
    /// vertical-addressing flag in the mirrored function register and writing
    /// the updated Function Set command. The power-down and instruction-set
    /// bits are never disturbed. The register is updated even when the
    /// command write fails; the chip then still holds the old mode.
    pub fn addressing_horizontal(&mut self, horizontal: bool) -> (r: Result<
        (),
        Error<SPI::BusError, DC::PinError, RST::PinError>,
    >)
        requires
            old(self).wf(),
        ensures
            final(self).wf(),
            final(self).trace_base() == old(self).trace_base(),
            final(self).rst_levels() == old(self).rst_levels(),
            final(self).func_reg() == vert_applied(old(self).func_reg(), horizontal),
            final(self).func_reg() & !ADDRESSING_VERT == old(self).func_reg() & !ADDRESSING_VERT,
            final(self).func_reg() & ADDRESSING_VERT == (if horizontal {
                0u8
            } else {
                ADDRESSING_VERT
            }),
            r is Ok ==> final(self).log() == old(self).log().push(
                Frame::Command(vert_applied(old(self).func_reg(), horizontal)),
            ),
            r is Err ==> final(self).log() == old(self).log(),
            r matches Err(e) ==> (e matches Error::Spi(_) || e matches Error::Dc(_)),
    {
        if horizontal {
            self.func = self.func & !ADDRESSING_VERT;
        } else {
            self.func = self.func | ADDRESSING_VERT;
        }
        proof {
            let f = old(self).func;
            assert((f == 0x20u8 || f == 0x22u8) ==> ((f & !0x02u8) == 0x20u8 && (f | 0x02u8)
                == 0x22u8 && (f & !0x02u8) & !0x02u8 == f & !0x02u8 && (f | 0x02u8) & !0x02u8 == f
                & !0x02u8 && (f & !0x02u8) & 0x02u8 == 0u8 && (f | 0x02u8) & 0x02u8
                == 0x02u8)) by (bit_vector);
        }
        let f = self.func;
        self.cmd(f)
    }

    /// Programs the contrast triplet: temperature coefficient, bias system
    /// and operating voltage. Those commands decode only under the extended
    /// instruction set, so the sequence enters it first and always returns
    /// to the basic instruction set before finishing, whatever mode the
    /// mirrored register denotes. The register itself is left untouched.
    pub fn contrast(&mut self, contrast: u8, bias: u8, temp: u8) -> (r: Result<
        (),
        Error<SPI::BusError, DC::PinError, RST::PinError>,
    >)
        requires
            old(self).wf(),
        ensures
            final(self).wf(),
            final(self).trace_base() == old(self).trace_base(),
            final(self).rst_levels() == old(self).rst_levels(),
            final(self).func_reg() == old(self).func_reg(),
            r is Ok ==> final(self).log() == old(self).log() + contrast_frames(
                old(self).func_reg(),
                contrast,
                bias,
                temp,
            ),
            r is Err ==> appended_prefix(
                old(self).log(),
                final(self).log(),
                contrast_frames(old(self).func_reg(), contrast, bias, temp),
            ),
            r matches Err(e) ==> (e matches Error::Spi(_) || e matches Error::Dc(_)),
    {
        let ghost cf = contrast_frames(old(self).func_reg(), contrast, bias, temp);
        let ghost l0 = old(self).log();
        let f = self.func;
        match self.cmd(f | EXTENDED_INSTR) {
            Err(e) => {
                proof {
                    assert(final(self).log() =~= l0 + cf.take(0));
                    lemma_appended_prefix(l0, final(self).log(), cf, 0);
                }
                return Err(e);
            },
            Ok(()) => {},
        }
        assert(self.log() =~= l0 + cf.take(1));
        match self.cmd(temp) {
            Err(e) => {
                proof {
                    lemma_appended_prefix(l0, final(self).log(), cf, 1);
                }
                return Err(e);
            },
            Ok(()) => {},
        }
        assert(self.log() =~= l0 + cf.take(2));
        match self.cmd(bias) {
            Err(e) => {
                proof {
                    lemma_appended_prefix(l0, final(self).log(), cf, 2);
                }
                return Err(e);
            },
            Ok(()) => {},
        }
        assert(self.log() =~= l0 + cf.take(3));
        match self.cmd(SET_VOP | contrast) {
            Err(e) => {
                proof {
                    lemma_appended_prefix(l0, final(self).log(), cf, 3);
                }
                return Err(e);
            },
            Ok(()) => {},
        }
        assert(self.log() =~= l0 + cf.take(4));
        let f2 = self.func;
        match self.cmd(f2 & !EXTENDED_INSTR) {
            Err(e) => {
                proof {
                    lemma_appended_prefix(l0, final(self).log(), cf, 4);
                }
                return Err(e);
            },
            Ok(()) => {},
        }
        assert(self.log() =~= l0 + cf);
        Ok(())
    }

    /// Moves the cursor to column `x` (0 to 83) and bank `y` (0 to 5).
    /// Values out of range are not rejected: they are truncated by the
    /// command's reserved bit width, as the chip itself would.
    pub fn position(&mut self, x: u8, y: u8) -> (r: Result<
        (),
        Error<SPI::BusError, DC::PinError, RST::PinError>,
    >)
        requires
            old(self).wf(),
        ensures
            final(self).wf(),
            final(self).trace_base() == old(self).trace_base(),
            final(self).rst_levels() == old(self).rst_levels(),
            final(self).func_reg() == old(self).func_reg(),
            r is Ok ==> final(self).log() == old(self).log() + position_frames(x, y),
            r is Err ==> appended_prefix(
                old(self).log(),
                final(self).log(),
                position_frames(x, y),
            ),
            r matches Err(e) ==> (e matches Error::Spi(_) || e matches Error::Dc(_)),
    {
        let ghost pf = position_frames(x, y);
        let ghost l0 = old(self).log();
        match self.cmd(COL_ADDR | x) {
            Err(e) => {
                proof {
                    assert(final(self).log() =~= l0 + pf.take(0));
                    lemma_appended_prefix(l0, final(self).log(), pf, 0);
                }
                return Err(e);
            },
            Ok(()) => {},
        }
        assert(self.log() =~= l0 + pf.take(1));
        match self.cmd(BANK_ADDR | y) {
            Err(e) => {
                proof {
                    lemma_appended_prefix(l0, final(self).log(), pf, 1);
                }
                return Err(e);
            },
            Ok(()) => {},
        }
        assert(self.log() =~= l0 + pf);
        Ok(())
    }

    /// Clears the display RAM by transmitting `BUF_SIZE` zero bytes as one
    /// data run (the chip's auto-incrementing write covers the whole
    /// display), then returns the cursor to the origin. This is the only
    /// operation that resets the cursor as a side effect.
    pub fn clear(&mut self) -> (r: Result<
        (),
        Error<SPI::BusError, DC::PinError, RST::PinError>,
    >)
        requires
            old(self).wf(),
        ensures
            final(self).wf(),
            final(self).trace_base() == old(self).trace_base(),
            final(self).rst_levels() == old(self).rst_levels(),
            final(self).func_reg() == old(self).func_reg(),
            r is Ok ==> final(self).log() == old(self).log() + clear_frames(),
            r is Err ==> appended_prefix(old(self).log(), final(self).log(), clear_frames()),
            r matches Err(e) ==> (e matches Error::Spi(_) || e matches Error::Dc(_)),
    {
        let ghost l0 = old(self).log();
        let zeros: Vec<u8> = vec![0u8; BUF_SIZE];
        proof {
            assert forall|i: int| 0 <= i < 504 implies zeros@[i] == 0u8 by {
                assert(vstd::prelude::cloned::<u8>(0u8, zeros@[i]));
            }
            assert(zeros@ =~= Seq::new(504, |i: int| 0u8));
        }
        match self.data(zeros.as_slice()) {
            Err(e) => {
                proof {
                    assert(final(self).log() =~= l0 + clear_frames().take(0));
                    lemma_appended_prefix(l0, final(self).log(), clear_frames(), 0);
                }
                return Err(e);
            },
            Ok(()) => {},
        }
        assert(self.log() =~= l0 + clear_frames().take(1));
        match self.position(0, 0) {
            Err(e) => {
                proof {
                    assert(0x80u8 | 0u8 == 0x80u8 && 0x40u8 | 0u8 == 0x40u8) by (bit_vector);
                    let k = choose|k: int|
                        0 <= k <= 2 && final(self).log() == (l0 + clear_frames().take(1))
                            + position_frames(0, 0).take(k);
                    assert(final(self).log() =~= l0 + clear_frames().take(1 + k));
                    lemma_appended_prefix(l0, final(self).log(), clear_frames(), 1 + k);
                }
                return Err(e);
            },
            Ok(()) => {},
        }
        proof {
            assert(0x80u8 | 0u8 == 0x80u8 && 0x40u8 | 0u8 == 0x40u8) by (bit_vector);
            assert(self.log() =~= l0 + clear_frames());
        }
        Ok(())
    }

    /// Issues the reset impulse: reset driven inactive, then active, then
    /// inactive again, with a 100 us hold after each edge. The chip needs
    /// the display to be re-initialized afterwards. A failing pin write
    /// aborts the pulse at that edge and surfaces as a reset-line error.
    pub fn reset<D: Delayer>(&mut self, delayer: &mut D) -> (r: Result<
        (),
        Error<SPI::BusError, DC::PinError, RST::PinError>,
    >)
        requires
            old(self).wf(),
        ensures
            final(self).wf(),
            final(self).log() == old(self).log(),
            final(self).trace_base() == old(self).trace_base(),
            final(self).func_reg() == old(self).func_reg(),
            final(self).dc_levels() == old(self).dc_levels(),
            r is Ok ==> final(self).rst_levels() == old(self).rst_levels() + reset_levels()
                && final(delayer).waited() == old(delayer).waited() + reset_waits(),
            r is Err ==> exists|k: int|
                0 <= k < 3 && final(self).rst_levels() == old(self).rst_levels()
                    + reset_levels().take(k) && final(delayer).waited() == old(delayer).waited()
                    + reset_waits().take(k),
            r matches Err(e) ==> e matches Error::Rst(_),
    {
        let ghost lv0 = old(self).rst_levels();
        let ghost w0 = old(delayer).waited();
        match self.rst.set_high() {
            Err(e) => {
                proof {
                    assert(final(self).rst_levels() =~= lv0 + reset_levels().take(0));
                    assert(final(delayer).waited() =~= w0 + reset_waits().take(0));
                }
                return Err(Error::Rst(e));
            },
            Ok(()) => {},
        }
        delayer.delay_us(100);
        proof {
            assert(self.rst_levels() =~= lv0 + reset_levels().take(1));
            assert(delayer.waited() =~= w0 + reset_waits().take(1));
        }
        match self.rst.set_low() {
            Err(e) => {
                return Err(Error::Rst(e));
            },
            Ok(()) => {},
        }
        delayer.delay_us(100);
        proof {
            assert(self.rst_levels() =~= lv0 + reset_levels().take(2));
            assert(delayer.waited() =~= w0 + reset_waits().take(2));
        }
        match self.rst.set_high() {
            Err(e) => {
                return Err(Error::Rst(e));
            },
            Ok(()) => {},
        }
        delayer.delay_us(100);
        proof {
            assert(self.rst_levels() =~= lv0 + reset_levels());
            assert(delayer.waited() =~= w0 + reset_waits());
        }
        Ok(())
    }

    /// Brings the chip from its reset state to ready: resets the mirrored
    /// function register to its power-up default, selects horizontal
    /// addressing, programs the default contrast triplet, selects normal
    /// display mode and clears the display RAM, leaving the cursor at the
    /// origin. A failing sub-step aborts the remaining steps and surfaces
    /// the underlying error; the chip is then only partially configured and
    /// the session must restart from `reset`.
    pub fn init(&mut self) -> (r: Result<
        (),
        Error<SPI::BusError, DC::PinError, RST::PinError>,
    >)
        requires
            old(self).wf(),
        ensures
            final(self).wf(),
            final(self).trace_base() == old(self).trace_base(),
            final(self).rst_levels() == old(self).rst_levels(),
            final(self).func_reg() == FUNCTION_SET,
            r is Ok ==> final(self).log() == old(self).log() + init_frames(),
            r is Err ==> appended_prefix(old(self).log(), final(self).log(), init_frames()),
            r matches Err(e) ==> (e matches Error::Spi(_) || e matches Error::Dc(_)),
    {
        let ghost l0 = old(self).log();
        self.func = FUNCTION_SET;
        proof {
            assert(0x20u8 & !0x02u8 == 0x20u8 && 0x20u8 & !0x01u8 == 0x20u8) by (bit_vector);
        }
        match self.addressing_horizontal(true) {
            Err(e) => {
                proof {
                    assert(final(self).log() =~= l0 + init_frames().take(0));
                    lemma_appended_prefix(l0, final(self).log(), init_frames(), 0);
                }
                return Err(e);
            },
            Ok(()) => {},
        }
        assert(self.log() =~= l0 + init_frames().take(1));
        match self.contrast(0x3f, 0x14, 0x06) {
            Err(e) => {
                proof {
                    let cf = contrast_frames(FUNCTION_SET, 0x3f, 0x14, 0x06);
                    let k = choose|k: int|
                        0 <= k <= 5 && final(self).log() == (l0 + init_frames().take(1))
                            + cf.take(k);
                    assert(final(self).log() =~= l0 + init_frames().take(1 + k));
                    lemma_appended_prefix(l0, final(self).log(), init_frames(), 1 + k);
                }
                return Err(e);
            },
            Ok(()) => {},
        }
        assert(self.log() =~= l0 + init_frames().take(6));
        match self.cmd(DISPLAY_NORMAL) {
            Err(e) => {
                proof {
                    lemma_appended_prefix(l0, final(self).log(), init_frames(), 6);
                }
                return Err(e);
            },
            Ok(()) => {},
        }
        assert(self.log() =~= l0 + init_frames().take(7));
        match self.clear() {
            Err(e) => {
                proof {
                    let k = choose|k: int|
                        0 <= k <= 3 && final(self).log() == (l0 + init_frames().take(7))
                            + clear_frames().take(k);
                    assert(final(self).log() =~= l0 + init_frames().take(7 + k));
                    lemma_appended_prefix(l0, final(self).log(), init_frames(), 7 + k);
                }
                return Err(e);
            },
            Ok(()) => {},
        }
        assert(self.log() =~= l0 + init_frames());
        Ok(())
    }

    /// Builds the controller around the supplied capabilities, pulses reset
    /// and runs the full initialization, so a successful construction hands
    /// back a ready device with a cleared display and the cursor at the
    /// origin. The command/data select line is driven low first so the very
    /// first transmission is framed as a command.
    pub fn new<D: Delayer>(spi: SPI, mut dc: DC, rst: RST, delayer: &mut D) -> (r: Result<
        Self,
        Error<SPI::BusError, DC::PinError, RST::PinError>,
    >)
        ensures
            r matches Ok(dev) ==> dev.wf() && dev.trace_base() == spi.frames() && dev.log()
                == init_frames() && dev.func_reg() == FUNCTION_SET && dev.rst_levels()
                == rst.levels() + reset_levels() && final(delayer).waited() == old(
                delayer,
            ).waited() + reset_waits(),
    {
        match dc.set_low() {
            Err(e) => {
                return Err(Error::Dc(e));
            },
            Ok(()) => {},
        }
        let ghost base = spi.frames();
        let mut dev = Pcd8544 {
            spi,
            dc,
            rst,
            func: FUNCTION_SET,
            base: Ghost(base),
            log: Ghost(Seq::empty()),
        };
        proof {
            assert(frames_bytes(dev.log@) =~= Seq::<Seq<u8>>::empty());
            assert(dev.spi.frames() =~= dev.base@ + frames_bytes(dev.log@));
        }
        match dev.reset(delayer) {
            Err(e) => {
                return Err(e);
            },
            Ok(()) => {},
        }
        match dev.init() {
            Err(e) => {
                return Err(e);
            },
            Ok(()) => {},
        }
        proof {
            assert(dev.log() =~= init_frames());
        }
        Ok(dev)
    }

    /// Consumes the controller and hands the owned capabilities back, for
    /// example to inspect a recording bus after a sequence of operations.
    pub fn release(self) -> (r: (SPI, DC, RST))
        ensures
            r.0.frames() == self.bus_frames(),
            r.1.levels() == self.dc_levels(),
            r.2.levels() == self.rst_levels(),
    {
        (self.spi, self.dc, self.rst)
    }
}

} // verus!

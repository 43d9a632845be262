//! The command protocol of the panel controller.
//!
//! Every exchange with the panel is one command transaction: select the chip,
//! announce and write the opcode, announce and write the payload if there is
//! one, deselect. The interface queues these steps; the hardware side takes
//! the queue and carries it out.

use vstd::prelude::*;
use vstd::slice::slice_to_vec;

use crate::error::EpdError;
use crate::geometry::{DISPLAY_HEIGHT, DISPLAY_WIDTH, FRAME_BYTES};
use crate::plane::{blank_plane, well_formed};
use crate::signal::{lemma_signals_push, signals, Action, Level, Line, Signal};

verus! {

/// Panel setting.
pub const CMD_PSR: u8 = 0x00;

/// Power setting.
pub const CMD_PWR: u8 = 0x01;

/// Power on.
pub const CMD_PON: u8 = 0x04;

/// Booster soft start.
pub const CMD_BTST: u8 = 0x06;

/// Data start transmission 1: the black plane follows.
pub const CMD_DTM1: u8 = 0x10;

/// Display refresh.
pub const CMD_DRF: u8 = 0x12;

/// Data start transmission 2: the red plane follows.
pub const CMD_DTM2: u8 = 0x13;

/// PLL control.
pub const CMD_PLL: u8 = 0x30;

/// VCOM and data interval setting.
pub const CMD_CDI: u8 = 0x50;

/// Resolution setting.
pub const CMD_TRES: u8 = 0x61;

/// VCOM DC setting.
pub const CMD_VDCS: u8 = 0x82;

/// The steps of one command transaction.
///
/// The data/command line goes high only where a payload follows.
pub open spec fn envelope(opcode: u8, payload: Seq<u8>) -> Seq<Signal> {
    let command = seq![
        Signal::Drive(Line::Select, Level::Low),
        Signal::Drive(Line::DataCommand, Level::Low),
        Signal::Write(seq![opcode]),
    ];
    let data = if payload.len() == 0 {
        Seq::<Signal>::empty()
    } else {
        seq![Signal::Drive(Line::DataCommand, Level::High), Signal::Write(payload)]
    };
    command + data + seq![Signal::Drive(Line::Select, Level::High)]
}

/// The hardware reset: the reset line is held low for 100 ms.
pub open spec fn reset_sequence() -> Seq<Signal> {
    seq![
        Signal::Drive(Line::Reset, Level::Low),
        Signal::DelayMs(100),
        Signal::Drive(Line::Reset, Level::High),
    ]
}

/// The payload of the resolution setting: the width in one byte, the height
/// in two, most significant first.
pub open spec fn resolution_payload() -> Seq<u8> {
    seq![DISPLAY_WIDTH as u8, (DISPLAY_HEIGHT / 256) as u8, (DISPLAY_HEIGHT % 256) as u8]
}

/// The power-up of the panel: the reset, then eight command transactions
/// with two waits among them.
pub open spec fn init_sequence() -> Seq<Signal> {
    reset_sequence()
        + envelope(CMD_PWR, seq![0x03u8, 0x00u8, 0x2bu8, 0x2bu8, 0x09u8])
        + envelope(CMD_BTST, seq![0x17u8, 0x17u8, 0x17u8])
        + envelope(CMD_PON, Seq::<u8>::empty())
        + seq![Signal::DelayMs(100)]
        + envelope(CMD_PSR, seq![0xcfu8])
        + envelope(CMD_CDI, seq![0x37u8])
        + envelope(CMD_PLL, seq![0x29u8])
        + envelope(CMD_VDCS, seq![0x0au8])
        + seq![Signal::DelayMs(10)]
        + envelope(CMD_TRES, resolution_payload())
}

/// One refresh: both planes are sent, the refresh is started, and the panel
/// is waited for.
pub open spec fn refresh_sequence(black: Seq<u8>, red: Seq<u8>) -> Seq<Signal> {
    envelope(CMD_DTM1, black)
        + envelope(CMD_DTM2, red)
        + envelope(CMD_DRF, Seq::<u8>::empty())
        + seq![Signal::AwaitIdle]
}

/// A transaction without payload has four steps and never drives the
/// data/command line high; one with a payload has six.
pub proof fn lemma_envelope_shape(opcode: u8, payload: Seq<u8>)
    ensures
        payload.len() == 0 ==> envelope(opcode, payload) == seq![
            Signal::Drive(Line::Select, Level::Low),
            Signal::Drive(Line::DataCommand, Level::Low),
            Signal::Write(seq![opcode]),
            Signal::Drive(Line::Select, Level::High),
        ],
        payload.len() != 0 ==> envelope(opcode, payload) == seq![
            Signal::Drive(Line::Select, Level::Low),
            Signal::Drive(Line::DataCommand, Level::Low),
            Signal::Write(seq![opcode]),
            Signal::Drive(Line::DataCommand, Level::High),
            Signal::Write(payload),
            Signal::Drive(Line::Select, Level::High),
        ],
{
    if payload.len() == 0 {
        assert(envelope(opcode, payload) =~= seq![
            Signal::Drive(Line::Select, Level::Low),
            Signal::Drive(Line::DataCommand, Level::Low),
            Signal::Write(seq![opcode]),
            Signal::Drive(Line::Select, Level::High),
        ]);
    } else {
        assert(envelope(opcode, payload) =~= seq![
            Signal::Drive(Line::Select, Level::Low),
            Signal::Drive(Line::DataCommand, Level::Low),
            Signal::Write(seq![opcode]),
            Signal::Drive(Line::DataCommand, Level::High),
            Signal::Write(payload),
            Signal::Drive(Line::Select, Level::High),
        ]);
    }
}

/// Builds the payload of the resolution setting from the geometry.
fn resolution_bytes() -> (payload: [u8; 3])
    ensures
        payload@ == resolution_payload(),
        payload@ == seq![152u8, 0u8, 152u8],
{
    let width: u8 = DISPLAY_WIDTH as u8;
    let height: u16 = DISPLAY_HEIGHT as u16;
    let payload: [u8; 3] = [width, (height / 256) as u8, (height % 256) as u8];
    assert(payload@ =~= resolution_payload());
    assert(payload@ =~= seq![152u8, 0u8, 152u8]);
    payload
}

/// How a wait for the panel goes on after one sample of the busy line.
#[derive(Clone, Copy, Debug, PartialEq, Eq, Structural)]
pub enum BusyWait {
    /// The panel is still busy: sample again.
    Poll,
    /// The panel is idle: the wait is over.
    Done,
}

/// The protocol side of the panel: the steps that are queued for the
/// hardware side and not yet taken.
pub struct EpdInterface {
    outbox: Vec<Action>,
}

impl EpdInterface {
    /// The queued steps, oldest first.
    pub closed spec fn pending(&self) -> Seq<Signal> {
        signals(self.outbox@)
    }

    /// Makes the interface and queues the power-up of the panel.
    pub fn new() -> (interface: Self)
        ensures
            interface.pending() == init_sequence(),
    {
        let mut sself = EpdInterface::idle();

        sself.reset();

        let power: [u8; 5] = [0x03, 0x00, 0x2b, 0x2b, 0x09];
        assert(power@ =~= seq![0x03u8, 0x00u8, 0x2bu8, 0x2bu8, 0x09u8]);
        sself.cmd(CMD_PWR, power.as_slice());
        let booster: [u8; 3] = [0x17, 0x17, 0x17];
        assert(booster@ =~= seq![0x17u8, 0x17u8, 0x17u8]);
        sself.cmd(CMD_BTST, booster.as_slice());
        let nothing: [u8; 0] = [];
        assert(nothing@ =~= Seq::<u8>::empty());
        sself.cmd(CMD_PON, nothing.as_slice());

        // The panel needs 80 ms to settle after power on.
        sself.delay_ms(100);

        let panel: [u8; 1] = [0xcf];
        assert(panel@ =~= seq![0xcfu8]);
        sself.cmd(CMD_PSR, panel.as_slice());
        let interval: [u8; 1] = [0x37];
        assert(interval@ =~= seq![0x37u8]);
        sself.cmd(CMD_CDI, interval.as_slice());
        let pll: [u8; 1] = [0x29];
        assert(pll@ =~= seq![0x29u8]);
        sself.cmd(CMD_PLL, pll.as_slice());
        let vcom: [u8; 1] = [0x0a];
        assert(vcom@ =~= seq![0x0au8]);
        sself.cmd(CMD_VDCS, vcom.as_slice());

        // A margin for the supply to stabilise.
        sself.delay_ms(10);

        let resolution: [u8; 3] = resolution_bytes();
        sself.cmd(CMD_TRES, resolution.as_slice());

        assert(sself.pending() =~= init_sequence());
        sself
    }

    /// Queues the hardware reset.
    pub fn reset(&mut self)
        ensures
            final(self).pending() == old(self).pending() + reset_sequence(),
    {
        self.push(Action::Drive(Line::Reset, Level::Low));
        self.push(Action::DelayMs(100));
        self.push(Action::Drive(Line::Reset, Level::High));
        assert(self.pending() =~= old(self).pending() + reset_sequence());
    }

    /// Queues one command transaction.
    pub fn cmd(&mut self, cmd: u8, bytes: &[u8])
        ensures
            final(self).pending() == old(self).pending() + envelope(cmd, bytes@),
    {
        // select
        self.push(Action::Drive(Line::Select, Level::Low));

        // command phase
        self.push(Action::Drive(Line::DataCommand, Level::Low));
        let mut opcode: Vec<u8> = Vec::new();
        opcode.push(cmd);
        assert(opcode@ =~= seq![cmd]);
        self.push(Action::Write(opcode));

        // data phase
        if bytes.len() != 0 {
            self.push(Action::Drive(Line::DataCommand, Level::High));
            self.push(Action::Write(slice_to_vec(bytes)));
        }

        // deselect
        self.push(Action::Drive(Line::Select, Level::High));
        assert(self.pending() =~= old(self).pending() + envelope(cmd, bytes@));
    }

    /// Queues one refresh of the panel from the two planes.
    pub fn refresh(&mut self, black: &[u8; FRAME_BYTES], red: &[u8; FRAME_BYTES])
        ensures
            final(self).pending() == old(self).pending() + refresh_sequence(black@, red@),
    {
        self.cmd(CMD_DTM1, black.as_slice());
        self.cmd(CMD_DTM2, red.as_slice());
        self.cmd(CMD_DRF, &[]);
        self.push(Action::AwaitIdle);
        assert(self.pending() =~= old(self).pending() + refresh_sequence(black@, red@));
    }

    /// Decides from one sample of the busy line how the wait goes on. `None`
    /// stands for a sample that could not be taken.
    pub fn busy_sampled(sample: Option<bool>) -> (r: Result<BusyWait, EpdError>)
        ensures
            r == match sample {
                Some(true) => Ok::<BusyWait, EpdError>(BusyWait::Poll),
                Some(false) => Ok::<BusyWait, EpdError>(BusyWait::Done),
                None => Err::<BusyWait, EpdError>(EpdError::BusyReadFailure),
            },
    {
        match sample {
            Some(true) => Ok(BusyWait::Poll),
            Some(false) => Ok(BusyWait::Done),
            None => Err(EpdError::BusyReadFailure),
        }
    }

    /// Hands the queued steps to the hardware side and empties the queue.
    pub fn take_pending(&mut self) -> (steps: Vec<Action>)
        ensures
            signals(steps@) == old(self).pending(),
            final(self).pending() == Seq::<Signal>::empty(),
    {
        let mut steps: Vec<Action> = Vec::new();
        std::mem::swap(&mut steps, &mut self.outbox);
        assert(self.pending() =~= Seq::<Signal>::empty());
        steps
    }

    /// An interface with nothing queued, to stand in while the real one is
    /// worked on.
    pub(crate) fn idle() -> (interface: Self)
        ensures
            interface.pending() == Seq::<Signal>::empty(),
    {
        let interface = EpdInterface { outbox: Vec::new() };
        assert(interface.pending() =~= Seq::<Signal>::empty());
        interface
    }

    /// Queues a wait.
    fn delay_ms(&mut self, ms: u8)
        ensures
            final(self).pending() == old(self).pending() + seq![Signal::DelayMs(ms)],
    {
        self.push(Action::DelayMs(ms));
        assert(self.pending() =~= old(self).pending() + seq![Signal::DelayMs(ms)]);
    }

    /// Queues one step.
    fn push(&mut self, action: Action)
        ensures
            final(self).pending() == old(self).pending().push(action@),
    {
        proof {
            lemma_signals_push(self.outbox@, action);
        }
        self.outbox.push(action);
    }
}

/// The driver: the protocol side of the panel together with the image that
/// the next refresh will show.
pub struct Epd {
    pub(crate) interface: EpdInterface,
    pub(crate) framebuffer_black: [u8; FRAME_BYTES],
    pub(crate) framebuffer_red: [u8; FRAME_BYTES],
}

impl Epd {
    /// No pixel is inked in both colors at once.
    #[verifier::type_invariant]
    pub(crate) open spec fn inv(&self) -> bool {
        well_formed(self.framebuffer_black@, self.framebuffer_red@)
    }

    /// The black plane.
    pub open(crate) spec fn black(&self) -> Seq<u8> {
        self.framebuffer_black@
    }

    /// The red plane.
    pub open(crate) spec fn red(&self) -> Seq<u8> {
        self.framebuffer_red@
    }

    /// The steps that are queued for the hardware side, oldest first.
    pub open(crate) spec fn pending(&self) -> Seq<Signal> {
        self.interface.pending()
    }

    /// Makes the driver with a blank image and queues the power-up of the
    /// panel.
    pub fn new() -> (epd: Self)
        ensures
            epd.pending() == init_sequence(),
            epd.black() == blank_plane(),
            epd.red() == blank_plane(),
            well_formed(epd.black(), epd.red()),
    {
        let framebuffer_black: [u8; FRAME_BYTES] = [0xff;FRAME_BYTES];
        let framebuffer_red: [u8; FRAME_BYTES] = [0xff;FRAME_BYTES];
        assert(framebuffer_black@ =~= blank_plane());
        assert(framebuffer_red@ =~= blank_plane());
        assert(0xffu8 | 0xffu8 == 0xffu8) by (bit_vector);
        Epd { interface: EpdInterface::new(), framebuffer_black, framebuffer_red }
    }

    /// Queues one refresh of the panel from the image.
    pub fn refresh(&mut self)
        ensures
            final(self).pending() == old(self).pending() + refresh_sequence(
                old(self).black(),
                old(self).red(),
            ),
            final(self).black() == old(self).black(),
            final(self).red() == old(self).red(),
    {
        proof {
            use_type_invariant(&*self);
        }
        // The interface is taken out while it queues, and put back after.
        let mut interface = EpdInterface::idle();
        std::mem::swap(&mut interface, &mut self.interface);
        interface.refresh(&self.framebuffer_black, &self.framebuffer_red);
        self.interface = interface;
    }

    /// Hands the queued steps to the hardware side and empties the queue.
    /// The image stays as it is.
    pub fn take_pending(&mut self) -> (steps: Vec<Action>)
        ensures
            signals(steps@) == old(self).pending(),
            final(self).pending() == Seq::<Signal>::empty(),
            final(self).black() == old(self).black(),
            final(self).red() == old(self).red(),
    {
        proof {
            use_type_invariant(&*self);
        }
        let mut interface = EpdInterface::idle();
        std::mem::swap(&mut interface, &mut self.interface);
        let steps = interface.take_pending();
        self.interface = interface;
        steps
    }
}

/// Refreshing twice from the same image queues the same steps twice,
/// whatever else was queued before either refresh.
pub proof fn lemma_refresh_replays(
    before_first: Epd,
    after_first: Epd,
    before_second: Epd,
    after_second: Epd,
)
    requires
        after_first.pending() == before_first.pending() + refresh_sequence(
            before_first.black(),
            before_first.red(),
        ),
        after_second.pending() == before_second.pending() + refresh_sequence(
            before_second.black(),
            before_second.red(),
        ),
        before_second.black() == before_first.black(),
        before_second.red() == before_first.red(),
    ensures
        after_first.pending().skip(before_first.pending().len() as int)
            == after_second.pending().skip(before_second.pending().len() as int),
        after_first.pending().skip(before_first.pending().len() as int) == refresh_sequence(
            before_first.black(),
            before_first.red(),
        ),
{
    let queued = refresh_sequence(before_first.black(), before_first.red());
    assert((before_first.pending() + queued).skip(before_first.pending().len() as int)
        =~= queued);
    assert((before_second.pending() + queued).skip(before_second.pending().len() as int)
        =~= queued);
}

} // verus!

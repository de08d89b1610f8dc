//! Typed devices: a control channel restricted to one stroke kind.
//!
//! A keyboard device only ever sends and receives 12-byte keyboard records
//! and a mouse device only 24-byte mouse records, so cross-type misuse is
//! ruled out structurally. Construction validates the slot index against
//! the per-kind maximum before anything else is attempted.

use vstd::math::min;
use vstd::prelude::*;

use crate::channel::LoopbackChannel;
use crate::codec::{
    decode_key_strokes, decode_mouse_strokes, encode_key_strokes, encode_mouse_strokes,
    key_strokes_bytes, key_strokes_of_bytes, lemma_key_strokes_bytes_len,
    lemma_key_strokes_of_bytes_shape, lemma_mouse_strokes_bytes_len,
    lemma_mouse_strokes_of_bytes_shape, mouse_strokes_bytes, mouse_strokes_of_bytes,
    KEY_STROKE_SIZE, MOUSE_STROKE_SIZE,
};
use crate::error::InterceptionError;
use crate::stroke::{KeyFilter, KeyStroke, MouseFilter, MouseStroke, Precedence};

verus! {

/// Number of keyboard slots the driver exposes.
pub const MAX_KEYBOARD: usize = 10;

/// Number of mouse slots the driver exposes.
pub const MAX_MOUSE: usize = 10;

/// Total number of device slots: all keyboards, then all mice.
pub const MAX_DEVICES: usize = 20;

/// A keyboard input device: one control channel fixed to keyboard records.
#[derive(Debug)]
pub struct KeyboardDevice {
    channel: LoopbackChannel,
}

impl KeyboardDevice {
    /// The event filter this device was last configured with.
    pub closed spec fn spec_filter(&self) -> u16 {
        self.channel.spec_filter()
    }

    /// The precedence this device was last configured with.
    pub closed spec fn spec_precedence(&self) -> i32 {
        self.channel.spec_precedence()
    }

    /// The queued, unread event bytes of this device, oldest first.
    pub closed spec fn spec_pending(&self) -> Seq<u8> {
        self.channel.spec_pending()
    }

    /// The queued, unread keyboard records of this device, oldest first.
    pub open spec fn spec_pending_strokes(&self) -> Seq<KeyStroke> {
        key_strokes_of_bytes(self.spec_pending())
    }

    /// The queue only ever holds whole keyboard records.
    pub open spec fn wf(&self) -> bool {
        self.spec_pending().len() as int % (KEY_STROKE_SIZE as int) == 0
    }

    /// Create a new keyboard device for slot `index`.
    ///
    /// An index at or above the per-kind maximum is rejected with
    /// `InvalidDevice` before any channel is opened.
    pub fn new(index: usize) -> (r: Result<Self, InterceptionError>)
        ensures
            index < MAX_KEYBOARD ==> (r matches Ok(d) && d.wf() && d.spec_filter() == 0
                && d.spec_precedence() == 0 && d.spec_pending() == Seq::<u8>::empty()),
            index >= MAX_KEYBOARD ==> r == Err::<Self, _>(InterceptionError::InvalidDevice),
    {
        if index >= MAX_KEYBOARD {
            return Err(InterceptionError::InvalidDevice);
        }
        Ok(KeyboardDevice { channel: LoopbackChannel::new() })
    }

    /// Set the event filter for this keyboard device.
    pub fn set_filter(&mut self, filter: KeyFilter) -> (r: Result<(), InterceptionError>)
        ensures
            r is Ok,
            final(self).spec_filter() == filter,
            final(self).spec_precedence() == old(self).spec_precedence(),
            final(self).spec_pending() == old(self).spec_pending(),
    {
        self.channel.set_filter(filter);
        Ok(())
    }

    /// Get the event filter for this keyboard device.
    pub fn get_filter(&mut self) -> (r: Result<KeyFilter, InterceptionError>)
        ensures
            r == Ok::<KeyFilter, InterceptionError>(old(self).spec_filter()),
            *final(self) == *old(self),
    {
        Ok(self.channel.get_filter())
    }

    /// Set the precedence for this keyboard device.
    pub fn set_precedence(&mut self, precedence: Precedence) -> (r: Result<
        (),
        InterceptionError,
    >)
        ensures
            r is Ok,
            final(self).spec_precedence() == precedence,
            final(self).spec_filter() == old(self).spec_filter(),
            final(self).spec_pending() == old(self).spec_pending(),
    {
        self.channel.set_precedence(precedence);
        Ok(())
    }

    /// Get the precedence for this keyboard device.
    pub fn get_precedence(&mut self) -> (r: Result<Precedence, InterceptionError>)
        ensures
            r == Ok::<Precedence, InterceptionError>(old(self).spec_precedence()),
            *final(self) == *old(self),
    {
        Ok(self.channel.get_precedence())
    }

    /// Send keyboard strokes to this device: the whole byte image of the
    /// records is written and the count of records written is returned.
    /// An empty input writes nothing and reports zero.
    pub fn send(&mut self, strokes: &Vec<KeyStroke>) -> (r: Result<usize, InterceptionError>)
        ensures
            r == Ok::<usize, InterceptionError>(strokes.len()),
            final(self).spec_pending() == old(self).spec_pending() + key_strokes_bytes(strokes@),
            final(self).spec_filter() == old(self).spec_filter(),
            final(self).spec_precedence() == old(self).spec_precedence(),
            old(self).wf() ==> final(self).wf(),
    {
        if strokes.len() == 0 {
            proof {
                assert(key_strokes_bytes(strokes@) =~= Seq::<u8>::empty());
                assert(old(self).spec_pending() + key_strokes_bytes(strokes@) =~= old(
                    self,
                ).spec_pending());
            }
            return Ok(0);
        }
        let image = encode_key_strokes(strokes);
        let written = self.channel.write(&image);
        proof {
            lemma_key_strokes_bytes_len(strokes@);
            if old(self).wf() {
                lemma_mod_sum_multiple(
                    old(self).spec_pending().len() as int,
                    strokes@.len() as int,
                    KEY_STROKE_SIZE as int,
                );
            }
        }
        Ok(written / KEY_STROKE_SIZE)
    }

    /// Receive up to `max_strokes` keyboard strokes from this device, in
    /// FIFO order. The result holds exactly the records read, one per
    /// whole record transferred — never padded to `max_strokes`.
    pub fn receive(&mut self, max_strokes: usize) -> (r: Result<Vec<KeyStroke>, InterceptionError>)
        requires
            old(self).wf(),
        ensures
            final(self).wf(),
            r matches Ok(v) && v@ == old(self).spec_pending_strokes().take(min(
                max_strokes as int,
                old(self).spec_pending_strokes().len() as int,
            )),
            final(self).spec_pending_strokes() == old(self).spec_pending_strokes().skip(min(
                max_strokes as int,
                old(self).spec_pending_strokes().len() as int,
            )),
            final(self).spec_filter() == old(self).spec_filter(),
            final(self).spec_precedence() == old(self).spec_precedence(),
    {
        proof {
            lemma_key_strokes_of_bytes_shape(old(self).spec_pending());
            vstd::arithmetic::div_mod::lemma_fundamental_div_mod(
                old(self).spec_pending().len() as int,
                KEY_STROKE_SIZE as int,
            );
        }
        if max_strokes == 0 {
            proof {
                assert(old(self).spec_pending_strokes().take(0) =~= Seq::<KeyStroke>::empty());
                assert(old(self).spec_pending_strokes().skip(0) =~= old(
                    self,
                ).spec_pending_strokes());
            }
            return Ok(Vec::new());
        }
        let queued = self.channel.queued_len() / KEY_STROKE_SIZE;
        let k = if max_strokes < queued {
            max_strokes
        } else {
            queued
        };
        proof {
            assert(KEY_STROKE_SIZE * k <= KEY_STROKE_SIZE * queued) by (nonlinear_arith)
                requires
                    k <= queued,
            ;
        }
        let bytes = self.channel.read(k * KEY_STROKE_SIZE);
        let records = decode_key_strokes(&bytes);
        proof {
            let b = old(self).spec_pending();
            let kk = KEY_STROKE_SIZE * k;
            crate::codec::lemma_key_strokes_take_records(b, k as int);
            crate::codec::lemma_key_strokes_skip_records(b, k as int);
            assert(bytes@ =~= b.take(kk as int));
        }
        Ok(records)
    }

    /// Whether this device's wait signal reads as set: events are queued.
    pub fn signaled(&self) -> (r: bool)
        ensures
            r == (self.spec_pending().len() > 0),
    {
        self.channel.signaled()
    }
}

/// A mouse input device: one control channel fixed to mouse records.
#[derive(Debug)]
pub struct MouseDevice {
    channel: LoopbackChannel,
}

impl MouseDevice {
    /// The event filter this device was last configured with.
    pub closed spec fn spec_filter(&self) -> u16 {
        self.channel.spec_filter()
    }

    /// The precedence this device was last configured with.
    pub closed spec fn spec_precedence(&self) -> i32 {
        self.channel.spec_precedence()
    }

    /// The queued, unread event bytes of this device, oldest first.
    pub closed spec fn spec_pending(&self) -> Seq<u8> {
        self.channel.spec_pending()
    }

    /// The queued, unread mouse records of this device, oldest first.
    pub open spec fn spec_pending_strokes(&self) -> Seq<MouseStroke> {
        mouse_strokes_of_bytes(self.spec_pending())
    }

    /// The queue only ever holds whole mouse records.
    pub open spec fn wf(&self) -> bool {
        self.spec_pending().len() as int % (MOUSE_STROKE_SIZE as int) == 0
    }

    /// Create a new mouse device for slot `index`.
    ///
    /// An index at or above the per-kind maximum is rejected with
    /// `InvalidDevice` before any channel is opened.
    pub fn new(index: usize) -> (r: Result<Self, InterceptionError>)
        ensures
            index < MAX_MOUSE ==> (r matches Ok(d) && d.wf() && d.spec_filter() == 0
                && d.spec_precedence() == 0 && d.spec_pending() == Seq::<u8>::empty()),
            index >= MAX_MOUSE ==> r == Err::<Self, _>(InterceptionError::InvalidDevice),
    {
        if index >= MAX_MOUSE {
            return Err(InterceptionError::InvalidDevice);
        }
        Ok(MouseDevice { channel: LoopbackChannel::new() })
    }

    /// Set the event filter for this mouse device.
    pub fn set_filter(&mut self, filter: MouseFilter) -> (r: Result<(), InterceptionError>)
        ensures
            r is Ok,
            final(self).spec_filter() == filter,
            final(self).spec_precedence() == old(self).spec_precedence(),
            final(self).spec_pending() == old(self).spec_pending(),
    {
        self.channel.set_filter(filter);
        Ok(())
    }

    /// Get the event filter for this mouse device.
    pub fn get_filter(&mut self) -> (r: Result<MouseFilter, InterceptionError>)
        ensures
            r == Ok::<MouseFilter, InterceptionError>(old(self).spec_filter()),
            *final(self) == *old(self),
    {
        Ok(self.channel.get_filter())
    }

    /// Set the precedence for this mouse device.
    pub fn set_precedence(&mut self, precedence: Precedence) -> (r: Result<
        (),
        InterceptionError,
    >)
        ensures
            r is Ok,
            final(self).spec_precedence() == precedence,
            final(self).spec_filter() == old(self).spec_filter(),
            final(self).spec_pending() == old(self).spec_pending(),
    {
        self.channel.set_precedence(precedence);
        Ok(())
    }

    /// Get the precedence for this mouse device.
    pub fn get_precedence(&mut self) -> (r: Result<Precedence, InterceptionError>)
        ensures
            r == Ok::<Precedence, InterceptionError>(old(self).spec_precedence()),
            *final(self) == *old(self),
    {
        Ok(self.channel.get_precedence())
    }

    /// Send mouse strokes to this device: the whole byte image of the
    /// records is written and the count of records written is returned.
    /// An empty input writes nothing and reports zero.
    pub fn send(&mut self, strokes: &Vec<MouseStroke>) -> (r: Result<usize, InterceptionError>)
        ensures
            r == Ok::<usize, InterceptionError>(strokes.len()),
            final(self).spec_pending() == old(self).spec_pending() + mouse_strokes_bytes(strokes@),
            final(self).spec_filter() == old(self).spec_filter(),
            final(self).spec_precedence() == old(self).spec_precedence(),
            old(self).wf() ==> final(self).wf(),
    {
        if strokes.len() == 0 {
            proof {
                assert(mouse_strokes_bytes(strokes@) =~= Seq::<u8>::empty());
                assert(old(self).spec_pending() + mouse_strokes_bytes(strokes@) =~= old(
                    self,
                ).spec_pending());
            }
            return Ok(0);
        }
        let image = encode_mouse_strokes(strokes);
        let written = self.channel.write(&image);
        proof {
            lemma_mouse_strokes_bytes_len(strokes@);
            if old(self).wf() {
                lemma_mod_sum_multiple(
                    old(self).spec_pending().len() as int,
                    strokes@.len() as int,
                    MOUSE_STROKE_SIZE as int,
                );
            }
        }
        Ok(written / MOUSE_STROKE_SIZE)
    }

    /// Receive up to `max_strokes` mouse strokes from this device, in FIFO
    /// order. The result holds exactly the records read, one per whole
    /// record transferred — never padded to `max_strokes`.
    pub fn receive(&mut self, max_strokes: usize) -> (r: Result<
        Vec<MouseStroke>,
        InterceptionError,
    >)
        requires
            old(self).wf(),
        ensures
            final(self).wf(),
            r matches Ok(v) && v@ == old(self).spec_pending_strokes().take(min(
                max_strokes as int,
                old(self).spec_pending_strokes().len() as int,
            )),
            final(self).spec_pending_strokes() == old(self).spec_pending_strokes().skip(min(
                max_strokes as int,
                old(self).spec_pending_strokes().len() as int,
            )),
            final(self).spec_filter() == old(self).spec_filter(),
            final(self).spec_precedence() == old(self).spec_precedence(),
    {
        proof {
            lemma_mouse_strokes_of_bytes_shape(old(self).spec_pending());
            vstd::arithmetic::div_mod::lemma_fundamental_div_mod(
                old(self).spec_pending().len() as int,
                MOUSE_STROKE_SIZE as int,
            );
        }
        if max_strokes == 0 {
            proof {
                assert(old(self).spec_pending_strokes().take(0) =~= Seq::<MouseStroke>::empty());
                assert(old(self).spec_pending_strokes().skip(0) =~= old(
                    self,
                ).spec_pending_strokes());
            }
            return Ok(Vec::new());
        }
        let queued = self.channel.queued_len() / MOUSE_STROKE_SIZE;
        let k = if max_strokes < queued {
            max_strokes
        } else {
            queued
        };
        proof {
            assert(MOUSE_STROKE_SIZE * k <= MOUSE_STROKE_SIZE * queued) by (nonlinear_arith)
                requires
                    k <= queued,
            ;
        }
        let bytes = self.channel.read(k * MOUSE_STROKE_SIZE);
        let records = decode_mouse_strokes(&bytes);
        proof {
            let b = old(self).spec_pending();
            crate::codec::lemma_mouse_strokes_take_records(b, k as int);
            crate::codec::lemma_mouse_strokes_skip_records(b, k as int);
            assert(bytes@ =~= b.take((MOUSE_STROKE_SIZE * k) as int));
        }
        Ok(records)
    }

    /// Whether this device's wait signal reads as set: events are queued.
    pub fn signaled(&self) -> (r: bool)
        ensures
            r == (self.spec_pending().len() > 0),
    {
        self.channel.signaled()
    }
}

/// Filter round trip: setting a filter and then reading it back yields
/// exactly the filter that was set, for every 16-bit filter value. The
/// first premise is what `KeyboardDevice::set_filter(f)` ensures of the
/// device it leaves behind; the second is what `KeyboardDevice::get_filter`
/// ensures of its result on that device.
pub proof fn lemma_filter_round_trip_keyboard(
    after_set: KeyboardDevice,
    got: Result<KeyFilter, InterceptionError>,
    f: u16,
)
    requires
        after_set.spec_filter() == f,
        got == Ok::<KeyFilter, InterceptionError>(after_set.spec_filter()),
    ensures
        got == Ok::<KeyFilter, InterceptionError>(f),
{
}

/// Filter round trip for a mouse device, as for the keyboard.
pub proof fn lemma_filter_round_trip_mouse(
    after_set: MouseDevice,
    got: Result<MouseFilter, InterceptionError>,
    f: u16,
)
    requires
        after_set.spec_filter() == f,
        got == Ok::<MouseFilter, InterceptionError>(after_set.spec_filter()),
    ensures
        got == Ok::<MouseFilter, InterceptionError>(f),
{
}

/// Precedence round trip: setting a precedence and then reading it back
/// yields exactly the precedence that was set, for every representable
/// value. The premises are what `Device::set_precedence(p)` ensures of
/// the device it leaves behind and what `Device::get_precedence` ensures
/// of its result on that device.
pub proof fn lemma_precedence_round_trip(
    after_set: Device,
    got: Result<Precedence, InterceptionError>,
    p: i32,
)
    requires
        after_set.spec_precedence() == p,
        got == Ok::<Precedence, InterceptionError>(after_set.spec_precedence()),
    ensures
        got == Ok::<Precedence, InterceptionError>(p),
{
}

/// Echo round trip: on a channel that echoes writes back as reads, a
/// `send(strokes)` followed by `receive(strokes.len())` returns records
/// field-equal to the originals, for every array of keyboard records.
/// The premise on `after_send` is what `send` ensures on a drained
/// device; the conclusion is the exact value `receive` then returns.
pub proof fn lemma_send_receive_round_trip_keyboard(
    after_send: KeyboardDevice,
    strokes: Seq<KeyStroke>,
)
    requires
        after_send.spec_pending() == Seq::<u8>::empty() + key_strokes_bytes(strokes),
    ensures
        after_send.wf(),
        after_send.spec_pending_strokes() == strokes,
        after_send.spec_pending_strokes().take(min(
            strokes.len() as int,
            after_send.spec_pending_strokes().len() as int,
        )) == strokes,
{
    assert(after_send.spec_pending() =~= key_strokes_bytes(strokes));
    crate::codec::lemma_key_strokes_bytes_len(strokes);
    crate::codec::lemma_key_strokes_roundtrip(strokes);
    vstd::arithmetic::div_mod::lemma_mod_multiples_basic(
        strokes.len() as int,
        KEY_STROKE_SIZE as int,
    );
    assert(after_send.spec_pending_strokes().take(strokes.len() as int) =~= strokes);
}

/// Echo round trip for mouse records, as for the keyboard.
pub proof fn lemma_send_receive_round_trip_mouse(after_send: MouseDevice, strokes: Seq<MouseStroke>)
    requires
        after_send.spec_pending() == Seq::<u8>::empty() + mouse_strokes_bytes(strokes),
    ensures
        after_send.wf(),
        after_send.spec_pending_strokes() == strokes,
        after_send.spec_pending_strokes().take(min(
            strokes.len() as int,
            after_send.spec_pending_strokes().len() as int,
        )) == strokes,
{
    assert(after_send.spec_pending() =~= mouse_strokes_bytes(strokes));
    crate::codec::lemma_mouse_strokes_bytes_len(strokes);
    crate::codec::lemma_mouse_strokes_roundtrip(strokes);
    vstd::arithmetic::div_mod::lemma_mod_multiples_basic(
        strokes.len() as int,
        MOUSE_STROKE_SIZE as int,
    );
    assert(after_send.spec_pending_strokes().take(strokes.len() as int) =~= strokes);
}

/// A sum of two multiples of `d` is a multiple of `d`.
pub proof fn lemma_mod_sum_multiple(a: int, n: int, d: int)
    requires
        0 < d,
        0 <= a,
        0 <= n,
        a % d == 0,
    ensures
        (a + n * d) % d == 0,
{
    vstd::arithmetic::div_mod::lemma_add_mod_noop(a, n * d, d);
    vstd::arithmetic::div_mod::lemma_mod_multiples_basic(n, d);
    vstd::arithmetic::div_mod::lemma_small_mod(0, d as nat);
}

/// One device slot: a keyboard in the first ten positions, a mouse in the
/// next ten.
#[derive(Debug)]
pub enum Device {
    /// Keyboard device.
    Keyboard(KeyboardDevice),
    /// Mouse device.
    Mouse(MouseDevice),
}

impl Device {
    /// The event filter of the wrapped device.
    pub open spec fn spec_filter(&self) -> u16 {
        match self {
            Device::Keyboard(d) => d.spec_filter(),
            Device::Mouse(d) => d.spec_filter(),
        }
    }

    /// The precedence of the wrapped device.
    pub open spec fn spec_precedence(&self) -> i32 {
        match self {
            Device::Keyboard(d) => d.spec_precedence(),
            Device::Mouse(d) => d.spec_precedence(),
        }
    }

    /// The queued, unread event bytes of the wrapped device.
    pub open spec fn spec_pending(&self) -> Seq<u8> {
        match self {
            Device::Keyboard(d) => d.spec_pending(),
            Device::Mouse(d) => d.spec_pending(),
        }
    }

    /// The wrapped device's queue holds whole records only.
    pub open spec fn wf(&self) -> bool {
        match self {
            Device::Keyboard(d) => d.wf(),
            Device::Mouse(d) => d.wf(),
        }
    }

    /// Create the device for global slot `index`: the first ten slots are
    /// keyboards, the next ten mice, and any other index is rejected with
    /// `InvalidDevice` before anything is opened.
    pub fn new(index: usize) -> (r: Result<Self, InterceptionError>)
        ensures
            index < MAX_KEYBOARD ==> (r matches Ok(d) && (d matches Device::Keyboard(_)) && d.wf()
                && d.spec_filter() == 0 && d.spec_precedence() == 0 && d.spec_pending()
                == Seq::<u8>::empty()),
            MAX_KEYBOARD <= index < MAX_DEVICES ==> (r matches Ok(d) && (d matches Device::Mouse(_))
                && d.wf() && d.spec_filter() == 0 && d.spec_precedence() == 0 && d.spec_pending()
                == Seq::<u8>::empty()),
            index >= MAX_DEVICES ==> r == Err::<Self, _>(InterceptionError::InvalidDevice),
    {
        if index < MAX_KEYBOARD {
            match KeyboardDevice::new(index) {
                Ok(d) => Ok(Device::Keyboard(d)),
                Err(e) => Err(e),
            }
        } else if index < MAX_DEVICES {
            match MouseDevice::new(index - MAX_KEYBOARD) {
                Ok(d) => Ok(Device::Mouse(d)),
                Err(e) => Err(e),
            }
        } else {
            Err(InterceptionError::InvalidDevice)
        }
    }

    /// Set the precedence of the wrapped device, whichever kind it is.
    pub fn set_precedence(&mut self, precedence: Precedence) -> (r: Result<
        (),
        InterceptionError,
    >)
        ensures
            r is Ok,
            final(self).spec_precedence() == precedence,
            final(self).spec_filter() == old(self).spec_filter(),
            final(self).spec_pending() == old(self).spec_pending(),
            (*final(self)) is Keyboard <==> (*old(self)) is Keyboard,
    {
        match self {
            Device::Keyboard(d) => d.set_precedence(precedence),
            Device::Mouse(d) => d.set_precedence(precedence),
        }
    }

    /// Get the precedence of the wrapped device, whichever kind it is.
    pub fn get_precedence(&mut self) -> (r: Result<Precedence, InterceptionError>)
        ensures
            r == Ok::<Precedence, InterceptionError>(old(self).spec_precedence()),
            *final(self) == *old(self),
    {
        match self {
            Device::Keyboard(d) => d.get_precedence(),
            Device::Mouse(d) => d.get_precedence(),
        }
    }

    /// Whether the wrapped device's wait signal reads as set.
    pub fn signaled(&self) -> (r: bool)
        ensures
            r == (self.spec_pending().len() > 0),
    {
        match self {
            Device::Keyboard(d) => d.signaled(),
            Device::Mouse(d) => d.signaled(),
        }
    }
}

} // verus!

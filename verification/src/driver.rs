use vstd::prelude::*;

use crate::codes::HwAction;
use crate::codes::Notification;
use crate::codes::ReturnCode;
use crate::codes::MAX_LENGTH;
use crate::records::app_or_empty;
use crate::records::opt_region_view;
use crate::records::App;
use crate::records::AppView;
use crate::records::RecordStore;

verus! {

/// A region of the given view may be registered for transmit: at most
/// `MAX_LENGTH` bytes. Un-registering (no region) is always accepted.
pub open spec fn valid_tx_region(region: Option<Seq<u8>>) -> bool {
    region matches Some(r) ==> r.len() <= MAX_LENGTH
}

/// A region of the given view may be registered for receive: exactly
/// `MAX_LENGTH` bytes. Un-registering (no region) is always accepted.
pub open spec fn valid_rx_region(region: Option<Seq<u8>>) -> bool {
    region matches Some(r) ==> r.len() == MAX_LENGTH
}

proof fn lemma_remove_insert(m: Map<u32, AppView>, id: u32, v: AppView)
    ensures
        m.remove(id).insert(id, v) == m.insert(id, v),
{
    assert(m.remove(id).insert(id, v) =~= m.insert(id, v));
}

/// The syscall-facing arbitration layer for a single NFC tag-emulation
/// interface.
///
/// It owns the two fixed-capacity hardware staging buffers, tracks which
/// process (if any) holds the single in-flight transmit and the single
/// in-flight receive operation, tracks whether a reader has selected the
/// tag, and stores the per-process records. Syscalls return the hardware
/// request they decided on as a value; hardware completions are fed back in
/// through `frame_transmitted` and `frame_received`.
pub struct NfcDriver {
    /// Tag presence: true only between a "tag selected" event and the next
    /// "field lost" event.
    pub driver_selected: bool,
    /// The process whose transmit operation is in flight, if any.
    pub tx_in_progress: Option<u32>,
    /// The transmit staging buffer, held here while idle and by the
    /// hardware driver while a transmit is in flight.
    pub tx_buffer: Option<Vec<u8>>,
    /// The process whose receive operation is in flight, if any.
    pub rx_in_progress: Option<u32>,
    /// The receive staging buffer, held here while idle and by the hardware
    /// driver while a receive is in flight.
    pub rx_buffer: Option<Vec<u8>>,
    /// The per-process records.
    pub applications: RecordStore,
}

impl NfcDriver {
    /// The system-wide invariant, preserved by every operation.
    ///
    /// At most one transmit and at most one receive operation is in flight
    /// (each direction has a single slot), and a direction's slot is
    /// occupied exactly when its staging buffer has been handed to the
    /// hardware driver, so a buffer is never submitted twice before being
    /// returned. Staging buffers hold exactly `MAX_LENGTH` bytes, and every
    /// stored process record respects the registration size rules.
    pub open spec fn wf(self) -> bool {
        &&& self.applications.wf()
        &&& (self.tx_in_progress is Some <==> self.tx_buffer is None)
        &&& (self.rx_in_progress is Some <==> self.rx_buffer is None)
        &&& (self.tx_buffer matches Some(b) ==> b@.len() == MAX_LENGTH)
        &&& (self.rx_buffer matches Some(b) ==> b@.len() == MAX_LENGTH)
        &&& forall|id: u32| #[trigger] self.applications@.contains_key(id)
            ==> self.applications@[id].wf()
    }

    /// The tag-presence flag, both operation slots and both staging buffers
    /// are the same in `self` and `other`.
    pub open spec fn hw_eq(self, other: NfcDriver) -> bool {
        &&& other.driver_selected == self.driver_selected
        &&& other.tx_in_progress == self.tx_in_progress
        &&& other.tx_buffer == self.tx_buffer
        &&& other.rx_in_progress == self.rx_in_progress
        &&& other.rx_buffer == self.rx_buffer
    }

    /// A fresh driver: tag not selected, no operation in flight, both
    /// staging buffers held by the arbiter, no process records.
    pub fn new(tx_buffer: Vec<u8>, rx_buffer: Vec<u8>) -> (d: NfcDriver)
        requires
            tx_buffer@.len() == MAX_LENGTH,
            rx_buffer@.len() == MAX_LENGTH,
        ensures
            d.wf(),
            !d.driver_selected,
            d.tx_in_progress is None,
            d.rx_in_progress is None,
            d.tx_buffer == Some(tx_buffer),
            d.rx_buffer == Some(rx_buffer),
            d.applications@ == Map::<u32, AppView>::empty(),
    {
        NfcDriver {
            driver_selected: false,
            tx_in_progress: None,
            tx_buffer: Some(tx_buffer),
            rx_in_progress: None,
            rx_buffer: Some(rx_buffer),
            applications: RecordStore::new(),
        }
    }

    /// Hardware event: a reader completed anticollision and selected the
    /// tag. Anticollision is over, so the returned request relaxes the
    /// hardware's maximum inter-frame delay to its largest value.
    pub fn tag_selected(&mut self) -> (a: HwAction)
        ensures
            *final(self) == (NfcDriver { driver_selected: true, ..*old(self) }),
            a == HwAction::SetFrameDelayMax(0xfffff),
    {
        self.driver_selected = true;
        HwAction::SetFrameDelayMax(0xfffff)
    }

    /// Hardware event: a reader's field is present but the tag has not been
    /// selected yet. Observable only as a hook; no state changes.
    pub fn field_detected(&self) {
    }

    /// Hardware event: the reader's field is gone. Transmit and receive
    /// requests fail with `EOff` until the tag is selected again.
    pub fn field_lost(&mut self)
        ensures
            *final(self) == (NfcDriver { driver_selected: false, ..*old(self) }),
    {
        self.driver_selected = false;
    }

    /// Stage `slice` for transmission. If no transmit is in flight, copy it
    /// into the transmit staging buffer, record `app_id` in the transmit
    /// slot and return the submission request: the point of no return for
    /// this operation. If a transmit is already in flight, hand the region
    /// back to the process record unchanged for a future attempt and
    /// request nothing.
    fn transmit(&mut self, app_id: u32, app: &mut App, slice: Vec<u8>, len: usize) -> (a: Option<
        HwAction,
    >)
        requires
            old(self).wf(),
            slice@.len() <= MAX_LENGTH,
        ensures
            final(self).wf(),
            final(self).driver_selected == old(self).driver_selected,
            final(self).rx_in_progress == old(self).rx_in_progress,
            final(self).rx_buffer == old(self).rx_buffer,
            final(self).applications == old(self).applications,
            old(self).tx_in_progress is None ==> {
                &&& final(self).tx_in_progress == Some(app_id)
                &&& final(self).tx_buffer is None
                &&& final(app)@ == old(app)@
                &&& (a matches Some(HwAction::TransmitBuffer(b, l)) && b@ == slice@
                    + old(self).tx_buffer->Some_0@.skip(slice@.len() as int) && l == len)
            },
            old(self).tx_in_progress is Some ==> {
                &&& *final(self) == *old(self)
                &&& final(app)@ == old(app)@.with_tx_region(Some(slice@))
                &&& a is None
            },
    {
        if self.tx_in_progress.is_none() {
            self.tx_in_progress = Some(app_id);
            match self.tx_buffer.take() {
                Some(mut buffer) => {
                    let ghost hw0 = buffer@;
                    let mut i: usize = 0;
                    while i < slice.len()
                        invariant
                            i <= slice@.len(),
                            slice@.len() <= hw0.len(),
                            buffer@.len() == hw0.len(),
                            forall|j: int| 0 <= j < i ==> buffer@[j] == slice@[j],
                            forall|j: int| i <= j < hw0.len() ==> buffer@[j] == hw0[j],
                        decreases slice@.len() - i,
                    {
                        let byte = slice[i];
                        buffer.set(i, byte);
                        i += 1;
                    }
                    proof {
                        assert(buffer@ =~= slice@ + hw0.skip(slice@.len() as int));
                    }
                    Some(HwAction::TransmitBuffer(buffer, len))
                },
                None => {
                    // by `wf`, an empty transmit slot means the arbiter
                    // holds the staging buffer
                    proof {
                        assert(false);
                    }
                    None
                },
            }
        } else {
            app.tx_buffer = Some(slice);
            None
        }
    }

    /// Handle a transmit request: fail with `EOff` while the tag is not
    /// selected, with `EBusy` when the process has no registered transmit
    /// region (never supplied, or consumed by an earlier request);
    /// otherwise consume the region and hand it to `transmit`. Note the
    /// deliberate asymmetry with the receive path: when another transmit is
    /// in flight the syscall still reports `Success`, the region is merely
    /// retained for a future attempt and no completion is owed.
    fn transmit_new(&mut self, app_id: u32, app: &mut App, len: usize) -> (r: (
        ReturnCode,
        Option<HwAction>,
    ))
        requires
            old(self).wf(),
            old(app)@.wf(),
        ensures
            final(self).wf(),
            final(app)@.wf(),
            final(self).driver_selected == old(self).driver_selected,
            final(self).rx_in_progress == old(self).rx_in_progress,
            final(self).rx_buffer == old(self).rx_buffer,
            final(self).applications == old(self).applications,
            !old(self).driver_selected ==> {
                &&& r.0 == ReturnCode::EOff
                &&& r.1 is None
                &&& *final(self) == *old(self)
                &&& final(app)@ == old(app)@
            },
            old(self).driver_selected && old(app).tx_buffer is None ==> {
                &&& r.0 == ReturnCode::EBusy
                &&& r.1 is None
                &&& *final(self) == *old(self)
                &&& final(app)@ == old(app)@
            },
            old(self).driver_selected ==> (old(app).tx_buffer matches Some(region) ==> {
                &&& r.0 == ReturnCode::Success
                &&& if old(self).tx_in_progress is None {
                    &&& final(self).tx_in_progress == Some(app_id)
                    &&& final(self).tx_buffer is None
                    &&& final(app)@ == old(app)@.with_tx_region(None)
                    &&& (r.1 matches Some(HwAction::TransmitBuffer(b, l)) && b@ == region@
                        + old(self).tx_buffer->Some_0@.skip(region@.len() as int) && l == len)
                } else {
                    &&& *final(self) == *old(self)
                    &&& final(app)@ == old(app)@
                    &&& r.1 is None
                }
            }),
    {
        if !self.driver_selected {
            return (ReturnCode::EOff, None);
        }
        match app.tx_buffer.take() {
            Some(slice) => {
                let a = self.transmit(app_id, app, slice, len);
                (ReturnCode::Success, a)
            },
            None => (ReturnCode::EBusy, None),
        }
    }

    /// Handle a receive request: fail with `EOff` while the tag is not
    /// selected, with `EBusy` when the receive staging buffer is already in
    /// flight, and with `EInval` when the process has no registered receive
    /// region. Otherwise record `app_id` in the receive slot and return the
    /// request that hands the staging buffer to the hardware.
    fn receive_new(&mut self, app_id: u32, app: &mut App, _len: usize) -> (r: (
        ReturnCode,
        Option<HwAction>,
    ))
        requires
            old(self).wf(),
            old(app)@.wf(),
        ensures
            final(self).wf(),
            final(app)@ == old(app)@,
            final(self).driver_selected == old(self).driver_selected,
            final(self).tx_in_progress == old(self).tx_in_progress,
            final(self).tx_buffer == old(self).tx_buffer,
            final(self).applications == old(self).applications,
            !old(self).driver_selected ==> {
                &&& r.0 == ReturnCode::EOff
                &&& r.1 is None
                &&& *final(self) == *old(self)
            },
            old(self).driver_selected && old(self).rx_buffer is None ==> {
                &&& r.0 == ReturnCode::EBusy
                &&& r.1 is None
                &&& *final(self) == *old(self)
            },
            old(self).driver_selected && old(self).rx_buffer is Some && old(app).rx_buffer is None
                ==> {
                &&& r.0 == ReturnCode::EInval
                &&& r.1 is None
                &&& *final(self) == *old(self)
            },
            old(self).driver_selected ==> (old(self).rx_buffer matches Some(hwb) ==> old(
                app,
            ).rx_buffer is Some ==> {
                &&& r.0 == ReturnCode::Success
                &&& final(self).rx_in_progress == Some(app_id)
                &&& final(self).rx_buffer is None
                &&& (r.1 matches Some(HwAction::ReceiveBuffer(b)) && b@ == hwb@)
            }),
    {
        if !self.driver_selected {
            return (ReturnCode::EOff, None);
        }
        if self.rx_buffer.is_none() {
            return (ReturnCode::EBusy, None);
        }
        if app.rx_buffer.is_some() {
            match self.rx_buffer.take() {
                Some(buffer) => {
                    self.rx_in_progress = Some(app_id);
                    (ReturnCode::Success, Some(HwAction::ReceiveBuffer(buffer)))
                },
                None => {
                    // excluded above: the staging buffer is present
                    proof {
                        assert(false);
                    }
                    (ReturnCode::EBusy, None)
                },
            }
        } else {
            // a receive region must be supplied before a receive request
            (ReturnCode::EInval, None)
        }
    }

    /// Hardware completion of a transmit: the hardware driver hands the
    /// transmit staging buffer back with the operation's result. The buffer
    /// returns to the arbiter, the transmit slot is cleared, and exactly
    /// one notification is owed: to the process recorded in the slot when
    /// the operation started — never to any other — through its registered
    /// transmit callback, carrying `(result, 0, 0)`.
    pub fn frame_transmitted(&mut self, buffer: Vec<u8>, result: ReturnCode) -> (n: Option<
        Notification,
    >)
        requires
            old(self).wf(),
            old(self).tx_buffer is None,
            buffer@.len() == MAX_LENGTH,
        ensures
            final(self).wf(),
            final(self).tx_in_progress is None,
            final(self).tx_buffer == Some(buffer),
            final(self).driver_selected == old(self).driver_selected,
            final(self).rx_in_progress == old(self).rx_in_progress,
            final(self).rx_buffer == old(self).rx_buffer,
            old(self).tx_in_progress is None ==> final(self).applications == old(self).applications
                && n is None,
            old(self).tx_in_progress matches Some(pid) ==> {
                let a0 = app_or_empty(old(self).applications@, pid);
                &&& final(self).applications@ == old(self).applications@.insert(pid, a0)
                &&& n == match a0.tx_callback {
                    Some(cb) => Some(
                        Notification { process: pid, callback: cb, result, arg2: 0, arg3: 0 },
                    ),
                    None => None::<Notification>,
                }
            },
    {
        self.tx_buffer = Some(buffer);
        match self.tx_in_progress.take() {
            None => None,
            Some(pid) => {
                let app = self.applications.take_app(pid);
                let n = match app.tx_callback {
                    Some(cb) => Some(
                        Notification { process: pid, callback: cb, result, arg2: 0, arg3: 0 },
                    ),
                    None => None,
                };
                self.applications.put_app(pid, app);
                proof {
                    lemma_remove_insert(
                        old(self).applications@,
                        pid,
                        app_or_empty(old(self).applications@, pid),
                    );
                }
                n
            },
        }
    }

    /// Hardware completion of a receive: the hardware driver hands the
    /// receive staging buffer back with the received length and the
    /// operation's result. The buffer returns to the arbiter and the
    /// receive slot is cleared. If a process was recorded in the slot and
    /// still has a receive region, the first `min(rx_len, region length)`
    /// bytes of the staging buffer are copied into that region, and exactly
    /// one notification is owed: to that process — never to any other —
    /// through its registered receive callback, carrying
    /// `(result, copied length, 0)`.
    pub fn frame_received(&mut self, buffer: Vec<u8>, rx_len: usize, result: ReturnCode) -> (n:
        Option<Notification>)
        requires
            old(self).wf(),
            old(self).rx_buffer is None,
            buffer@.len() == MAX_LENGTH,
        ensures
            final(self).wf(),
            final(self).rx_in_progress is None,
            (final(self).rx_buffer matches Some(b) && b@ == buffer@),
            final(self).driver_selected == old(self).driver_selected,
            final(self).tx_in_progress == old(self).tx_in_progress,
            final(self).tx_buffer == old(self).tx_buffer,
            old(self).rx_in_progress is None ==> final(self).applications == old(self).applications
                && n is None,
            old(self).rx_in_progress matches Some(pid) ==> {
                let m = old(self).applications@;
                let a0 = app_or_empty(m, pid);
                &&& a0.rx_region is None ==> final(self).applications@ == m.insert(pid, a0)
                    && n is None
                &&& (a0.rx_region matches Some(rb) ==> {
                    let copied = if rx_len <= rb.len() {
                        rx_len as int
                    } else {
                        rb.len() as int
                    };
                    &&& final(self).applications@ == m.insert(
                        pid,
                        a0.with_rx_region(Some(buffer@.take(copied) + rb.skip(copied))),
                    )
                    &&& n == match a0.rx_callback {
                        Some(cb) => Some(
                            Notification {
                                process: pid,
                                callback: cb,
                                result,
                                arg2: copied as usize,
                                arg3: 0,
                            },
                        ),
                        None => None::<Notification>,
                    }
                })
            },
    {
        let pid_opt = self.rx_in_progress.take();
        match pid_opt {
            None => {
                self.rx_buffer = Some(buffer);
                None
            },
            Some(pid) => {
                let mut app = self.applications.take_app(pid);
                let n = match app.rx_buffer.take() {
                    None => None,
                    Some(mut rb) => {
                        let max_len = if rx_len < rb.len() {
                            rx_len
                        } else {
                            rb.len()
                        };
                        let ghost rb0 = rb@;
                        let mut idx: usize = 0;
                        while idx < max_len
                            invariant
                                idx <= max_len,
                                max_len <= rb0.len(),
                                max_len <= buffer@.len(),
                                rb@.len() == rb0.len(),
                                forall|j: int| 0 <= j < idx ==> rb@[j] == buffer@[j],
                                forall|j: int| idx <= j < rb0.len() ==> rb@[j] == rb0[j],
                            decreases max_len - idx,
                        {
                            let byte = buffer[idx];
                            rb.set(idx, byte);
                            idx += 1;
                        }
                        proof {
                            assert(rb@ =~= buffer@.take(max_len as int) + rb0.skip(
                                max_len as int,
                            ));
                        }
                        let n = match app.rx_callback {
                            Some(cb) => Some(
                                Notification {
                                    process: pid,
                                    callback: cb,
                                    result,
                                    arg2: max_len,
                                    arg3: 0,
                                },
                            ),
                            None => None,
                        };
                        app.rx_buffer = Some(rb);
                        n
                    },
                };
                let ghost appv = app@;
                self.applications.put_app(pid, app);
                self.rx_buffer = Some(buffer);
                proof {
                    lemma_remove_insert(old(self).applications@, pid, appv);
                }
                n
            },
        }
    }

    /// Syscall: share a memory region with the driver.
    ///
    /// Selector `1` registers a transmit region of at most `MAX_LENGTH`
    /// bytes, selector `2` a receive region of exactly `MAX_LENGTH` bytes;
    /// for both, no region un-registers. A region of any other size fails
    /// with `EInval` and leaves the previously registered region untouched;
    /// any other selector fails with `ENoSupport` and changes nothing.
    pub fn allow(&mut self, appid: u32, allow_num: usize, slice: Option<Vec<u8>>) -> (r:
        ReturnCode)
        requires
            old(self).wf(),
        ensures
            final(self).wf(),
            old(self).hw_eq(*final(self)),
            allow_num == 1 ==> {
                let m = old(self).applications@;
                let a0 = app_or_empty(m, appid);
                if valid_tx_region(opt_region_view(slice)) {
                    &&& r == ReturnCode::Success
                    &&& final(self).applications@ == m.insert(
                        appid,
                        a0.with_tx_region(opt_region_view(slice)),
                    )
                } else {
                    &&& r == ReturnCode::EInval
                    &&& final(self).applications@ == m.insert(appid, a0)
                }
            },
            allow_num == 2 ==> {
                let m = old(self).applications@;
                let a0 = app_or_empty(m, appid);
                if valid_rx_region(opt_region_view(slice)) {
                    &&& r == ReturnCode::Success
                    &&& final(self).applications@ == m.insert(
                        appid,
                        a0.with_rx_region(opt_region_view(slice)),
                    )
                } else {
                    &&& r == ReturnCode::EInval
                    &&& final(self).applications@ == m.insert(appid, a0)
                }
            },
            allow_num == 0 || allow_num >= 3 ==> r == ReturnCode::ENoSupport && *final(self)
                == *old(self),
    {
        match allow_num {
            1 => {
                let mut app = self.applications.take_app(appid);
                let mut oversized = false;
                if let Some(buf) = &slice {
                    if buf.len() > MAX_LENGTH {
                        oversized = true;
                    }
                }
                let r = if oversized {
                    ReturnCode::EInval
                } else {
                    app.tx_buffer = slice;
                    ReturnCode::Success
                };
                let ghost appv = app@;
                self.applications.put_app(appid, app);
                proof {
                    lemma_remove_insert(old(self).applications@, appid, appv);
                }
                r
            },
            2 => {
                let mut app = self.applications.take_app(appid);
                let mut mis_sized = false;
                if let Some(buf) = &slice {
                    if buf.len() != MAX_LENGTH {
                        mis_sized = true;
                    }
                }
                let r = if mis_sized {
                    ReturnCode::EInval
                } else {
                    app.rx_buffer = slice;
                    ReturnCode::Success
                };
                let ghost appv = app@;
                self.applications.put_app(appid, app);
                proof {
                    lemma_remove_insert(old(self).applications@, appid, appv);
                }
                r
            },
            _ => ReturnCode::ENoSupport,
        }
    }

    /// Syscall: register a completion callback handle.
    ///
    /// Selector `1` sets (or replaces) the transmit-completion callback,
    /// selector `2` the receive-completion callback; no handle
    /// un-registers. Any other selector fails with `ENoSupport` and
    /// changes nothing.
    pub fn subscribe(&mut self, subscribe_num: usize, callback: Option<u32>, appid: u32) -> (r:
        ReturnCode)
        requires
            old(self).wf(),
        ensures
            final(self).wf(),
            old(self).hw_eq(*final(self)),
            subscribe_num == 1 ==> r == ReturnCode::Success && final(self).applications@ == old(
                self,
            ).applications@.insert(
                appid,
                app_or_empty(old(self).applications@, appid).with_tx_callback(callback),
            ),
            subscribe_num == 2 ==> r == ReturnCode::Success && final(self).applications@ == old(
                self,
            ).applications@.insert(
                appid,
                app_or_empty(old(self).applications@, appid).with_rx_callback(callback),
            ),
            subscribe_num == 0 || subscribe_num >= 3 ==> r == ReturnCode::ENoSupport
                && *final(self) == *old(self),
    {
        match subscribe_num {
            1 => {
                let mut app = self.applications.take_app(appid);
                app.tx_callback = callback;
                let ghost appv = app@;
                self.applications.put_app(appid, app);
                proof {
                    lemma_remove_insert(old(self).applications@, appid, appv);
                }
                ReturnCode::Success
            },
            2 => {
                let mut app = self.applications.take_app(appid);
                app.rx_callback = callback;
                let ghost appv = app@;
                self.applications.put_app(appid, app);
                proof {
                    lemma_remove_insert(old(self).applications@, appid, appv);
                }
                ReturnCode::Success
            },
            _ => ReturnCode::ENoSupport,
        }
    }

    /// Syscall: issue a command.
    ///
    /// - `0`: liveness probe; always succeeds, no effect.
    /// - `1`: start a transmit of `arg1` bytes from the registered
    ///   transmit region (see `transmit_new`).
    /// - `2`: start a receive (see `receive_new`; the length is fixed by
    ///   the staging buffer, so `arg1` is not consulted).
    /// - `3`: disable tag emulation when `arg1` is zero, enable it
    ///   otherwise; succeeds locally.
    /// - `4`: configure the emulated tag type from `arg1`; succeeds
    ///   locally.
    /// - anything else fails with `ENoSupport`.
    pub fn command(&mut self, command_num: usize, arg1: usize, appid: u32) -> (r: (
        ReturnCode,
        Option<HwAction>,
    ))
        requires
            old(self).wf(),
        ensures
            final(self).wf(),
            command_num == 0 ==> r.0 == ReturnCode::Success && r.1 is None && *final(self) == *old(
                self,
            ),
            command_num == 1 ==> {
                let m = old(self).applications@;
                let a0 = app_or_empty(m, appid);
                &&& final(self).driver_selected == old(self).driver_selected
                &&& final(self).rx_in_progress == old(self).rx_in_progress
                &&& final(self).rx_buffer == old(self).rx_buffer
                &&& !old(self).driver_selected ==> {
                    &&& r.0 == ReturnCode::EOff
                    &&& r.1 is None
                    &&& old(self).hw_eq(*final(self))
                    &&& final(self).applications@ == m.insert(appid, a0)
                }
                &&& old(self).driver_selected && a0.tx_region is None ==> {
                    &&& r.0 == ReturnCode::EBusy
                    &&& r.1 is None
                    &&& old(self).hw_eq(*final(self))
                    &&& final(self).applications@ == m.insert(appid, a0)
                }
                &&& old(self).driver_selected ==> (a0.tx_region matches Some(region) ==> {
                    &&& r.0 == ReturnCode::Success
                    &&& if old(self).tx_in_progress is None {
                        &&& final(self).tx_in_progress == Some(appid)
                        &&& final(self).tx_buffer is None
                        &&& final(self).applications@ == m.insert(appid, a0.with_tx_region(None))
                        &&& (r.1 matches Some(HwAction::TransmitBuffer(b, l)) && b@ == region
                            + old(self).tx_buffer->Some_0@.skip(region.len() as int) && l == arg1)
                    } else {
                        &&& old(self).hw_eq(*final(self))
                        &&& final(self).applications@ == m.insert(appid, a0)
                        &&& r.1 is None
                    }
                })
            },
            command_num == 2 ==> {
                let m = old(self).applications@;
                let a0 = app_or_empty(m, appid);
                &&& final(self).driver_selected == old(self).driver_selected
                &&& final(self).tx_in_progress == old(self).tx_in_progress
                &&& final(self).tx_buffer == old(self).tx_buffer
                &&& final(self).applications@ == m.insert(appid, a0)
                &&& !old(self).driver_selected ==> r.0 == ReturnCode::EOff && r.1 is None && old(
                    self,
                ).hw_eq(*final(self))
                &&& old(self).driver_selected && old(self).rx_buffer is None ==> r.0
                    == ReturnCode::EBusy && r.1 is None && old(self).hw_eq(*final(self))
                &&& old(self).driver_selected && old(self).rx_buffer is Some && a0.rx_region
                    is None ==> r.0 == ReturnCode::EInval && r.1 is None && old(self).hw_eq(
                    *final(self),
                )
                &&& old(self).driver_selected ==> (old(self).rx_buffer matches Some(hwb)
                    ==> a0.rx_region is Some ==> {
                    &&& r.0 == ReturnCode::Success
                    &&& final(self).rx_in_progress == Some(appid)
                    &&& final(self).rx_buffer is None
                    &&& (r.1 matches Some(HwAction::ReceiveBuffer(b)) && b@ == hwb@)
                })
            },
            command_num == 3 ==> r.0 == ReturnCode::Success && *final(self) == *old(self) && r.1
                == Some(
                if arg1 == 0 {
                    HwAction::Deactivate
                } else {
                    HwAction::Activate
                },
            ),
            command_num == 4 ==> r.0 == ReturnCode::Success && *final(self) == *old(self) && (r.1
                matches Some(HwAction::Configure(t)) && t == arg1 as u8),
            command_num >= 5 ==> r.0 == ReturnCode::ENoSupport && r.1 is None && *final(self)
                == *old(self),
    {
        match command_num {
            // liveness probe
            0 => (ReturnCode::Success, None),
            1 => {
                let mut app = self.applications.take_app(appid);
                let r = self.transmit_new(appid, &mut app, arg1);
                let ghost appv = app@;
                self.applications.put_app(appid, app);
                proof {
                    lemma_remove_insert(old(self).applications@, appid, appv);
                }
                r
            },
            2 => {
                let mut app = self.applications.take_app(appid);
                let r = self.receive_new(appid, &mut app, arg1);
                let ghost appv = app@;
                self.applications.put_app(appid, app);
                proof {
                    lemma_remove_insert(old(self).applications@, appid, appv);
                }
                r
            },
            // tag emulation on or off
            3 => {
                if arg1 == 0 {
                    (ReturnCode::Success, Some(HwAction::Deactivate))
                } else {
                    (ReturnCode::Success, Some(HwAction::Activate))
                }
            },
            // tag type configuration
            4 => {
                let tag_type = #[verifier::truncate] (arg1 as u8);
                (ReturnCode::Success, Some(HwAction::Configure(tag_type)))
            },
            _ => (ReturnCode::ENoSupport, None),
        }
    }
}

} // verus!

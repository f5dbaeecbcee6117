//! Terminal modes of a pane that are read from its output.
use crate::model::{Pane, PaneStatus};
use vstd::prelude::*;

verus! {

/// Where the scan of control sequences stands.
#[derive(Debug, Clone, Copy, PartialEq, Eq, Structural)]
pub enum TerminalModeScanState {
    Ground,
    Escape,
    Csi,
}

/// Follows the alternate scroll mode (DEC private mode 1007) through a pane's output.
#[derive(Debug)]
pub struct TerminalModeTracker {
    pub alternate_scroll: bool,
    pub state: TerminalModeScanState,
    pub csi: Vec<u8>,
}

/// What is known after some bytes.
#[verifier::ext_equal]
pub struct ModeModel {
    pub alternate_scroll: bool,
    pub state: TerminalModeScanState,
    pub csi: Seq<u8>,
}

/// The bytes of a sequence that are held at most.
pub const CSI_CAP: usize = 64;

/// The number `param` stands between semicolons, or at an end, in `list`.
pub open spec fn has_param(list: Seq<u8>, param: Seq<u8>) -> bool {
    exists|i: int| param_at(list, param, i)
}

/// The number `param` stands in `list` from `i` on, between semicolons or ends.
pub open spec fn param_at(list: Seq<u8>, param: Seq<u8>, i: int) -> bool {
    &&& 0 <= i
    &&& i + param.len() <= list.len()
    &&& list.subrange(i, i + param.len()) == param
    &&& i == 0 || list[i - 1] == 59
    &&& i + param.len() == list.len() || list[i + param.len()] == 59
}

/// The bytes of "1007".
pub open spec fn alternate_scroll_param() -> Seq<u8> {
    seq![49u8, 48u8, 48u8, 55u8]
}

/// The mode after a whole control sequence: set or reset by a private mode sequence that
/// names 1007, else as it was.
pub open spec fn mode_after(was: bool, csi: Seq<u8>, last: u8) -> bool {
    if (last == 104 || last == 108) && csi.len() > 0 && csi[0] == 63 && has_param(
        csi.skip(1),
        alternate_scroll_param(),
    ) {
        last == 104
    } else {
        was
    }
}

impl ModeModel {
    /// One byte more.
    pub open spec fn step(self, byte: u8) -> ModeModel {
        match self.state {
            TerminalModeScanState::Ground => if byte == 27 {
                ModeModel { state: TerminalModeScanState::Escape, ..self }
            } else {
                self
            },
            TerminalModeScanState::Escape => if byte == 91 {
                ModeModel { state: TerminalModeScanState::Csi, csi: Seq::empty(), ..self }
            } else if byte == 27 {
                self
            } else {
                ModeModel { state: TerminalModeScanState::Ground, ..self }
            },
            TerminalModeScanState::Csi => if 0x40 <= byte <= 0x7e {
                ModeModel {
                    alternate_scroll: mode_after(self.alternate_scroll, self.csi, byte),
                    state: TerminalModeScanState::Ground,
                    csi: Seq::empty(),
                }
            } else if byte == 27 {
                ModeModel { state: TerminalModeScanState::Escape, csi: Seq::empty(), ..self }
            } else if self.csi.len() < CSI_CAP {
                ModeModel { csi: self.csi.push(byte), ..self }
            } else {
                ModeModel { state: TerminalModeScanState::Ground, csi: Seq::empty(), ..self }
            },
        }
    }

    /// After all of `bytes`.
    pub open spec fn run(self, bytes: Seq<u8>) -> ModeModel
        decreases bytes.len(),
    {
        if bytes.len() == 0 {
            self
        } else {
            self.run(bytes.drop_last()).step(bytes.last())
        }
    }
}

impl View for TerminalModeTracker {
    type V = ModeModel;

    open spec fn view(&self) -> ModeModel {
        ModeModel { alternate_scroll: self.alternate_scroll, state: self.state, csi: self.csi@ }
    }
}

impl Default for TerminalModeTracker {
    fn default() -> (r: Self)
        ensures
            r@ == (ModeModel {
                alternate_scroll: false,
                state: TerminalModeScanState::Ground,
                csi: Seq::empty(),
            }),
    {
        TerminalModeTracker {
            alternate_scroll: false,
            state: TerminalModeScanState::Ground,
            csi: Vec::new(),
        }
    }
}

/// Whether 1007 is among the parameters that follow the first byte.
fn names_alternate_scroll(csi: &Vec<u8>) -> (r: bool)
    requires
        csi@.len() > 0,
    ensures
        r == has_param(csi@.skip(1), alternate_scroll_param()),
{
    let ghost list = csi@.skip(1);
    let ghost param = alternate_scroll_param();
    let mut i: usize = 1;
    while i < csi.len() && csi.len() - i >= 4
        invariant
            1 <= i <= csi.len(),
            list == csi@.skip(1),
            param == alternate_scroll_param(),
            forall|k: int| 0 <= k < i - 1 ==> !param_at(list, param, k),
        decreases csi.len() - i,
    {
        let starts = i == 1 || csi[i - 1] == 59;
        let holds = csi[i] == 49 && csi[i + 1] == 48 && csi[i + 2] == 48 && csi[i + 3] == 55;
        let ends = csi.len() - i == 4 || csi[i + 4] == 59;
        proof {
            let k = i - 1;
            let part = list.subrange(k, k + 4);
            assert(part[0] == csi@[i as int] && part[1] == csi@[i + 1] && part[2] == csi@[i + 2]
                && part[3] == csi@[i + 3]);
            if holds {
                assert(part =~= param);
            } else {
                assert(part != param) by {
                    if part == param {
                        assert(part[0] == 49 && part[1] == 48 && part[2] == 48 && part[3] == 55);
                    }
                }
            }
        }
        if starts && holds && ends {
            assert(param_at(list, param, i - 1));
            return true;
        }
        i += 1;
    }
    false
}

impl TerminalModeTracker {
    /// Reads `bytes`.
    pub fn process(&mut self, bytes: &[u8])
        ensures
            final(self)@ == old(self)@.run(bytes@),
    {
        let mut i: usize = 0;
        while i < bytes.len()
            invariant
                i <= bytes.len(),
                self@ == old(self)@.run(bytes@.take(i as int)),
            decreases bytes.len() - i,
        {
            self.process_byte(bytes[i]);
            i += 1;
            assert(bytes@.take(i as int).drop_last() =~= bytes@.take(i - 1));
        }
        assert(bytes@.take(i as int) =~= bytes@);
    }

    fn process_byte(&mut self, byte: u8)
        ensures
            final(self)@ == old(self)@.step(byte),
    {
        match self.state {
            TerminalModeScanState::Ground => {
                if byte == 27 {
                    self.state = TerminalModeScanState::Escape;
                }
            },
            TerminalModeScanState::Escape => {
                if byte == 91 {
                    self.csi.clear();
                    self.state = TerminalModeScanState::Csi;
                } else if byte != 27 {
                    self.state = TerminalModeScanState::Ground;
                }
            },
            TerminalModeScanState::Csi => {
                if 0x40 <= byte && byte <= 0x7e {
                    self.apply_csi(byte);
                    self.csi.clear();
                    self.state = TerminalModeScanState::Ground;
                } else if byte == 27 {
                    self.csi.clear();
                    self.state = TerminalModeScanState::Escape;
                } else if self.csi.len() < CSI_CAP {
                    self.csi.push(byte);
                } else {
                    self.csi.clear();
                    self.state = TerminalModeScanState::Ground;
                }
            },
        }
    }

    /// Applies the sequence that ends with `final_byte`.
    pub fn apply_csi(&mut self, final_byte: u8)
        ensures
            final(self)@ == (ModeModel {
                alternate_scroll: mode_after(old(self)@.alternate_scroll, old(self)@.csi, final_byte),
                ..old(self)@
            }),
    {
        if final_byte != 104 && final_byte != 108 {
            return;
        }
        if self.csi.len() == 0 || self.csi[0] != 63 {
            return;
        }
        if names_alternate_scroll(&self.csi) {
            self.alternate_scroll = final_byte == 104;
        }
    }
}

/// Bytes that come in two reads count as bytes that come in one.
pub proof fn split_reads_track_alike(m: ModeModel, a: Seq<u8>, b: Seq<u8>)
    ensures
        m.run(a + b) == m.run(a).run(b),
    decreases b.len(),
{
    if b.len() == 0 {
        assert(a + b =~= a);
    } else {
        split_reads_track_alike(m, a, b.drop_last());
        assert((a + b).drop_last() =~= a + b.drop_last());
    }
}

/// No more of a sequence is held than its cap, however long it runs.
pub proof fn held_sequence_is_bounded(m: ModeModel, bytes: Seq<u8>)
    requires
        m.csi.len() <= CSI_CAP,
    ensures
        m.run(bytes).csi.len() <= CSI_CAP,
    decreases bytes.len(),
{
    if bytes.len() > 0 {
        held_sequence_is_bounded(m, bytes.drop_last());
    }
}

/// Whether wheel movements are turned into arrow keys: the pane runs, the program asked
/// for it, and it is on the alternate screen.
pub fn alternate_scroll_on(
    status: &PaneStatus,
    modes: &TerminalModeTracker,
    alternate_screen: bool,
) -> (r: bool)
    ensures
        r == (*status == PaneStatus::Running && modes.alternate_scroll && alternate_screen),
{
    *status == PaneStatus::Running && modes.alternate_scroll && alternate_screen
}

/// What a program asked to be told of the mouse.
#[derive(Debug, Clone, Copy, PartialEq, Eq, Structural)]
pub enum MouseProtocolMode {
    Off,
    Press,
    PressRelease,
    ButtonMotion,
    AnyMotion,
}

/// How a program asked to be told of the mouse.
#[derive(Debug, Clone, Copy, PartialEq, Eq, Structural)]
pub enum MouseProtocolEncoding {
    Default,
    Utf8,
    Sgr,
}

/// The name of a mouse mode; none for no reports.
pub open spec fn mouse_mode_name(mode: MouseProtocolMode) -> Seq<char> {
    match mode {
        MouseProtocolMode::Off => ""@,
        MouseProtocolMode::Press => "press"@,
        MouseProtocolMode::PressRelease => "press-release"@,
        MouseProtocolMode::ButtonMotion => "button-motion"@,
        MouseProtocolMode::AnyMotion => "any-motion"@,
    }
}

/// The name of a mouse encoding; none for the default one.
pub open spec fn mouse_encoding_name(encoding: MouseProtocolEncoding) -> Seq<char> {
    match encoding {
        MouseProtocolEncoding::Default => ""@,
        MouseProtocolEncoding::Utf8 => "utf8"@,
        MouseProtocolEncoding::Sgr => "sgr"@,
    }
}

/// Notes in the pane what its program asked to be told of the mouse.
pub fn update_pane_terminal_modes(
    pane: &mut Pane,
    mode: MouseProtocolMode,
    encoding: MouseProtocolEncoding,
)
    ensures
        final(pane).mouse_protocol_mode@ == mouse_mode_name(mode),
        final(pane).mouse_protocol_encoding@ == mouse_encoding_name(encoding),
        *final(pane) == (Pane {
            mouse_protocol_mode: final(pane).mouse_protocol_mode,
            mouse_protocol_encoding: final(pane).mouse_protocol_encoding,
            ..*old(pane)
        }),
{
    pane.mouse_protocol_mode = match mode {
        MouseProtocolMode::Off => "".to_string(),
        MouseProtocolMode::Press => "press".to_string(),
        MouseProtocolMode::PressRelease => "press-release".to_string(),
        MouseProtocolMode::ButtonMotion => "button-motion".to_string(),
        MouseProtocolMode::AnyMotion => "any-motion".to_string(),
    };
    pane.mouse_protocol_encoding = match encoding {
        MouseProtocolEncoding::Default => "".to_string(),
        MouseProtocolEncoding::Utf8 => "utf8".to_string(),
        MouseProtocolEncoding::Sgr => "sgr".to_string(),
    };
}

/// The bytes that bring a fresh terminal to the modes of a live one, where the live one is
/// on the alternate screen or not, asks for `input_modes`, and hides its cursor or not.
pub fn mode_replay(alternate_screen: bool, input_modes: &[u8], hide_cursor: bool) -> (r: Vec<u8>)
    ensures
        r@ == (if alternate_screen {
            enter_alternate_screen()
        } else {
            Seq::empty()
        }) + input_modes@ + (if hide_cursor {
            hide_cursor_bytes()
        } else {
            Seq::empty()
        }),
{
    let mut r: Vec<u8> = Vec::new();
    if alternate_screen {
        // ESC [ ? 1 0 4 9 h
        r = vec![27, 91, 63, 49, 48, 52, 57, 104];
        assert(r@ =~= enter_alternate_screen());
    }
    let ghost head = r@;
    let mut i: usize = 0;
    while i < input_modes.len()
        invariant
            i <= input_modes.len(),
            r@ == head + input_modes@.take(i as int),
        decreases input_modes.len() - i,
    {
        r.push(input_modes[i]);
        i += 1;
        assert(input_modes@.take(i as int) =~= input_modes@.take(i - 1).push(input_modes@[i - 1]));
    }
    assert(input_modes@.take(i as int) =~= input_modes@);
    if hide_cursor {
        // ESC [ ? 2 5 l
        r.push(27);
        r.push(91);
        r.push(63);
        r.push(50);
        r.push(53);
        r.push(108);
        assert(r@ =~= head + input_modes@ + hide_cursor_bytes());
    }
    r
}

/// The sequence that switches to the alternate screen.
pub open spec fn enter_alternate_screen() -> Seq<u8> {
    seq![27u8, 91u8, 63u8, 49u8, 48u8, 52u8, 57u8, 104u8]
}

/// The sequence that hides the cursor.
pub open spec fn hide_cursor_bytes() -> Seq<u8> {
    seq![27u8, 91u8, 63u8, 50u8, 53u8, 108u8]
}

} // verus!

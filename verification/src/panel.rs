//! The server's control panel: what it shows for the server's state, what a
//! click does, and how its pixels reach the window surface.

use crate::capture::{decimal, decimal_string};
use vstd::prelude::*;

verus! {

/// Initial width of the panel window.
pub const PANEL_WIDTH: u32 = 540;

/// Initial height of the panel window.
pub const PANEL_HEIGHT: u32 = 420;

/// How long "Copiado!" stays on the copy button, in microseconds.
pub const COPIED_FEEDBACK_US: u64 = 2_000_000;

/// A snapshot of the server's state as the panel shows it.
pub struct ServerUiState {
    /// The machine's address on the local network.
    pub local_ip: String,
    pub video_port: u16,
    pub control_port: u16,
    /// Whether the virtual input devices could be created.
    pub uinput_active: bool,
    pub active_clients: u32,
    pub is_running: bool,
    /// Codec number of the current stream (0 = H.264).
    pub active_codec: u8,
}

/// The status line of the panel.
#[derive(Debug, Clone, Copy, PartialEq, Eq, Structural)]
pub enum PanelStatus {
    /// The server was stopped (red).
    Stopped,
    /// A client is being streamed to (blue).
    ClientConnected,
    /// Video works but input cannot be injected (amber).
    OnlineWithoutInput,
    /// Waiting for clients (green).
    Ready,
}

/// The status of a state: stopped first, then a connected client, then
/// missing input devices, else ready.
pub open spec fn panel_status_spec(running: bool, clients: u32, uinput_active: bool) -> PanelStatus {
    if !running {
        PanelStatus::Stopped
    } else if clients > 0 {
        PanelStatus::ClientConnected
    } else if !uinput_active {
        PanelStatus::OnlineWithoutInput
    } else {
        PanelStatus::Ready
    }
}

/// The status shown for `state`.
pub fn panel_status(state: &ServerUiState) -> (s: PanelStatus)
    ensures
        s == panel_status_spec(state.is_running, state.active_clients, state.uinput_active),
{
    if !state.is_running {
        PanelStatus::Stopped
    } else if state.active_clients > 0 {
        PanelStatus::ClientConnected
    } else if !state.uinput_active {
        PanelStatus::OnlineWithoutInput
    } else {
        PanelStatus::Ready
    }
}

/// Title of a status.
pub open spec fn status_title_spec(s: PanelStatus) -> Seq<char> {
    match s {
        PanelStatus::Stopped => "SERVIDOR ENCERRADO"@,
        PanelStatus::ClientConnected => "CLIENTE CONECTADO"@,
        PanelStatus::OnlineWithoutInput => "ONLINE (SEM CONTROLE DE INPUT)"@,
        PanelStatus::Ready => "ONLINE - PRONTO PARA CONEXÕES"@,
    }
}

/// Description of a status.
pub open spec fn status_description_spec(s: PanelStatus) -> Seq<char> {
    match s {
        PanelStatus::Stopped => "O serviço de compartilhamento foi interrompido."@,
        PanelStatus::ClientConnected => "Transmitindo tela em tempo real com baixa latência."@,
        PanelStatus::OnlineWithoutInput => "Vídeo ativo, mas /dev/uinput requer permissão de escrita."@,
        PanelStatus::Ready => "O servidor está escutando na rede local e pronto."@,
    }
}

/// Colour of a status indicator, as red, green, blue.
pub open spec fn status_rgb_spec(s: PanelStatus) -> (u8, u8, u8) {
    match s {
        PanelStatus::Stopped => (239, 68, 68),
        PanelStatus::ClientConnected => (59, 130, 246),
        PanelStatus::OnlineWithoutInput => (245, 158, 11),
        PanelStatus::Ready => (16, 185, 129),
    }
}

impl PanelStatus {
    /// The status title.
    pub fn title(&self) -> (t: &'static str)
        ensures
            t@ == status_title_spec(*self),
    {
        match self {
            PanelStatus::Stopped => "SERVIDOR ENCERRADO",
            PanelStatus::ClientConnected => "CLIENTE CONECTADO",
            PanelStatus::OnlineWithoutInput => "ONLINE (SEM CONTROLE DE INPUT)",
            PanelStatus::Ready => "ONLINE - PRONTO PARA CONEXÕES",
        }
    }

    /// The status description.
    pub fn description(&self) -> (t: &'static str)
        ensures
            t@ == status_description_spec(*self),
    {
        match self {
            PanelStatus::Stopped => "O serviço de compartilhamento foi interrompido.",
            PanelStatus::ClientConnected => "Transmitindo tela em tempo real com baixa latência.",
            PanelStatus::OnlineWithoutInput => "Vídeo ativo, mas /dev/uinput requer permissão de escrita.",
            PanelStatus::Ready => "O servidor está escutando na rede local e pronto.",
        }
    }

    /// The indicator colour; its halo is the same colour at alpha 50.
    pub fn rgb(&self) -> (c: (u8, u8, u8))
        ensures
            c == status_rgb_spec(*self),
    {
        match self {
            PanelStatus::Stopped => (239, 68, 68),
            PanelStatus::ClientConnected => (59, 130, 246),
            PanelStatus::OnlineWithoutInput => (245, 158, 11),
            PanelStatus::Ready => (16, 185, 129),
        }
    }
}

/// Name of a codec number on the panel.
pub open spec fn codec_label_spec(codec: u8) -> Seq<char> {
    if codec == 0 {
        "H.264 (AVC)"@
    } else {
        "HEVC (H.265)"@
    }
}

/// Name of the current codec.
pub fn codec_label(codec: u8) -> (t: &'static str)
    ensures
        t@ == codec_label_spec(codec),
{
    if codec == 0 {
        "H.264 (AVC)"
    } else {
        "HEVC (H.265)"
    }
}

/// The ports line.
pub open spec fn ports_text_spec(video: u16, control: u16) -> Seq<char> {
    decimal(video as nat) + " (Vídeo UDP)  /  "@ + decimal(control as nat) + " (Controle TCP)"@
}

/// The ports line, e.g. `5000 (Vídeo UDP)  /  5001 (Controle TCP)`.
pub fn ports_text(video: u16, control: u16) -> (t: String)
    ensures
        t@ == ports_text_spec(video, control),
{
    let s = decimal_string(video as u32).concat(" (Vídeo UDP)  /  ");
    let c = decimal_string(control as u32);
    s.concat(c.as_str()).concat(" (Controle TCP)")
}

/// The session line.
pub open spec fn session_text_spec(clients: u32, codec: u8) -> Seq<char> {
    decimal(clients as nat) + " cliente(s) ativo(s)  •  Codec: "@ + codec_label_spec(codec)
}

/// The session line, e.g. `1 cliente(s) ativo(s)  •  Codec: HEVC (H.265)`.
pub fn session_text(clients: u32, codec: u8) -> (t: String)
    ensures
        t@ == session_text_spec(clients, codec),
{
    decimal_string(clients).concat(" cliente(s) ativo(s)  •  Codec: ").concat(codec_label(codec))
}

/// The remote-control line and its colour.
pub fn uinput_line(active: bool) -> (r: (&'static str, (u8, u8, u8)))
    ensures
        active ==> r.0@ == "Habilitado (/dev/uinput pronto)"@ && r.1 == (52u8, 211u8, 153u8),
        !active ==> r.0@ == "Desabilitado (Requer permissão)"@ && r.1 == (248u8, 113u8, 113u8),
{
    if active {
        ("Habilitado (/dev/uinput pronto)", (52, 211, 153))
    } else {
        ("Desabilitado (Requer permissão)", (248, 113, 113))
    }
}

/// Whether the copy feedback is still showing at `now`.
pub fn is_copied(copied_until: Option<u64>, now: u64) -> (r: bool)
    ensures
        r == match copied_until {
            Some(t) => now < t,
            None => false,
        },
{
    match copied_until {
        Some(t) => now < t,
        None => false,
    }
}

/// When the copy feedback of a click at `now` ends.
pub fn copied_until_after_click(now: u64) -> (t: u64)
    ensures
        t == if now <= u64::MAX - COPIED_FEEDBACK_US {
            now + COPIED_FEEDBACK_US
        } else {
            u64::MAX as int
        },
{
    now.saturating_add(COPIED_FEEDBACK_US)
}

/// The copy button's label and colour: "Copiado!" in green while the
/// feedback shows, otherwise "Copiar IP", blue under the pointer.
pub fn copy_button(copied: bool, hover: bool) -> (r: (&'static str, (u8, u8, u8)))
    ensures
        copied ==> r.0@ == "Copiado!"@ && r.1 == (16u8, 185u8, 129u8),
        !copied && hover ==> r.0@ == "Copiar IP"@ && r.1 == (37u8, 99u8, 235u8),
        !copied && !hover ==> r.0@ == "Copiar IP"@ && r.1 == (30u8, 41u8, 59u8),
{
    if copied {
        ("Copiado!", (16, 185, 129))
    } else if hover {
        ("Copiar IP", (37, 99, 235))
    } else {
        ("Copiar IP", (30, 41, 59))
    }
}

/// The stop button's colour, brighter under the pointer.
pub fn stop_button_rgb(hover: bool) -> (c: (u8, u8, u8))
    ensures
        c == if hover {
            (220u8, 38u8, 38u8)
        } else {
            (185u8, 28u8, 28u8)
        },
{
    if hover {
        (220, 38, 38)
    } else {
        (185, 28, 28)
    }
}

/// What a left click on the panel does.
#[derive(Debug, Clone, Copy, PartialEq, Eq, Structural)]
pub enum PanelClick {
    /// Copy the address to the clipboard and show the feedback.
    CopyAddress,
    /// Stop the server and close the panel.
    StopServer,
    /// Nothing.
    Nothing,
}

/// What a left click does, given whether it is on the copy button and on
/// the stop button (the copy button first).
pub fn panel_click(on_copy: bool, on_stop: bool) -> (c: PanelClick)
    ensures
        c == if on_copy {
            PanelClick::CopyAddress
        } else if on_stop {
            PanelClick::StopServer
        } else {
            PanelClick::Nothing
        },
{
    if on_copy {
        PanelClick::CopyAddress
    } else if on_stop {
        PanelClick::StopServer
    } else {
        PanelClick::Nothing
    }
}

/// The surface pixel of an RGBA pixel: `0x00RRGGBB`.
pub open spec fn xrgb(r: u8, g: u8, b: u8) -> u32 {
    (r * 65536 + g * 256 + b) as u32
}

/// The surface pixels for the RGBA bytes `rgba`, for a surface of
/// `surface_len` pixels: one per whole pixel of `rgba`, as many as both
/// hold.
pub open spec fn surface_pixels(rgba: Seq<u8>, surface_len: nat) -> Seq<u32> {
    let len = rgba.len();
    let n = if len / 4 <= surface_len {
        len / 4
    } else {
        surface_len
    };
    Seq::new(n, |i: int| xrgb(rgba[4 * i], rgba[4 * i + 1], rgba[4 * i + 2]))
}

/// Converts RGBA bytes to the surface's `0x00RRGGBB` pixels (alpha is
/// dropped).
pub fn rgba_to_surface(rgba: &[u8], surface_len: usize) -> (out: Vec<u32>)
    ensures
        out@ == surface_pixels(rgba@, surface_len as nat),
{
    let len = rgba.len();
    let n = if len / 4 <= surface_len {
        len / 4
    } else {
        surface_len
    };
    let mut out: Vec<u32> = Vec::new();
    let mut i: usize = 0;
    while i < n
        invariant
            i <= n,
            len == rgba@.len(),
            n <= rgba@.len() / 4,
            n == if rgba@.len() / 4 <= surface_len {
                rgba@.len() / 4
            } else {
                surface_len as nat
            },
            out@.len() == i,
            forall|k: int|
                0 <= k < i ==> out@[k] == xrgb(rgba@[4 * k], rgba@[4 * k + 1], rgba@[4 * k + 2]),
        decreases n - i,
    {
        assert(4 * i + 3 < rgba@.len()) by (nonlinear_arith)
            requires
                i < rgba@.len() / 4,
        ;
        let r = rgba[4 * i] as u32;
        let g = rgba[4 * i + 1] as u32;
        let b = rgba[4 * i + 2] as u32;
        let px = (r << 16) | (g << 8) | b;
        assert(px == r * 65536 + g * 256 + b) by (bit_vector)
            requires
                px == (r << 16) | (g << 8) | b,
                r < 256,
                g < 256,
                b < 256,
        ;
        out.push(px);
        i = i + 1;
    }
    assert(out@ =~= surface_pixels(rgba@, surface_len as nat));
    out
}

/// Law: the panel's status line. A stopped server shows "stopped" whatever
/// else holds; a running one with at least one client shows the connected
/// client even without input devices; a running one without clients shows
/// that input is missing when the devices could not be created, and ready
/// otherwise. Codec number 0 is labelled H.264, any other HEVC.
pub proof fn law_panel_status(running: bool, clients: u32, uinput_active: bool, codec: u8)
    ensures
        !running ==> panel_status_spec(running, clients, uinput_active) == PanelStatus::Stopped,
        running && clients >= 1 ==> panel_status_spec(running, clients, uinput_active)
            == PanelStatus::ClientConnected,
        running && clients == 0 && !uinput_active ==> panel_status_spec(
            running,
            clients,
            uinput_active,
        ) == PanelStatus::OnlineWithoutInput,
        running && clients == 0 && uinput_active ==> panel_status_spec(
            running,
            clients,
            uinput_active,
        ) == PanelStatus::Ready,
        codec == 0 ==> codec_label_spec(codec) == "H.264 (AVC)"@,
        codec != 0 ==> codec_label_spec(codec) == "HEVC (H.265)"@,
{
}

} // verus!

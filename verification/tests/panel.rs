use screen_share::panel::{
    codec_label, copied_until_after_click, copy_button, is_copied, panel_click, panel_status,
    ports_text, rgba_to_surface, session_text, stop_button_rgb, uinput_line, PanelClick,
    PanelStatus, ServerUiState,
};

fn state(running: bool, clients: u32, uinput: bool) -> ServerUiState {
    ServerUiState {
        local_ip: "192.168.0.10".to_string(),
        video_port: 5000,
        control_port: 5001,
        uinput_active: uinput,
        active_clients: clients,
        is_running: running,
        active_codec: 1,
    }
}

#[test]
fn status_precedence() {
    assert_eq!(panel_status(&state(false, 3, false)), PanelStatus::Stopped);
    assert_eq!(panel_status(&state(true, 1, false)), PanelStatus::ClientConnected);
    assert_eq!(panel_status(&state(true, 0, false)), PanelStatus::OnlineWithoutInput);
    assert_eq!(panel_status(&state(true, 0, true)), PanelStatus::Ready);
    assert_eq!(PanelStatus::Ready.title(), "ONLINE - PRONTO PARA CONEXÕES");
    assert_eq!(PanelStatus::Stopped.rgb(), (239, 68, 68));
}

#[test]
fn panel_lines() {
    assert_eq!(ports_text(5000, 5001), "5000 (Vídeo UDP)  /  5001 (Controle TCP)");
    assert_eq!(session_text(2, 0), "2 cliente(s) ativo(s)  •  Codec: H.264 (AVC)");
    assert_eq!(codec_label(1), "HEVC (H.265)");
    assert_eq!(uinput_line(false).0, "Desabilitado (Requer permissão)");
}

#[test]
fn buttons_and_clicks() {
    assert_eq!(copy_button(true, true).0, "Copiado!");
    assert_eq!(copy_button(false, true).1, (37, 99, 235));
    assert_eq!(stop_button_rgb(true), (220, 38, 38));
    assert_eq!(panel_click(true, true), PanelClick::CopyAddress);
    assert_eq!(panel_click(false, true), PanelClick::StopServer);
    assert_eq!(panel_click(false, false), PanelClick::Nothing);
    let until = copied_until_after_click(1_000);
    assert_eq!(until, 2_001_000);
    assert!(is_copied(Some(until), 2_000_999));
    assert!(!is_copied(Some(until), 2_001_000));
    assert!(!is_copied(None, 0));
    assert_eq!(copied_until_after_click(u64::MAX - 1), u64::MAX);
}

#[test]
fn surface_pixels_drop_alpha() {
    let rgba = [1, 2, 3, 255, 0x10, 0x20, 0x30, 0, 9];
    assert_eq!(rgba_to_surface(&rgba, 10), vec![0x010203, 0x102030]);
    assert_eq!(rgba_to_surface(&rgba, 1), vec![0x010203]);
}

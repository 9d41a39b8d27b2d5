use inkview::c_api::PANEL_ENABLED;
use inkview::c_api::PANEL_EVENT_NO_HANDLING;
use inkview::c_api::PANEL_NO_FB_OFFSET;
use inkview::Color;
use inkview::Event;
use inkview::PanelType;

#[test]
fn color_rgb_packs_channels() {
    assert_eq!(Color::rgb(0x12, 0x34, 0x56).0, 0x123456);
    assert_eq!(Color::rgb(0xFF, 0xFF, 0xFF).0, 0xFFFFFF);
    assert_eq!(Color::rgb(0, 0, 0).0, 0);
    assert_eq!(Color::rgb(0xFF, 0, 0).0, 0xFF0000);
    assert_eq!(Color::rgb(0, 0xFF, 0).0, 0x00FF00);
    assert_eq!(Color::rgb(0, 0, 0xFF).0, 0x0000FF);
}

#[test]
fn color_gs_repeats_intensity() {
    assert_eq!(Color::gs(0xAB).0, 0xABABAB);
    assert_eq!(Color::gs(0).0, 0);
    assert_eq!(Color::gs(0xFF).0, 0xFFFFFF);
}

#[test]
fn color_palette() {
    assert_eq!(Color::white().0, 0xFFFFFF);
    assert_eq!(Color::lgray().0, 0xAAAAAA);
    assert_eq!(Color::dgray().0, 0x555555);
    assert_eq!(Color::black().0, 0);
}

fn all_events() -> Vec<Event> {
    vec![
        Event::INIT,
        Event::EXIT,
        Event::SHOW,
        Event::HIDE,
        Event::KEYPRESS,
        Event::KEYRELEASE,
        Event::KEYREPEAT,
        Event::POINTERUP,
        Event::POINTERDOWN,
        Event::POINTERMOVE,
        Event::POINTERLONG,
        Event::POINTERHOLD,
        Event::POINTERDRAG,
        Event::POINTERCANCEL,
        Event::MTSYNC,
        Event::TAB,
        Event::PANEL,
        Event::PANEL_ICON,
        Event::PANEL_TEXT,
        Event::PANEL_PROGRESS,
        Event::PANEL_MPLAYER,
        Event::PANEL_USBDRIVE,
        Event::PANEL_NETWORK,
        Event::PANEL_CLOCK,
        Event::PANEL_BLUETOOTH,
        Event::PANEL_TASKLIST,
        Event::PANEL_OBREEY_SYNC,
        Event::PANEL_SETREADINGMODE,
        Event::PANEL_SETREADINGMODE_INVERT,
    ]
}

#[test]
fn event_code_round_trip_for_every_variant() {
    for e in all_events() {
        assert_eq!(Event::from_code(e.code()), Some(e));
    }
}

#[test]
fn event_codes_are_distinct() {
    let events = all_events();
    for (i, a) in events.iter().enumerate() {
        for (j, b) in events.iter().enumerate() {
            if i != j {
                assert_ne!(a.code(), b.code());
            }
        }
    }
}

#[test]
fn event_unknown_codes_yield_none() {
    for code in [0, 1, 27, 33, 118, 133, 999, -1, i32::MIN, i32::MAX] {
        assert_eq!(Event::from_code(code), None);
    }
}

#[test]
fn event_kind_predicates() {
    assert!(Event::KEYPRESS.is_key());
    assert!(Event::KEYRELEASE.is_key());
    assert!(Event::KEYREPEAT.is_key());
    assert!(!Event::SHOW.is_key());
    assert!(!Event::POINTERUP.is_key());

    assert!(Event::POINTERUP.is_pointer());
    assert!(Event::POINTERDOWN.is_pointer());
    assert!(Event::MTSYNC.is_pointer());
    assert!(Event::POINTERCANCEL.is_pointer());
    assert!(!Event::KEYPRESS.is_pointer());
    assert!(!Event::PANEL.is_pointer());

    assert!(Event::TAB.is_panel());
    assert!(Event::PANEL.is_panel());
    assert!(Event::PANEL_SETREADINGMODE_INVERT.is_panel());
    assert!(!Event::EXIT.is_panel());
    assert!(!Event::MTSYNC.is_panel());
}

#[test]
fn panel_type_accepts_known_flag_values() {
    let mask = PANEL_ENABLED | PANEL_EVENT_NO_HANDLING | PANEL_NO_FB_OFFSET;
    assert_eq!(mask, 7);
    for v in 0..=mask as i32 {
        assert_eq!(PanelType::try_from(v), Ok(PanelType(v as u32)));
    }
}

#[test]
fn panel_type_rejects_out_of_range_values() {
    for v in [8, 9, 100, i32::MAX, -1, -7, i32::MIN] {
        assert_eq!(PanelType::try_from(v), Err("Invalid panel type value"));
    }
}

use aura_accent_sync::app::ControlMsg;
use aura_accent_sync::color::{Color, ColorError};
use aura_accent_sync::env::{validate_asusctl_connection, StartupError};
use aura_accent_sync::env_check::{validate_openrgb_connection, ServerProbe};
use aura_accent_sync::executor::ToolExit;
use aura_accent_sync::installer::generate_service_content;
use aura_accent_sync::kde::parse_rgb_list;
use aura_accent_sync::portal::{classify_change, ChangeEvent};
use aura_accent_sync::tray::{latest_color, tint_pixels};

fn rgb(r: u8, g: u8, b: u8) -> Color {
    Color { r, g, b }
}

#[test]
fn daemon_starts_only_when_the_tool_runs() {
    assert_eq!(aura_accent_sync::env::validate_dependencies(ToolExit::Status(0)), Ok(()));
    assert_eq!(
        aura_accent_sync::env::validate_dependencies(ToolExit::Status(1)),
        Err(StartupError::ToolFailed(1))
    );
    assert_eq!(
        aura_accent_sync::env::validate_dependencies(ToolExit::Status(-9)),
        Err(StartupError::ToolFailed(-9))
    );
    assert_eq!(
        aura_accent_sync::env::validate_dependencies(ToolExit::NotStarted),
        Err(StartupError::ToolNotStarted)
    );
    assert_eq!(validate_asusctl_connection(ToolExit::Status(0)), Ok(()));
    assert_eq!(
        validate_asusctl_connection(ToolExit::NotStarted),
        Err(StartupError::ToolNotStarted)
    );
}

#[test]
fn daemon_starts_only_when_the_server_answers() {
    let validate = aura_accent_sync::env_check::validate_dependencies;
    assert_eq!(validate(ServerProbe::Counted(0)), Ok(()));
    assert_eq!(validate(ServerProbe::Counted(3)), Ok(()));
    assert_eq!(validate(ServerProbe::InvalidAddress), Err(StartupError::InvalidAddress));
    assert_eq!(validate(ServerProbe::Refused), Err(StartupError::ServerUnreachable));
    assert_eq!(validate(ServerProbe::CountFailed), Err(StartupError::QueryFailed));
    assert_eq!(validate_openrgb_connection(ServerProbe::Counted(1)), Ok(()));
    assert_eq!(
        validate_openrgb_connection(ServerProbe::Refused),
        Err(StartupError::ServerUnreachable)
    );
}

#[test]
fn startup_errors_name_the_program_to_look_after() {
    assert_eq!(StartupError::ToolNotStarted.advice(), "Ensure asusctl is installed and running.");
    assert_eq!(StartupError::ToolFailed(2).advice(), "Ensure asusctl is installed and running.");
    for e in [
        StartupError::InvalidAddress,
        StartupError::ServerUnreachable,
        StartupError::QueryFailed,
    ] {
        assert_eq!(e.advice(), "Ensure OpenRGB is running and the SDK Server is enabled.");
    }
}

#[test]
fn accent_color_changes_become_requests() {
    let c = rgb(61, 174, 233);
    let ns = "org.freedesktop.appearance";
    assert_eq!(classify_change(ns, "accent-color", Some(c)), Some(ChangeEvent::ExactColor(c)));
    assert_eq!(classify_change(ns, "accent-color", None), Some(ChangeEvent::ReReadHint));
    assert_eq!(ChangeEvent::ExactColor(c).into_message(), ControlMsg::UpdateColor(c));
    assert_eq!(ChangeEvent::ReReadHint.into_message(), ControlMsg::TriggerSync);
}

#[test]
fn other_settings_are_passed_over() {
    let c = rgb(61, 174, 233);
    let ns = "org.freedesktop.appearance";
    assert_eq!(classify_change(ns, "color-scheme", Some(c)), None);
    assert_eq!(classify_change(ns, "accent-colo", None), None);
    assert_eq!(classify_change(ns, "accent-color ", None), None);
    assert_eq!(classify_change(ns, "Accent-Color", None), None);
    assert_eq!(classify_change("org.gnome.desktop.interface", "accent-color", Some(c)), None);
    assert_eq!(classify_change("", "", None), None);
}

#[test]
fn display_shows_the_newest_color_only() {
    assert_eq!(latest_color(&vec![]), None);
    assert_eq!(latest_color(&vec![rgb(1, 1, 1)]), Some(rgb(1, 1, 1)));
    assert_eq!(latest_color(&vec![rgb(1, 1, 1), rgb(2, 2, 2), rgb(3, 3, 3)]), Some(rgb(3, 3, 3)));
}

#[test]
fn tinting_keeps_the_opacity_of_each_pixel() {
    let c = rgb(10, 20, 30);
    assert_eq!(tint_pixels(&[], c), Vec::<u8>::new());
    assert_eq!(tint_pixels(&[1, 2, 3, 4], c), vec![10, 20, 30, 4]);
    assert_eq!(
        tint_pixels(&[0, 0, 0, 0, 255, 255, 255, 255, 9, 9, 9, 128], c),
        vec![10, 20, 30, 0, 10, 20, 30, 255, 10, 20, 30, 128]
    );
    // Bytes after the last whole pixel are dropped.
    assert_eq!(tint_pixels(&[1, 2, 3], c), Vec::<u8>::new());
    assert_eq!(tint_pixels(&[1, 2, 3, 4, 5, 6, 7], c), vec![10, 20, 30, 4]);
}

#[test]
fn service_unit_holds_the_command_line() {
    let unit = generate_service_content("/usr/bin/aura-accent-sync");
    assert_eq!(
        unit,
        "[Unit]\nDescription=Aura XDG Accent Color Sync\n\
         After=graphical-session.target\n\
         PartOf=graphical-session.target\n\n\
         [Service]\nExecStart=/usr/bin/aura-accent-sync\nRestart=always\nRestartSec=5\n\
         Environment=XDG_DATA_DIRS=%h/.local/share:/usr/local/share:/usr/share\n\n\
         [Install]\nWantedBy=graphical-session.target"
    );
    let empty = generate_service_content("");
    assert!(empty.contains("\nExecStart=\nRestart=always\n"));
}

#[test]
fn reads_a_list_of_decimal_numbers() {
    assert_eq!(parse_rgb_list("61,174,233"), Ok(rgb(61, 174, 233)));
    assert_eq!(parse_rgb_list("0,0,0"), Ok(rgb(0, 0, 0)));
    assert_eq!(parse_rgb_list("255,255,255"), Ok(rgb(255, 255, 255)));
    assert_eq!(parse_rgb_list("+1,007,0000255"), Ok(rgb(1, 7, 255)));
    assert_eq!(parse_rgb_list("1,2,3,4"), Ok(rgb(1, 2, 3)));
    assert_eq!(parse_rgb_list("1,2,3,"), Ok(rgb(1, 2, 3)));
    assert_eq!(parse_rgb_list("1,2,3,x"), Ok(rgb(1, 2, 3)));
}

#[test]
fn rejects_lists_that_are_no_color() {
    for text in [
        "", ",", ",,", "1", "1,2", "1,2,", "1,,3", ",2,3", "256,0,0", "0,0,256", "0,1000,0",
        "1, 2, 3", " 1,2,3", "1,2,3 ", "-1,2,3", "-0,2,3", "++1,2,3", "+,2,3", "1.0,2,3",
        "a,b,c", "0x1,2,3", "1;2;3", "99999999999999999999999999,2,3",
        "\u{661},2,3",
    ] {
        assert_eq!(parse_rgb_list(text), Err(ColorError::InvalidFormat), "{:?}", text);
    }
}

#[test]
fn decimal_list_agrees_with_std_parsing() {
    let by_std = |raw: &str| -> Option<Color> {
        let parts: Vec<Result<u8, _>> = raw.split(',').take(3).map(|s| s.parse::<u8>()).collect();
        if parts.len() < 3 || parts.iter().any(|p| p.is_err()) {
            return None;
        }
        Some(rgb(*parts[0].as_ref().unwrap(), *parts[1].as_ref().unwrap(), *parts[2].as_ref().unwrap()))
    };
    let fields = ["", "0", "7", "+7", "-7", "07", "255", "256", "2 5", "+", "x", "300", "0255"];
    for a in fields {
        for b in fields {
            for c in fields {
                let text = format!("{},{},{}", a, b, c);
                assert_eq!(parse_rgb_list(&text).ok(), by_std(&text), "{:?}", text);
                let short = format!("{},{}", a, b);
                assert_eq!(parse_rgb_list(&short).ok(), by_std(&short), "{:?}", short);
                let long = format!("{},{},{},{}", a, b, c, a);
                assert_eq!(parse_rgb_list(&long).ok(), by_std(&long), "{:?}", long);
            }
        }
    }
}

use wsl_core::autostart::{
    dashboard_autostart_command, dashboard_vbs_content, get_dashboard_vbs_path, get_vbs_path,
    has_autostart_line, update_autostart_content,
};
use wsl_core::config_text::{
    build_read_conf_args, build_write_conf_args, format_global_config, format_wsl_conf,
    parse_global_config, parse_wsl_conf, validate_check_update, validate_log_days,
    GlobalWslConfig,
};
use wsl_core::dispatcher::RefreshDispatcher;
use wsl_core::info::{find_install_location, format_utc_offset};
use wsl_core::models::{WslConf, WslRegInfo, WslStatus, WslVersion};
use wsl_core::ordering::sort_distros_by_name;
use wsl_core::parser::parse_distros_list;
use wsl_core::winstyle::{set_skip_taskbar, set_window_opacity};

#[test]
fn listing_rows_parse_into_the_cache_entries() {
    let listing = "  NAME            STATE           VERSION\n\
                   * Ubuntu          Running         2\n\
                     Debian          Stopped         1\n\
                   \n";
    let distros = parse_distros_list(listing);
    assert_eq!(distros.len(), 2);
    assert_eq!(distros[0].name, "Ubuntu");
    assert_eq!(distros[0].status, WslStatus::Running);
    assert_eq!(distros[0].version, WslVersion::V2);
    assert!(distros[0].is_default);
    assert_eq!(distros[1].name, "Debian");
    assert_eq!(distros[1].status, WslStatus::Stopped);
    assert_eq!(distros[1].version, WslVersion::V1);
    assert!(!distros[1].is_default);
}

#[test]
fn listing_with_windows_line_endings_parses_too() {
    let listing = "  NAME   STATE     VERSION\r\n* Alpine Running   2\r\n";
    let distros = parse_distros_list(listing);
    assert_eq!(distros.len(), 1);
    assert_eq!(distros[0].name, "Alpine");
    assert!(distros[0].is_default);
}

#[test]
fn empty_listing_yields_an_empty_cache() {
    assert!(parse_distros_list("").is_empty());
    assert!(parse_distros_list("  NAME   STATE   VERSION\n").is_empty());
}

#[test]
fn wsl_conf_parsing_takes_defaults_for_missing_keys() {
    let c = parse_wsl_conf("");
    assert!(!c.systemd);
    assert!(c.generate_hosts);
    assert!(c.generate_resolv_conf);
    assert!(c.interop_enabled);
    assert!(c.append_windows_path);
}

#[test]
fn wsl_conf_parsing_reads_values_and_skips_comments() {
    let text = "[boot]\n# a comment\nsystemd = true\n\n[network]\ngenerateHosts=false\n\
                generateResolvConf = false\n[interop]\nenabled=false\nappendWindowsPath=true\n";
    let c = parse_wsl_conf(text);
    assert!(c.systemd);
    assert!(!c.generate_hosts);
    assert!(!c.generate_resolv_conf);
    assert!(!c.interop_enabled);
    assert!(c.append_windows_path);
}

#[test]
fn wsl_conf_round_trips_through_its_own_renderer() {
    let c = WslConf {
        systemd: true,
        generate_hosts: false,
        generate_resolv_conf: true,
        interop_enabled: false,
        append_windows_path: false,
    };
    let text = format_wsl_conf(&c);
    assert_eq!(parse_wsl_conf(&text), c);
}

#[test]
fn wsl_conf_renderer_emits_the_fixed_template() {
    let c = parse_wsl_conf("");
    let text = format_wsl_conf(&c);
    assert_eq!(
        text,
        "[boot]\nsystemd=false\n\n[network]\ngenerateHosts=true\ngenerateResolvConf=true\n\n[interop]\nenabled=true\nappendWindowsPath=true\n"
    );
}

#[test]
fn conf_command_vectors_name_the_distribution() {
    let read = build_read_conf_args("Ubuntu");
    assert_eq!(read, vec!["-d", "Ubuntu", "-u", "root", "--", "cat", "/etc/wsl.conf"]);
    let c = parse_wsl_conf("");
    let write = build_write_conf_args("Ubuntu", &c);
    assert_eq!(write.len(), 8);
    assert_eq!(write[5], "sh");
    assert_eq!(write[6], "-c");
    assert!(write[7].starts_with("printf '[boot]"));
    assert!(write[7].ends_with("' > /etc/wsl.conf"));
}

#[test]
fn global_config_parses_set_keys_and_round_trips() {
    let text = "[wsl2]\nmemory=8GB\nprocessors = 4\n# note\nnetworkingMode=mirrored\n";
    let c = parse_global_config(text);
    assert_eq!(c.memory, "8GB");
    assert_eq!(c.processors, "4");
    assert_eq!(c.networking_mode, "mirrored");
    assert_eq!(c.swap, "");
    let rendered = format_global_config(&c);
    assert_eq!(rendered, "[wsl2]\nmemory=8GB\nprocessors=4\nnetworkingMode=mirrored");
    let reparsed = parse_global_config(&rendered);
    assert_eq!(reparsed.memory, "8GB");
    assert_eq!(reparsed.swap, "");
}

#[test]
fn global_config_of_nothing_is_just_the_section_header() {
    let c = GlobalWslConfig::default();
    assert_eq!(format_global_config(&c), "[wsl2]");
}

#[test]
fn autostart_paths_join_the_startup_directory() {
    let base = "C:\\Users\\u\\Start Menu\\Programs\\Startup";
    assert_eq!(
        get_vbs_path(base),
        "C:\\Users\\u\\Start Menu\\Programs\\Startup\\wsl-dashboard.vbs"
    );
    assert_eq!(
        get_dashboard_vbs_path(base),
        "C:\\Users\\u\\Start Menu\\Programs\\Startup\\dashboard-autostart.vbs"
    );
}

#[test]
fn enabling_autostart_appends_one_line_under_the_header() {
    let updated = update_autostart_content(None, "Ubuntu", true);
    assert_eq!(
        updated,
        "Set ws = WScript.CreateObject(\"WScript.Shell\")\r\n\
         ws.run \"wsl -d Ubuntu -u root /etc/init.wsl-dashboard start\", vbhide"
    );
    // Enabling again changes nothing.
    assert_eq!(update_autostart_content(Some(&updated), "Ubuntu", true), updated);
    assert!(has_autostart_line(&updated, "Ubuntu"));
    assert!(!has_autostart_line(&updated, "Debian"));
}

#[test]
fn disabling_autostart_removes_exactly_that_line() {
    let both = update_autostart_content(
        Some(&update_autostart_content(None, "Ubuntu", true)),
        "Debian",
        true,
    );
    assert!(has_autostart_line(&both, "Ubuntu"));
    assert!(has_autostart_line(&both, "Debian"));
    let without_ubuntu = update_autostart_content(Some(&both), "Ubuntu", false);
    assert!(!has_autostart_line(&without_ubuntu, "Ubuntu"));
    assert!(has_autostart_line(&without_ubuntu, "Debian"));
}

#[test]
fn a_headerless_file_gets_the_header_inserted_first() {
    let stray = "ws.run \"wsl -d Old -u root /etc/init.wsl-dashboard start\", vbhide\n";
    let updated = update_autostart_content(Some(stray), "Ubuntu", true);
    assert!(updated.starts_with("Set ws = WScript.CreateObject(\"WScript.Shell\")\r\n"));
    assert!(has_autostart_line(&updated, "Old"));
    assert!(has_autostart_line(&updated, "Ubuntu"));
}

#[test]
fn dashboard_command_quotes_the_path_and_adds_the_silent_switch() {
    assert_eq!(
        dashboard_autostart_command("C:\\apps\\dash.exe", false),
        "\"C:\\apps\\dash.exe\""
    );
    assert_eq!(
        dashboard_autostart_command("C:\\apps\\dash.exe", true),
        "\"C:\\apps\\dash.exe\" /silent"
    );
}

#[test]
fn dashboard_vbs_content_escapes_quotes() {
    let content = dashboard_vbs_content("\"C:\\apps\\dash.exe\" /silent");
    assert_eq!(
        content,
        "Set ws = WScript.CreateObject(\"WScript.Shell\")\r\n\
         ws.run \"\"\"C:\\apps\\dash.exe\"\" /silent\", 0\r\n"
    );
}

#[test]
fn debounce_sleeps_out_the_remainder_of_the_interval() {
    let mut disp = RefreshDispatcher::new(500, 1000);
    assert_eq!(disp.sleep_before_refresh(1200), 300);
    assert_eq!(disp.sleep_before_refresh(1500), 0);
    assert_eq!(disp.sleep_before_refresh(9999), 0);
    disp.mark_refreshed(1500);
    assert_eq!(disp.sleep_before_refresh(1600), 400);
}

#[test]
fn taskbar_style_bits_flip_as_documented() {
    let style = 0x0010_0000u32;
    let hidden = set_skip_taskbar(style, true);
    assert_eq!(hidden & 0x80, 0x80);
    assert_eq!(hidden & 0x40000, 0);
    let shown = set_skip_taskbar(hidden, false);
    assert_eq!(shown & 0x80, 0);
    assert_eq!(shown & 0x40000, 0x40000);
    assert_eq!(set_window_opacity(style), style | 0x80000);
}

#[test]
fn utc_offsets_format_with_sign_and_two_digit_fields() {
    assert_eq!(format_utc_offset(19800), "UTC+05:30");
    assert_eq!(format_utc_offset(-3600), "UTC-01:00");
    assert_eq!(format_utc_offset(0), "UTC+00:00");
    assert_eq!(format_utc_offset(45900), "UTC+12:45");
}

#[test]
fn install_location_comes_from_the_first_matching_record() {
    let records = vec![
        WslRegInfo {
            name: "Ubuntu".to_string(),
            base_path: "C:\\wsl\\ubuntu".to_string(),
            version: 2,
            package_family_name: "".to_string(),
        },
        WslRegInfo {
            name: "Empty".to_string(),
            base_path: "".to_string(),
            version: 1,
            package_family_name: "".to_string(),
        },
    ];
    assert_eq!(
        find_install_location(&records, "Ubuntu").as_deref(),
        Some("C:\\wsl\\ubuntu")
    );
    assert_eq!(find_install_location(&records, "Empty"), None);
    assert_eq!(find_install_location(&records, "Missing"), None);
}

#[test]
fn display_sort_orders_names_case_insensitively() {
    let listing = "  NAME   STATE    VERSION\n\
                     ubuntu Running  2\n\
                   * Alpine Stopped  2\n\
                     Debian Running  1\n\
                     alpha  Stopped  2\n";
    let distros = parse_distros_list(listing);
    let sorted = sort_distros_by_name(distros);
    let names: Vec<&str> = sorted.iter().map(|d| d.name.as_str()).collect();
    assert_eq!(names, vec!["alpha", "Alpine", "Debian", "ubuntu"]);
    // Sorting keeps every entry.
    assert!(sorted.iter().any(|d| d.is_default && d.name == "Alpine"));
}

#[test]
fn settings_validation_falls_back_to_the_defaults() {
    assert_eq!(validate_log_days(15), 15);
    assert_eq!(validate_log_days(30), 30);
    assert_eq!(validate_log_days(9), 7);
    assert_eq!(validate_log_days(0), 7);
    assert_eq!(validate_check_update(1), 1);
    assert_eq!(validate_check_update(30), 30);
    assert_eq!(validate_check_update(2), 7);
}

use rsx::config::{capture_dir, parse_cli, parse_vblank_list, resolve_bios};

fn args(a: &[&str]) -> Vec<String> {
    a.iter().map(|s| s.to_string()).collect()
}

#[test]
fn parse_cli_bios_flag() {
    let c = parse_cli(args(&["rsx", "--bios", "SCPH1001.BIN"]));
    assert_eq!(c.bios.unwrap(), "SCPH1001.BIN");
    assert!(c.disc.is_none());
}

#[test]
fn parse_cli_disc_flag() {
    let c = parse_cli(args(&["rsx", "--bios", "SCPH1001.BIN", "--disc", "game.cue"]));
    assert_eq!(c.bios.unwrap(), "SCPH1001.BIN");
    assert_eq!(c.disc.unwrap(), "game.cue");
}

#[test]
fn parse_cli_capture_at() {
    let c = parse_cli(args(&[
        "rsx",
        "--capture-at",
        "500,150,150,450",
        "--capture-dir",
        "shots",
    ]));
    assert_eq!(c.capture_at, vec![150, 450, 500]);
    assert_eq!(c.capture_dir.unwrap(), "shots");
    assert!(!c.headless);
}

#[test]
fn parse_cli_headless_defaults_period() {
    let c = parse_cli(args(&["rsx", "--headless"]));
    assert!(c.headless);
    assert_eq!(c.until_vblank, None);
    assert_eq!(c.period, 60);
}

#[test]
fn parse_cli_headless_until_and_period() {
    let c = parse_cli(args(&[
        "rsx",
        "--headless",
        "--until-vblank",
        "1200",
        "--period",
        "30",
    ]));
    assert!(c.headless);
    assert_eq!(c.until_vblank, Some(1200));
    assert_eq!(c.period, 30);
}

#[test]
fn cli_wins_over_toml() {
    let got = resolve_bios(
        Some("from-cli.bin".to_string()),
        Ok(Some("from-toml.bin".to_string())),
    );
    assert_eq!(got, Ok("from-cli.bin".to_string()));
}

#[test]
fn toml_used_when_no_cli() {
    let got = resolve_bios(None, Ok(Some("from-toml.bin".to_string())));
    assert_eq!(got, Ok("from-toml.bin".to_string()));
}

#[test]
fn missing_both_is_an_error() {
    assert!(resolve_bios(None, Ok(None)).is_err());
    assert_eq!(
        resolve_bios(None, Err("no rsx.toml".to_string())),
        Err("no rsx.toml".to_string())
    );
}

#[test]
fn vblank_list_trims_skips_junk_sorts_and_dedups() {
    let v: Vec<char> = " 30, x,10 ,+20,,10, 99999999999999999999".chars().collect();
    assert_eq!(parse_vblank_list(&v), vec![10, 20, 30]);
    let empty: Vec<char> = "".chars().collect();
    assert!(parse_vblank_list(&empty).is_empty());
}

#[test]
fn period_zero_or_junk_keeps_the_default() {
    assert_eq!(parse_cli(args(&["rsx", "--period", "0"])).period, 60);
    assert_eq!(parse_cli(args(&["rsx", "--period", "-5"])).period, 60);
    assert_eq!(parse_cli(args(&["rsx", "--until-vblank", "abc"])).until_vblank, None);
    assert_eq!(parse_cli(args(&["rsx", "--bios"])).bios, None);
}

#[test]
fn capture_dir_defaults_to_target() {
    assert_eq!(capture_dir(None), "target/rsx-display");
    assert_eq!(capture_dir(Some("shots".to_string())), "shots");
}

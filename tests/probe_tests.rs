use metalfetch::probe::{
    after_lookup, env_outcome, first_package_step, manager, manager_args, os_outcome,
    packages_outcome, settle, setting_outcome, shell_outcome, trimmed_outcome, Field,
    PackageStep, ProbeError, ProbeOutcome, SnapshotBuilder, MANAGER_COUNT,
};
use metalfetch::text::{chars_of, lines, push_decimal, strip_chars, Strip};

fn found(o: &ProbeOutcome) -> Option<&str> {
    match o {
        ProbeOutcome::Found(s) => Some(s.as_str()),
        _ => None,
    }
}

#[test]
fn shell_field_takes_last_path_segment() {
    let o = shell_outcome(Some("/usr/bin/zsh"));
    assert_eq!(found(&o), Some("zsh"));
    assert_eq!(settle(Field::Shell, o), Ok("zsh".to_string()));
}

#[test]
fn shell_field_unset_or_trailing_slash_is_unknown() {
    assert_eq!(settle(Field::Shell, shell_outcome(None)), Ok("Unknown".to_string()));
    assert_eq!(settle(Field::Shell, shell_outcome(Some("/bin/"))), Ok("Unknown".to_string()));
    assert_eq!(found(&shell_outcome(Some("fish"))), Some("fish"));
}

#[test]
fn desktop_field_falls_back_to_session() {
    let o = env_outcome(&vec![None, Some("gnome-classic".to_string())]);
    assert_eq!(settle(Field::Desktop, o), Ok("gnome-classic".to_string()));
    let o = env_outcome(&vec![Some("KDE".to_string()), Some("plasma".to_string())]);
    assert_eq!(settle(Field::Desktop, o), Ok("KDE".to_string()));
}

#[test]
fn desktop_field_both_unset_is_unknown() {
    let o = env_outcome(&vec![None, None]);
    assert!(matches!(o, ProbeOutcome::Missing));
    assert_eq!(settle(Field::Desktop, o), Ok("Unknown".to_string()));
    let o = env_outcome(&vec![Some(String::new()), None]);
    assert_eq!(settle(Field::Wm, o), Ok("Unknown".to_string()));
}

#[test]
fn no_package_manager_resolves_gives_unknown() {
    let mut step = first_package_step();
    let mut lookups = 0;
    loop {
        match step {
            PackageStep::Lookup(i) => {
                lookups += 1;
                step = after_lookup(i, false);
            }
            PackageStep::Invoke(_) => panic!("nothing resolves"),
            PackageStep::GiveUp => break,
        }
    }
    assert_eq!(lookups, MANAGER_COUNT);
    assert_eq!(settle(Field::Packages, ProbeOutcome::Missing), Ok("Unknown".to_string()));
}

#[test]
fn first_resolving_manager_is_the_only_one_run() {
    assert_eq!(first_package_step(), PackageStep::Lookup(0));
    assert_eq!(after_lookup(0, false), PackageStep::Lookup(1));
    assert_eq!(after_lookup(1, true), PackageStep::Invoke(1));
    assert_eq!(after_lookup(6, false), PackageStep::GiveUp);
    assert_eq!(manager(1), "apt");
    assert_eq!(manager_args(1), vec!["list", "--installed"]);
    assert_eq!(manager(6), "xbps-query");
    assert_eq!(manager_args(4), vec!["se", "--installed-only"]);
}

#[test]
fn package_count_formats_lines_and_manager() {
    let out = b"a\nb\nc\n".to_vec();
    let o = packages_outcome(0, Some(&out));
    assert_eq!(found(&o), Some("3 (pacman)"));
    let out = b"x\ny".to_vec();
    assert_eq!(found(&packages_outcome(1, Some(&out))), Some("2 (apt)"));
    let out: Vec<u8> = Vec::new();
    assert_eq!(found(&packages_outcome(2, Some(&out))), Some("0 (dnf)"));
    let out = vec![b'\n'; 1234];
    assert_eq!(found(&packages_outcome(5, Some(&out))), Some("1234 (emerge)"));
}

#[test]
fn package_invocation_failure_aborts() {
    let o = packages_outcome(0, None);
    assert!(matches!(o, ProbeOutcome::Failed));
    assert_eq!(settle(Field::Packages, o), Err(ProbeError::Invocation(Field::Packages)));
}

#[test]
fn theme_query_failure_is_unknown_not_fatal() {
    let o = setting_outcome(None);
    assert!(matches!(o, ProbeOutcome::Failed));
    assert_eq!(settle(Field::Theme, o), Ok("Unknown".to_string()));
    assert_eq!(settle(Field::Icons, setting_outcome(None)), Ok("Unknown".to_string()));
    assert_eq!(
        settle(Field::Uptime, trimmed_outcome(None)),
        Err(ProbeError::Invocation(Field::Uptime))
    );
}

#[test]
fn theme_value_is_trimmed_and_unquoted() {
    assert_eq!(found(&setting_outcome(Some("'Adwaita-dark'\n"))), Some("Adwaita-dark"));
    assert!(matches!(setting_outcome(Some("''\n")), ProbeOutcome::Missing));
    assert!(matches!(setting_outcome(Some("'Unknown'")), ProbeOutcome::Missing));
}

#[test]
fn utility_output_is_trimmed() {
    assert_eq!(found(&trimmed_outcome(Some("  x86_64\n"))), Some("x86_64"));
    assert!(matches!(trimmed_outcome(Some(" \n\t")), ProbeOutcome::Missing));
    assert_eq!(settle(Field::Architecture, trimmed_outcome(Some("\n"))), Ok("Unknown".to_string()));
}

#[test]
fn os_name_comes_from_pretty_name_line() {
    let text = "NAME=\"Arch Linux\"\nPRETTY_NAME=\"Arch Linux\"\nID=arch\n";
    assert_eq!(found(&os_outcome(Some(text))), Some("Arch Linux"));
    let text = "NAME=x\r\nPRETTY_NAME=\"Fedora 40\"\r\n";
    assert_eq!(found(&os_outcome(Some(text))), Some("Fedora 40"));
    assert!(matches!(os_outcome(Some("ID=arch\n")), ProbeOutcome::Missing));
    assert!(matches!(os_outcome(None), ProbeOutcome::Failed));
    assert_eq!(found(&os_outcome(Some("PRETTY_NAME=a=b\n"))), Some("a"));
}

#[test]
fn builder_collects_fields_in_order_and_stops_on_fatal() {
    let mut b = SnapshotBuilder::new();
    assert_eq!(b.next_field(), Some(Field::Os));
    assert_eq!(b.record(ProbeOutcome::Found("Arch".to_string())), Ok(()));
    assert_eq!(b.next_field(), Some(Field::Architecture));
    assert_eq!(b.record(ProbeOutcome::Failed), Err(ProbeError::Invocation(Field::Architecture)));
    assert_eq!(b.next_field(), Some(Field::Architecture));
    assert!(b.finish().is_none());
}

#[test]
fn builder_finishes_after_every_field() {
    let mut b = SnapshotBuilder::new();
    let mut n = 0;
    while let Some(f) = b.next_field() {
        let o = if f == Field::Theme { ProbeOutcome::Failed } else { ProbeOutcome::Found(format!("v{}", n)) };
        assert_eq!(b.record(o), Ok(()));
        n += 1;
    }
    assert_eq!(n, 11);
    let s = b.finish().unwrap();
    assert_eq!(s.value(Field::Os), "v0");
    assert_eq!(s.value(Field::Packages), "v5");
    assert_eq!(s.value(Field::Theme), "Unknown");
    assert_eq!(s.value(Field::Terminal), "v10");
}

#[test]
fn field_keys_round_trip() {
    assert_eq!(Field::from_key("WM"), Some(Field::Wm));
    assert_eq!(Field::from_key("Icons"), Some(Field::Icons));
    assert_eq!(Field::from_key("wm"), None);
    assert_eq!(Field::Os.key(), "OS");
}

#[test]
fn text_helpers_behave_like_std() {
    let cs = chars_of(" \u{3000}héllo\t\n");
    assert_eq!(strip_chars(&cs, Strip::Space), "héllo".chars().collect::<Vec<char>>());
    let cs = chars_of("a\r\nb\n\nc\r");
    let ls: Vec<String> = lines(&cs).into_iter().map(|l| l.into_iter().collect()).collect();
    assert_eq!(ls, "a\r\nb\n\nc\r".lines().collect::<Vec<&str>>());
    let mut d = Vec::new();
    push_decimal(9070, &mut d);
    assert_eq!(d.into_iter().collect::<String>(), "9070");
}

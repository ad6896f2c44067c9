use irl::{Action, Bits, Code, Error, Remote, RemoteConfig};

const H: Bits = Bits(11, 12);
const O: Bits = Bits(21, 22);
const Z: Bits = Bits(31, 32);
const G: Bits = Bits(41, 42);

fn config(bits: u8, repeat: u8, address: u32, codes: &[(&str, u32)]) -> RemoteConfig {
    RemoteConfig {
        bits,
        header: H,
        one: O,
        zero: Z,
        gap: G,
        repeat,
        address,
        codes: codes
            .iter()
            .map(|(signal, code)| Code { signal: signal.to_string(), code: *code })
            .collect(),
    }
}

fn actions_of(remote: &Remote, pulses: &[Bits]) -> Vec<Action> {
    let mut actions = Vec::new();
    for pulse in pulses {
        actions.extend(remote.emit_bit(*pulse));
    }
    actions
}

#[test]
fn timing_fidelity() {
    let remote = Remote::from_config(config(1, 1, 0, &[]));
    assert_eq!(
        remote.emit_bit(Bits(100, 200)),
        [Action::Enable, Action::Sleep(100), Action::Disable, Action::Sleep(200)]
    );
}

#[test]
fn emit_bit_keeps_on_and_off_apart() {
    let remote = Remote::from_config(config(1, 1, 0, &[]));
    assert_eq!(
        remote.emit_bit(Bits(0, u32::MAX)),
        [Action::Enable, Action::Sleep(0), Action::Disable, Action::Sleep(u32::MAX)]
    );
    assert_ne!(remote.emit_bit(Bits(100, 200)), remote.emit_bit(Bits(200, 100)));
}

#[test]
fn end_to_end_scenario() {
    let remote = Remote::from_config(config(2, 1, 0b10, &[("power", 0b01)]));
    assert_eq!(remote.emit_code(0b01), vec![H, O, Z, Z, O, G]);
    let actions = remote.emit("power").unwrap();
    assert_eq!(actions, actions_of(&remote, &[H, O, Z, Z, O, G]));
    assert_eq!(
        actions,
        vec![
            Action::Enable, Action::Sleep(11), Action::Disable, Action::Sleep(12),
            Action::Enable, Action::Sleep(21), Action::Disable, Action::Sleep(22),
            Action::Enable, Action::Sleep(31), Action::Disable, Action::Sleep(32),
            Action::Enable, Action::Sleep(31), Action::Disable, Action::Sleep(32),
            Action::Enable, Action::Sleep(21), Action::Disable, Action::Sleep(22),
            Action::Enable, Action::Sleep(41), Action::Disable, Action::Sleep(42),
        ]
    );
}

#[test]
fn emit_sends_every_frame() {
    let remote = Remote::from_config(config(2, 3, 0b10, &[("power", 0b01)]));
    let frame = [H, O, Z, Z, O, G];
    let actions = remote.emit("power").unwrap();
    assert_eq!(actions.len(), 3 * 4 * frame.len());
    assert_eq!(actions, actions_of(&remote, &[frame, frame, frame].concat()));
    assert_eq!(actions, actions_of(&remote, &remote.emit_code(0b01)));
}

#[test]
fn four_actions_for_each_pulse() {
    let remote = Remote::from_config(config(5, 2, 0b10101, &[("x", 0b01010)]));
    let pulses = remote.emit_code(0b01010);
    let actions = remote.emit("x").unwrap();
    assert_eq!(actions.len(), 4 * pulses.len());
    for (k, pulse) in pulses.iter().enumerate() {
        assert_eq!(actions[4 * k..4 * k + 4], remote.emit_bit(*pulse));
    }
}

#[test]
fn carrier_ends_switched_off() {
    let remote = Remote::from_config(config(8, 2, 0xA5, &[("x", 0x3C)]));
    let actions = remote.emit("x").unwrap();
    let mut on = false;
    for action in &actions {
        match action {
            Action::Enable => {
                assert!(!on);
                on = true;
            },
            Action::Disable => {
                assert!(on);
                on = false;
            },
            Action::Sleep(_) => {},
        }
    }
    assert!(!on);
    assert_eq!(actions.last(), Some(&Action::Sleep(42)));
}

#[test]
fn emit_with_no_frames_has_nothing_to_do() {
    let remote = Remote::from_config(config(8, 0, 0, &[("x", 1)]));
    assert_eq!(remote.emit("x"), Ok(Vec::new()));
}

#[test]
fn first_match_lookup() {
    let config = config(2, 1, 0, &[("a", 1), ("b", 2), ("a", 3)]);
    assert_eq!(config.lookup("a"), Some(1));
    let remote = Remote::from_config(config);
    let actions = remote.emit("a").unwrap();
    assert_eq!(actions, actions_of(&remote, &remote.emit_code(1)));
    assert_ne!(actions, actions_of(&remote, &remote.emit_code(3)));
}

#[test]
fn lookup_finds_each_name() {
    let config = config(2, 1, 0, &[("a", 1), ("b", 2), ("a", 3), ("c", 0)]);
    assert_eq!(config.lookup("b"), Some(2));
    assert_eq!(config.lookup("c"), Some(0));
}

#[test]
fn unknown_signal() {
    let config = config(2, 1, 0, &[("a", 1), ("b", 2)]);
    assert_eq!(config.lookup("volume"), None);
    let remote = Remote::from_config(config);
    assert_eq!(
        remote.emit("volume"),
        Err(Error::SignalNotFound { signal: "volume".to_string() })
    );
}

#[test]
fn unknown_signal_in_an_empty_table() {
    let remote = Remote::from_config(config(2, 1, 0, &[]));
    assert_eq!(remote.config().lookup("a"), None);
    assert_eq!(remote.emit("a"), Err(Error::SignalNotFound { signal: "a".to_string() }));
}

#[test]
fn names_are_compared_exactly() {
    let config = config(2, 1, 0, &[("power", 1), ("", 2), ("Power", 3)]);
    assert_eq!(config.lookup("power"), Some(1));
    assert_eq!(config.lookup("Power"), Some(3));
    assert_eq!(config.lookup("POWER"), None);
    assert_eq!(config.lookup("power "), None);
    assert_eq!(config.lookup("powe"), None);
    assert_eq!(config.lookup(""), Some(2));
}

#[test]
fn empty_name_can_be_unknown() {
    let remote = Remote::from_config(config(2, 1, 0, &[("power", 1)]));
    assert_eq!(remote.emit(""), Err(Error::SignalNotFound { signal: String::new() }));
}

#[test]
fn messages() {
    assert_eq!(Error::InitPwm.message(), "PWM error");
    assert_eq!(
        Error::ReadConfig { path: "config.toml".to_string() }.message(),
        "Unable to read config from config.toml"
    );
    assert_eq!(
        Error::ParseConfig { path: "/etc/remote.toml".to_string() }.message(),
        "Unable to read config from /etc/remote.toml"
    );
    assert_eq!(
        Error::SignalNotFound { signal: "mute".to_string() }.message(),
        "Signal not found mute"
    );
}

#[test]
fn message_of_an_emit_failure() {
    let remote = Remote::from_config(config(2, 1, 0, &[]));
    let error = remote.emit("mute").unwrap_err();
    assert_eq!(error.message(), "Signal not found mute");
}

#[test]
fn well_formed_widths() {
    assert!(config(0, 1, 0, &[]).is_well_formed());
    assert!(config(32, 1, 0, &[]).is_well_formed());
    assert!(!config(33, 1, 0, &[]).is_well_formed());
    assert!(!config(255, 1, 0, &[]).is_well_formed());
}

#[test]
fn remote_keeps_its_configuration() {
    let remote = Remote::from_config(config(7, 4, 0x55, &[("a", 1), ("b", 2)]));
    let kept = remote.config();
    assert_eq!(kept.bits, 7);
    assert_eq!(kept.repeat, 4);
    assert_eq!(kept.address, 0x55);
    assert_eq!((kept.header, kept.one, kept.zero, kept.gap), (H, O, Z, G));
    assert_eq!(kept.codes.len(), 2);
    assert_eq!(kept.codes[1].signal, "b");
    assert_eq!(kept.codes[1].code, 2);
}

#[test]
fn sleeps_add_up_to_the_time_of_the_pulses() {
    let remote = Remote::from_config(config(2, 2, 0b10, &[("power", 0b01)]));
    let sleeps: u64 = remote
        .emit("power")
        .unwrap()
        .iter()
        .map(|action| match action {
            Action::Sleep(micros) => u64::from(*micros),
            _ => 0,
        })
        .sum();
    let frame: u64 = (11 + 12) + 2 * (21 + 22) + 2 * (31 + 32) + (41 + 42);
    assert_eq!(sleeps, 2 * frame);
}

fn carry_out(remote: &Remote, signal: &str, carried_out: &mut Vec<Action>) -> Result<(), Error> {
    for action in remote.emit(signal)? {
        carried_out.push(action);
    }
    Ok(())
}

#[test]
fn unknown_signal_switches_nothing() {
    let remote = Remote::from_config(config(2, 3, 0b10, &[("power", 0b01)]));
    let mut carried_out = Vec::new();
    assert_eq!(
        carry_out(&remote, "mute", &mut carried_out),
        Err(Error::SignalNotFound { signal: "mute".to_string() })
    );
    assert!(carried_out.is_empty());
    assert_eq!(carry_out(&remote, "power", &mut carried_out), Ok(()));
    assert_eq!(carried_out.len(), 3 * 6 * 4);
}

use wireless_taiko::deploy::{exit_code_after, plan_deploy, CommandEnd};
use wireless_taiko::pairing::{is_switch_alias, is_switch_name, Sweep};
use wireless_taiko::pool::{AdapterPool, Placement};
use wireless_taiko::privilege::{is_root, uid_in_status};
use wireless_taiko::sdp::{stale_handles, stale_handles_in_output};
use wireless_taiko::text::{
    contains_str, is_white_space, lines, parse_number, same_str, split_str, starts_with_str, words,
};

const SAMPLES: [&str; 14] = [
    "", "\n", "\r\n", "\r", "a", "a\nb", "a\r\nb\r\n\r\nc\r", "\n\n\n", "a\n\n\nb\n\n", "  a  b ",
    "\u{a0}x\u{3000}y\u{2003}z\u{200b}", "a:b::c:", "\u{e9}:\u{1F941}\n\t\u{e9}", "\r\r\n\n\r\n",
];

#[test]
fn splitting_agrees_with_the_standard_library() {
    for text in SAMPLES {
        for sep in ["\n\n", "\n", ":", "a", "\u{e9}"] {
            let expected: Vec<&str> = text.split(sep).collect();
            assert_eq!(split_str(text, sep), expected);
        }
    }
}

#[test]
fn lines_agree_with_the_standard_library() {
    for text in SAMPLES {
        let expected: Vec<&str> = text.lines().collect();
        assert_eq!(lines(text), expected);
    }
}

#[test]
fn words_agree_with_the_standard_library() {
    for text in SAMPLES {
        let expected: Vec<&str> = text.split_whitespace().collect();
        assert_eq!(words(text), expected);
    }
}

#[test]
fn white_space_agrees_with_the_standard_library() {
    for c in '\0'..=char::MAX {
        assert_eq!(is_white_space(c), c.is_whitespace());
    }
}

#[test]
fn searching_agrees_with_the_standard_library() {
    for text in SAMPLES {
        for pat in ["", "a", "\n\n", "b\n", "\u{1F941}", "  a  b  "] {
            assert_eq!(contains_str(text, pat), text.contains(pat));
            assert_eq!(starts_with_str(text, pat), text.starts_with(pat));
            assert_eq!(same_str(text, pat), text == pat);
        }
    }
}

#[test]
fn numbers_agree_with_the_standard_library() {
    for text in [
        "", "0", "+", "-", "+0", "-0", "++1", "007", "4294967295", "4294967296", "99999999999999999999",
        "1 ", " 1", "1a", "ff", "FF", "100", "0ff", "g", "\u{661}", "+4294967295", "1\u{e9}",
    ] {
        assert_eq!(parse_number(text, 10, u32::MAX), text.parse::<u32>().ok());
        assert_eq!(
            parse_number(text, 16, 255),
            u8::from_str_radix(text, 16).ok().map(|b| b as u32)
        );
    }
}

const LISTING: &str = "Browsing FF:FF:FF:00:00:00 ...\nService RecHandle: 0x10000\nService Class ID List:\n  \"PnP Information\" (0x1200)\n\nService Name: Wireless Gamepad\nService RecHandle: 0x10005\nService Class ID List:\n\nService Name: Old\r\nService RecHandle: 0x10006 \r\nAnother Service RecHandle: 0x10007\n\n";

#[test]
fn stale_records_are_found() {
    assert_eq!(stale_handles(LISTING), ["0x10005", "0x10006", "0x10007"]);
    assert!(stale_handles("").is_empty());
}

#[test]
fn pnp_records_are_kept() {
    assert!(stale_handles("Service RecHandle: 0x1\nPnP Information").is_empty());
    assert_eq!(stale_handles("PnP Information\n\nService RecHandle: 0x1"), ["0x1"]);
}

#[test]
fn stale_records_in_raw_output() {
    assert_eq!(stale_handles_in_output(LISTING.as_bytes()), ["0x10005", "0x10006", "0x10007"]);
    assert_eq!(
        stale_handles_in_output(b"\xFF\xFEService RecHandle: 0x2\xFF"),
        ["0x2\u{FFFD}"]
    );
}

#[test]
fn root_is_user_zero() {
    let root = "Name:\tx\nUmask:\t0022\nUid:\t0\t0\t0\t0\nGid:\t0\t0\t0\t0\n";
    let user = "Name:\tx\nUid:\t1000\t0\t0\t0\nUid:\t0\n";
    assert!(is_root(Some(root)));
    assert!(!is_root(Some(user)));
    assert_eq!(uid_in_status(user), 1000);
    assert!(!is_root(None));
}

#[test]
fn unreadable_user_is_not_root() {
    for status in ["", "Uid:", "Uid:\tzero", "Uid:\t-0", " Uid:\t0", "Uid:\t4294967296", "Uid:0"] {
        assert_eq!(uid_in_status(status), 1);
        assert!(!is_root(Some(status)));
    }
}

#[test]
fn console_is_known_by_name() {
    assert!(is_switch_alias("Nintendo Switch"));
    assert!(is_switch_alias("NINTENDO SWITCH"));
    assert!(is_switch_alias("nintendo sw\u{131}tch"));
    assert!(!is_switch_alias("Nintendo Switch 2"));
    assert!(!is_switch_alias(""));
    assert!(is_switch_name("NINTENDO SWITCH"));
    assert!(!is_switch_name("Nintendo Switch"));
}

#[test]
fn sweep_counts_what_it_removes() {
    let mut sweep = Sweep::new();
    assert!(!sweep.visit(None));
    assert!(sweep.visit(Some("Nintendo Switch")));
    assert!(!sweep.visit(Some("Headphones")));
    assert!(sweep.visit(Some("nintendo switch")));
    assert_eq!(sweep.removed(), 2);
}

fn strings(names: &[&str]) -> Vec<String> {
    names.iter().map(|n| n.to_string()).collect()
}

fn shown(placements: &[Placement]) -> Vec<String> {
    placements
        .iter()
        .map(|p| match p {
            Placement::AlreadyActive => "active".to_string(),
            Placement::NoAdapter => "none".to_string(),
            Placement::Assigned(name) => name.clone(),
        })
        .collect()
}

#[test]
fn drums_get_adapters_of_their_own() {
    let mut pool = AdapterPool::new(strings(&["hci0", "hci1"]));
    let drums = strings(&["/dev/hidraw0", "/dev/hidraw1", "/dev/hidraw2"]);
    assert_eq!(shown(&pool.poll(&drums)), ["hci1", "hci0", "none"]);
    assert_eq!(shown(&pool.poll(&drums)), ["active", "active", "none"]);
}

#[test]
fn released_adapter_serves_the_next_drum() {
    let mut pool = AdapterPool::new(strings(&["hci0", "hci1"]));
    let drums = strings(&["a", "b", "c"]);
    pool.poll(&drums);
    pool.release("hci1".to_string(), &"a".to_string());
    assert_eq!(shown(&pool.poll(&strings(&["c", "a"]))), ["hci1", "none"]);
    pool.release("hci0".to_string(), &"b".to_string());
    assert_eq!(shown(&[pool.place(&"b".to_string())]), ["hci0"]);
}

#[test]
fn same_drum_twice_in_a_poll_is_started_once() {
    let mut pool = AdapterPool::new(strings(&["hci0", "hci1"]));
    assert_eq!(shown(&pool.poll(&strings(&["a", "a"]))), ["hci1", "active"]);
}

#[test]
fn release_undoes_place() {
    let mut pool = AdapterPool::new(strings(&["hci0", "hci1"]));
    for _ in 0..3 {
        assert_eq!(shown(&[pool.place(&"a".to_string())]), ["hci1"]);
        pool.release("hci1".to_string(), &"a".to_string());
    }
}

#[test]
fn release_of_a_drum_not_served_only_returns_the_adapter() {
    let mut pool = AdapterPool::new(vec![]);
    pool.release("hci7".to_string(), &"a".to_string());
    assert_eq!(shown(&pool.poll(&strings(&["b", "c"]))), ["hci7", "none"]);
}

#[test]
fn deployment_plan() {
    let plan = plan_deploy("pi@raspberrypi.local", None, "/home/me");
    assert_eq!(plan.sccache_dir, "/home/me/.cache/sccache");
    assert_eq!(
        plan.container_opts,
        "--volume /home/me/.cache/sccache:/home/me/.cache/sccache"
    );
    assert_eq!(plan.build_args, ["build", "--release", "--target", "aarch64-unknown-linux-gnu"]);
    let env: Vec<(&str, &str)> =
        plan.build_env.iter().map(|(name, value)| (name.as_str(), value.as_str())).collect();
    assert_eq!(
        env,
        [
            ("DOCKER_DEFAULT_PLATFORM", "linux/amd64"),
            ("RUSTC_WRAPPER", "sccache"),
            ("SCCACHE_DIR", "/home/me/.cache/sccache"),
            ("CROSS_CONTAINER_OPTS", "--volume /home/me/.cache/sccache:/home/me/.cache/sccache"),
        ]
    );
    assert_eq!(plan.binary, "target/aarch64-unknown-linux-gnu/release/wireless-taiko");
    assert_eq!(plan.remote_path, "~/wireless-taiko");
    assert_eq!(plan.destination, "pi@raspberrypi.local:~/wireless-taiko");
    let plan = plan_deploy("pi", Some("/opt/taiko".to_string()), "");
    assert_eq!(plan.destination, "pi:/opt/taiko");
    assert_eq!(plan.sccache_dir, "/.cache/sccache");
}

#[test]
fn exit_codes() {
    assert_eq!(exit_code_after(CommandEnd::Success), None);
    assert_eq!(exit_code_after(CommandEnd::Failure(Some(101))), Some(101));
    assert_eq!(exit_code_after(CommandEnd::Failure(None)), Some(1));
    assert_eq!(exit_code_after(CommandEnd::NotStarted), Some(1));
}

#[test]
fn no_adapter_ever_serves_two_drums() {
    let mut pool = AdapterPool::new(strings(&["hci0", "hci1", "hci2"]));
    let mut serving: Vec<(String, String)> = Vec::new();
    for round in 0..40usize {
        let drums: Vec<String> = (0..5usize).filter(|d| (round + d) % 3 != 0).map(|d| d.to_string()).collect();
        for (path, placement) in drums.iter().zip(pool.poll(&drums)) {
            if let Placement::Assigned(name) = placement {
                assert!(serving.iter().all(|(p, n)| *p != *path && *n != name));
                serving.push((path.clone(), name));
            }
        }
        assert!(serving.len() <= 3);
        if round % 2 == 1 {
            let (path, name) = serving.remove(round % serving.len());
            pool.release(name, &path);
        }
    }
}

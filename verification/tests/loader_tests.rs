use isolate_core::loader::{
    DesyncConfig, DesyncMode, JsonStrategy, StrategyCategory, StrategyLoader, StrategyPorts,
    StrategyProfile,
};

fn blank_profile(filter: &str, desync: &str) -> StrategyProfile {
    StrategyProfile {
        filter: filter.to_string(),
        hostlist: None,
        hostlist_exclude: None,
        hostlist_domains: None,
        ipset: None,
        ipset_exclude: None,
        l7: None,
        ip_id: None,
        desync: desync.to_string(),
        repeats: None,
        split_seqovl: None,
        split_pos: None,
        split_seqovl_pattern: None,
        fooling: None,
        fake_tls: None,
        fake_quic: None,
        fake_tls_mod: None,
        fake_wireguard: None,
        fake_dht: None,
        fake_unknown_udp: None,
        fake_tcp_mod: None,
        fake_syndata: None,
        ttl: None,
        ttl6: None,
        autottl: None,
        badseq_increment: None,
        badack_increment: None,
        ts_increment: None,
        cutoff: None,
        hostfakesplit_mod: None,
        hostfakesplit_midhost: None,
        fakedsplit_mod: None,
        wsize: None,
        wssize: None,
        wssize_cutoff: None,
        filter_l3: None,
        filter_ssid: None,
        nlm_filter: None,
        dup: None,
        dup_replace: None,
        dup_ttl: None,
        dup_autottl: None,
        dup_fooling: None,
        dup_start: None,
        dup_cutoff: None,
        orig_ttl: None,
        orig_autottl: None,
        orig_tcp_flags_set: None,
        orig_tcp_flags_unset: None,
        orig_mod_start: None,
        orig_mod_cutoff: None,
    }
}

fn create_test_strategy() -> JsonStrategy {
    let mut profile = blank_profile("tcp", "fake,split2");
    profile.hostlist = Some("youtube.txt".to_string());
    profile.l7 = Some("http".to_string());
    profile.repeats = Some(6);
    profile.split_seqovl = Some(2);
    profile.split_pos = Some("1".to_string());
    profile.fooling = Some("md5sig".to_string());
    profile.fake_tls = Some("tls_clienthello.bin".to_string());
    profile.autottl = Some("2".to_string());
    JsonStrategy {
        id: "test-strategy".to_string(),
        name: "Test Strategy".to_string(),
        description: "A test strategy".to_string(),
        category: StrategyCategory::YouTube,
        family: "zapret".to_string(),
        author: Some("Test Author".to_string()),
        label: Some("recommended".to_string()),
        ports: StrategyPorts {
            tcp: Some("80,443".to_string()),
            udp: Some("443".to_string()),
        },
        profiles: vec![profile],
    }
}

fn bare_strategy(id: &str, name: &str, category: StrategyCategory) -> JsonStrategy {
    JsonStrategy {
        id: id.to_string(),
        name: name.to_string(),
        description: "".to_string(),
        category,
        family: "zapret".to_string(),
        author: None,
        label: None,
        ports: StrategyPorts::default(),
        profiles: vec![],
    }
}

#[test]
fn test_strategy_category_display() {
    assert_eq!(StrategyCategory::YouTube.to_string(), "YouTube");
    assert_eq!(StrategyCategory::Discord.to_string(), "Discord");
    assert_eq!(StrategyCategory::General.to_string(), "General");
}

#[test]
fn test_to_winws_args_basic() {
    let loader = StrategyLoader::new("test");
    let strategy = create_test_strategy();
    let hostlists_dir = "C:\\test\\hostlists";
    let blobs_dir = "C:\\test\\blobs";

    let args = loader.to_winws_args(&strategy, hostlists_dir, blobs_dir).unwrap();

    assert!(args.contains(&"--wf-tcp".to_string()));
    assert!(args.contains(&"80,443".to_string()));
    assert!(args.contains(&"--wf-udp".to_string()));
    assert!(args.contains(&"443".to_string()));

    assert!(args.contains(&"--dpi-desync".to_string()));
    assert!(args.contains(&"fake,split2".to_string()));

    assert!(args.contains(&"--hostlist".to_string()));
    let hostlist_idx = args.iter().position(|a| a == "--hostlist").unwrap();
    assert!(args[hostlist_idx + 1].contains("youtube.txt"));
}

#[test]
fn test_to_winws_args_multiple_profiles() {
    let loader = StrategyLoader::new("test");
    let mut strategy = create_test_strategy();
    let mut second = blank_profile("udp", "fake");
    second.l7 = Some("quic".to_string());
    second.fake_quic = Some("quic_initial.bin".to_string());
    strategy.profiles.push(second);

    let args = loader.to_winws_args(&strategy, "C:\\test\\hostlists", "C:\\test\\blobs").unwrap();

    assert!(args.contains(&"--new".to_string()));
    let filter_count = args.iter().filter(|a| *a == "--filter").count();
    assert_eq!(filter_count, 2);
}

#[test]
fn test_filter_by_category() {
    let loader = StrategyLoader::new("test");
    let strategies = vec![
        bare_strategy("yt-1", "YouTube 1", StrategyCategory::YouTube),
        bare_strategy("discord-1", "Discord 1", StrategyCategory::Discord),
        bare_strategy("yt-2", "YouTube 2", StrategyCategory::YouTube),
    ];

    let youtube = loader.filter_by_category(&strategies, StrategyCategory::YouTube);
    assert_eq!(youtube.len(), 2);
    assert!(youtube.iter().all(|s| s.category == StrategyCategory::YouTube));

    let discord = loader.filter_by_category(&strategies, StrategyCategory::Discord);
    assert_eq!(discord.len(), 1);
    assert_eq!(discord[0].id, "discord-1");
}

#[test]
fn test_strategy_ports_default() {
    let ports = StrategyPorts::default();
    assert!(ports.tcp.is_none());
    assert!(ports.udp.is_none());
}

#[test]
fn test_profile_to_args() {
    let loader = StrategyLoader::new("test");
    let hostlists_dir = "/hostlists";
    let blobs_dir = "/blobs";

    let mut profile = blank_profile("tcp", "fake,split2");
    profile.hostlist = Some("youtube.txt".to_string());
    profile.hostlist_exclude = Some("exclude.txt".to_string());
    profile.hostlist_domains = Some("example.com,test.com".to_string());
    profile.ipset = Some("ips.txt".to_string());
    profile.l7 = Some("http".to_string());
    profile.ip_id = Some("0x1234".to_string());
    profile.repeats = Some(6);
    profile.split_seqovl = Some(2);
    profile.split_pos = Some("1".to_string());
    profile.split_seqovl_pattern = Some("GET".to_string());
    profile.fooling = Some("md5sig".to_string());
    profile.fake_tls = Some("tls.bin".to_string());
    profile.fake_quic = Some("quic.bin".to_string());
    profile.fake_tls_mod = Some("sni=test.com".to_string());
    profile.autottl = Some("2".to_string());
    profile.cutoff = Some("d4".to_string());
    profile.hostfakesplit_mod = Some("host=ya.ru".to_string());
    profile.hostfakesplit_midhost = Some("mid.host".to_string());
    profile.fakedsplit_mod = Some("test".to_string());

    let mut args = Vec::new();
    loader.add_profile_args(&mut args, &profile, hostlists_dir, blobs_dir).unwrap();

    assert!(args.contains(&"--filter".to_string()));
    assert!(args.contains(&"tcp".to_string()));
    assert!(args.contains(&"--hostlist".to_string()));
    assert!(args.iter().any(|a| a.contains("youtube.txt")));
    assert!(args.contains(&"--hostlist-exclude".to_string()));
    assert!(args.iter().any(|a| a.contains("exclude.txt")));
    assert!(args.contains(&"--hostlist-domains".to_string()));
    assert!(args.contains(&"example.com,test.com".to_string()));
    assert!(args.contains(&"--ipset".to_string()));
    assert!(args.iter().any(|a| a.contains("ips.txt")));
    assert!(args.contains(&"--dpi-desync-l7".to_string()));
    assert!(args.contains(&"http".to_string()));
    assert!(args.contains(&"--dpi-desync-ipid".to_string()));
    assert!(args.contains(&"0x1234".to_string()));
    assert!(args.contains(&"--dpi-desync".to_string()));
    assert!(args.contains(&"fake,split2".to_string()));
    assert!(args.contains(&"--dpi-desync-repeats".to_string()));
    assert!(args.contains(&"6".to_string()));
    assert!(args.contains(&"--dpi-desync-split-seqovl".to_string()));
    assert!(args.contains(&"2".to_string()));
    assert!(args.contains(&"--dpi-desync-split-pos".to_string()));
    assert!(args.contains(&"1".to_string()));
    assert!(args.contains(&"--dpi-desync-split-seqovl-pattern".to_string()));
    assert!(args.contains(&"GET".to_string()));
    assert!(args.contains(&"--dpi-desync-fooling".to_string()));
    assert!(args.contains(&"md5sig".to_string()));
    assert!(args.contains(&"--dpi-desync-fake-tls".to_string()));
    assert!(args.iter().any(|a| a.contains("tls.bin")));
    assert!(args.contains(&"--dpi-desync-fake-quic".to_string()));
    assert!(args.iter().any(|a| a.contains("quic.bin")));
    assert!(args.contains(&"--dpi-desync-autottl".to_string()));
    assert!(args.contains(&"--dpi-desync-cutoff".to_string()));
    assert!(args.contains(&"d4".to_string()));
}

#[test]
fn test_category_display() {
    assert_eq!(StrategyCategory::YouTube.to_string(), "YouTube");
    assert_eq!(StrategyCategory::Discord.to_string(), "Discord");
    assert_eq!(StrategyCategory::Telegram.to_string(), "Telegram");
    assert_eq!(StrategyCategory::General.to_string(), "General");
    assert_eq!(StrategyCategory::Games.to_string(), "Games");
    assert_eq!(StrategyCategory::Warp.to_string(), "Warp");
    assert_eq!(StrategyCategory::Custom.to_string(), "Custom");
}

#[test]
fn test_desync_mode_display_basic() {
    assert_eq!(DesyncMode::Fake.to_string(), "fake");
    assert_eq!(DesyncMode::FakeKnown.to_string(), "fakeknown");
}

#[test]
fn test_desync_mode_display_tcp_handshake() {
    assert_eq!(DesyncMode::SynAck.to_string(), "synack");
    assert_eq!(DesyncMode::SynData.to_string(), "syndata");
}

#[test]
fn test_desync_mode_display_rst() {
    assert_eq!(DesyncMode::Rst.to_string(), "rst");
    assert_eq!(DesyncMode::RstAck.to_string(), "rstack");
}

#[test]
fn test_desync_mode_display_ipv6() {
    assert_eq!(DesyncMode::HopByHop.to_string(), "hopbyhop");
    assert_eq!(DesyncMode::DestOpt.to_string(), "destopt");
}

#[test]
fn test_desync_mode_display_ip_fragmentation() {
    assert_eq!(DesyncMode::IpFrag1.to_string(), "ipfrag1");
    assert_eq!(DesyncMode::IpFrag2.to_string(), "ipfrag2");
}

#[test]
fn test_desync_mode_display_tcp_segmentation() {
    assert_eq!(DesyncMode::MultiSplit.to_string(), "multisplit");
    assert_eq!(DesyncMode::MultiDisorder.to_string(), "multidisorder");
    assert_eq!(DesyncMode::FakedSplit.to_string(), "fakedsplit");
    assert_eq!(DesyncMode::FakedDisorder.to_string(), "fakeddisorder");
    assert_eq!(DesyncMode::HostFakeSplit.to_string(), "hostfakesplit");
}

#[test]
fn test_desync_mode_display_udp_and_tamper() {
    assert_eq!(DesyncMode::UdpLen.to_string(), "udplen");
    assert_eq!(DesyncMode::Tamper.to_string(), "tamper");
}

#[test]
fn test_desync_mode_display_legacy_split() {
    assert_eq!(DesyncMode::Split.to_string(), "split");
    assert_eq!(DesyncMode::Split2.to_string(), "split2");
    assert_eq!(DesyncMode::Disorder.to_string(), "disorder");
    assert_eq!(DesyncMode::Disorder2.to_string(), "disorder2");
}

fn all_modes() -> Vec<(DesyncMode, &'static str)> {
    vec![
        (DesyncMode::Fake, "fake"),
        (DesyncMode::FakeKnown, "fakeknown"),
        (DesyncMode::SynAck, "synack"),
        (DesyncMode::SynData, "syndata"),
        (DesyncMode::Rst, "rst"),
        (DesyncMode::RstAck, "rstack"),
        (DesyncMode::HopByHop, "hopbyhop"),
        (DesyncMode::DestOpt, "destopt"),
        (DesyncMode::IpFrag1, "ipfrag1"),
        (DesyncMode::IpFrag2, "ipfrag2"),
        (DesyncMode::MultiSplit, "multisplit"),
        (DesyncMode::MultiDisorder, "multidisorder"),
        (DesyncMode::FakedSplit, "fakedsplit"),
        (DesyncMode::FakedDisorder, "fakeddisorder"),
        (DesyncMode::HostFakeSplit, "hostfakesplit"),
        (DesyncMode::UdpLen, "udplen"),
        (DesyncMode::Tamper, "tamper"),
        (DesyncMode::Split, "split"),
        (DesyncMode::Split2, "split2"),
        (DesyncMode::Disorder, "disorder"),
        (DesyncMode::Disorder2, "disorder2"),
    ]
}

#[test]
fn test_desync_mode_display_all_modes() {
    for (mode, expected) in all_modes() {
        assert_eq!(mode.to_string(), expected, "DesyncMode::{:?} should display as '{}'", mode, expected);
    }
}

#[test]
fn test_desync_config_default() {
    let config = DesyncConfig::default();
    assert_eq!(config, DesyncConfig::Single(DesyncMode::Fake));
    assert_eq!(config.to_string(), "fake");
}

#[test]
fn test_desync_config_from_str_single_modes() {
    for (mode, input) in all_modes() {
        let config = DesyncConfig::from(input);
        assert_eq!(config, DesyncConfig::Single(mode), "DesyncConfig::from('{}')", input);
    }
}

#[test]
fn test_desync_config_from_str_case_insensitive() {
    assert_eq!(DesyncConfig::from("FAKE"), DesyncConfig::Single(DesyncMode::Fake));
    assert_eq!(DesyncConfig::from("Fake"), DesyncConfig::Single(DesyncMode::Fake));
    assert_eq!(DesyncConfig::from("FaKe"), DesyncConfig::Single(DesyncMode::Fake));
    assert_eq!(DesyncConfig::from("SPLIT2"), DesyncConfig::Single(DesyncMode::Split2));
    assert_eq!(DesyncConfig::from("HopByHop"), DesyncConfig::Single(DesyncMode::HopByHop));
}

#[test]
fn test_desync_config_from_str_combined() {
    let combined = DesyncConfig::from("fake,split2");
    assert_eq!(combined, DesyncConfig::Combined("fake,split2".to_string()));

    let combined2 = DesyncConfig::from("fake,fakedsplit");
    assert_eq!(combined2, DesyncConfig::Combined("fake,fakedsplit".to_string()));

    let combined3 = DesyncConfig::from("syndata,fake,split2");
    assert_eq!(combined3, DesyncConfig::Combined("syndata,fake,split2".to_string()));
}

#[test]
fn test_desync_config_from_str_unknown() {
    let unknown = DesyncConfig::from("unknownmode");
    assert_eq!(unknown, DesyncConfig::Combined("unknownmode".to_string()));

    let unknown2 = DesyncConfig::from("custom_mode");
    assert_eq!(unknown2, DesyncConfig::Combined("custom_mode".to_string()));
}

#[test]
fn test_desync_config_from_string() {
    let config = DesyncConfig::from(String::from("fake"));
    assert_eq!(config, DesyncConfig::Single(DesyncMode::Fake));

    let config2 = DesyncConfig::from(String::from("fake,split2"));
    assert_eq!(config2, DesyncConfig::Combined("fake,split2".to_string()));
}

#[test]
fn test_desync_config_display_single() {
    let config = DesyncConfig::Single(DesyncMode::Fake);
    assert_eq!(config.to_string(), "fake");
    let config2 = DesyncConfig::Single(DesyncMode::Split2);
    assert_eq!(config2.to_string(), "split2");
    let config3 = DesyncConfig::Single(DesyncMode::FakedSplit);
    assert_eq!(config3.to_string(), "fakedsplit");
}

#[test]
fn test_desync_config_display_combined() {
    let config = DesyncConfig::Combined("fake,split2".to_string());
    assert_eq!(config.to_string(), "fake,split2");
    let config2 = DesyncConfig::Combined("syndata,fake,fakedsplit".to_string());
    assert_eq!(config2.to_string(), "syndata,fake,fakedsplit");
}

#[test]
fn test_desync_config_roundtrip() {
    let inputs = vec!["fake", "split2", "fakedsplit", "fake,split2", "syndata,fake,split2"];
    for input in inputs {
        let config = DesyncConfig::from(input);
        let output = config.to_string();
        if input.contains(',') {
            assert_eq!(output, input);
        } else {
            assert_eq!(output, input.to_lowercase());
        }
    }
}

// ---- further cases ----

#[test]
fn profile_args_exact_order_and_numbers() {
    let mut p = blank_profile("tcp", "fake");
    p.badseq_increment = Some(-10000);
    p.dup = Some(true);
    p.dup_replace = Some(false);
    p.ttl6 = Some(3);
    p.orig_ttl = Some(9);
    let mut args = Vec::new();
    StrategyLoader::new("d").add_profile_args(&mut args, &p, "h", "b").unwrap();
    assert_eq!(
        args,
        vec![
            "--filter", "tcp", "--dpi-desync", "fake", "--dpi-desync-ttl6", "3",
            "--dpi-desync-badseq-increment", "-10000", "--dpi-desync-dup",
        ]
    );
}

#[test]
fn winws_args_without_ports_or_profiles_is_empty() {
    let s = bare_strategy("x", "X", StrategyCategory::Warp);
    assert!(StrategyLoader::new("d").to_winws_args(&s, "h", "b").unwrap().is_empty());
}

#[test]
fn path_arguments_are_joined_to_their_directory() {
    let mut p = blank_profile("udp", "fake");
    p.fake_quic = Some("quic.bin".to_string());
    let mut args = Vec::new();
    StrategyLoader::new("d").add_profile_args(&mut args, &p, "/hl", "/blobs").unwrap();
    assert_eq!(args[args.len() - 1], "/blobs/quic.bin");
}

use isolate_core::combiner::{StrategyCombiner, StrategySelection};
use isolate_core::loader::{JsonStrategy, StrategyCategory, StrategyLoader, StrategyPorts, StrategyProfile};

fn blank_profile(filter: &str, desync: &str) -> StrategyProfile {
    StrategyProfile {
        filter: filter.to_string(),
        hostlist: None,
        hostlist_exclude: None,
        hostlist_domains: None,
        ipset: None,
        ipset_exclude: None,
        l7: None,
        ip_id: None,
        desync: desync.to_string(),
        repeats: None,
        split_seqovl: None,
        split_pos: None,
        split_seqovl_pattern: None,
        fooling: None,
        fake_tls: None,
        fake_quic: None,
        fake_tls_mod: None,
        fake_wireguard: None,
        fake_dht: None,
        fake_unknown_udp: None,
        fake_tcp_mod: None,
        fake_syndata: None,
        ttl: None,
        ttl6: None,
        autottl: None,
        badseq_increment: None,
        badack_increment: None,
        ts_increment: None,
        cutoff: None,
        hostfakesplit_mod: None,
        hostfakesplit_midhost: None,
        fakedsplit_mod: None,
        wsize: None,
        wssize: None,
        wssize_cutoff: None,
        filter_l3: None,
        filter_ssid: None,
        nlm_filter: None,
        dup: None,
        dup_replace: None,
        dup_ttl: None,
        dup_autottl: None,
        dup_fooling: None,
        dup_start: None,
        dup_cutoff: None,
        orig_ttl: None,
        orig_autottl: None,
        orig_tcp_flags_set: None,
        orig_tcp_flags_unset: None,
        orig_mod_start: None,
        orig_mod_cutoff: None,
    }
}

fn create_test_strategy(id: &str, category: StrategyCategory, tcp: &str, udp: &str) -> JsonStrategy {
    let mut profile = blank_profile("tcp", "fake,split2");
    profile.hostlist = Some(format!("{}.txt", id));
    profile.l7 = Some("http".to_string());
    profile.repeats = Some(6);
    JsonStrategy {
        id: id.to_string(),
        name: format!("{} Strategy", id),
        description: format!("Test strategy for {}", id),
        category,
        family: "zapret".to_string(),
        author: None,
        label: None,
        ports: StrategyPorts {
            tcp: if tcp.is_empty() { None } else { Some(tcp.to_string()) },
            udp: if udp.is_empty() { None } else { Some(udp.to_string()) },
        },
        profiles: vec![profile],
    }
}

#[test]
fn test_strategy_selection_default() {
    let selection = StrategySelection::default();
    assert!(selection.is_empty());
    assert!(selection.get_selected_ids().is_empty());
}

#[test]
fn test_strategy_selection_with_values() {
    let selection = StrategySelection {
        youtube: Some("yt-1".to_string()),
        discord: Some("discord-1".to_string()),
        telegram: None,
        games: None,
        custom: None,
    };

    assert!(!selection.is_empty());
    let ids = selection.get_selected_ids();
    assert_eq!(ids.len(), 2);
    assert!(ids.contains(&"yt-1"));
    assert!(ids.contains(&"discord-1"));
}

#[test]
fn test_strategy_selection_with_custom() {
    let selection = StrategySelection {
        youtube: None,
        discord: None,
        telegram: None,
        games: None,
        custom: Some("my-custom".to_string()),
    };

    assert!(!selection.is_empty());
    let ids = selection.get_selected_ids();
    assert_eq!(ids.len(), 1);
    assert!(ids.contains(&"my-custom"));
}

#[test]
fn test_combine_single_strategy() {
    let strategies = vec![create_test_strategy("youtube_only", StrategyCategory::YouTube, "80,443", "443")];

    let combiner = StrategyCombiner::new(strategies, "hostlists", "blobs");
    let selection = StrategySelection { youtube: Some("youtube_only".to_string()), ..Default::default() };

    let combined = combiner.combine(&selection).unwrap();

    assert_eq!(combined.categories.len(), 1);
    assert_eq!(combined.categories[0], "YouTube");
    assert!(combined.tcp_ports.contains("80"));
    assert!(combined.tcp_ports.contains("443"));
    assert_eq!(combined.udp_ports, "443");
    assert!(combined.args.contains(&"--wf-tcp".to_string()));
    assert!(combined.args.contains(&"--dpi-desync".to_string()));
}

#[test]
fn test_combine_multiple_strategies() {
    let strategies = vec![
        create_test_strategy("youtube_only", StrategyCategory::YouTube, "80,443", "443"),
        create_test_strategy("discord_only", StrategyCategory::Discord, "443", "50000-50100"),
    ];

    let combiner = StrategyCombiner::new(strategies, "hostlists", "blobs");
    let selection = StrategySelection {
        youtube: Some("youtube_only".to_string()),
        discord: Some("discord_only".to_string()),
        ..Default::default()
    };

    let combined = combiner.combine(&selection).unwrap();

    assert_eq!(combined.categories.len(), 2);
    assert!(combined.categories.contains(&"YouTube".to_string()));
    assert!(combined.categories.contains(&"Discord".to_string()));

    assert!(combined.tcp_ports.contains("443"));
    assert!(combined.tcp_ports.contains("80"));
    assert!(combined.udp_ports.contains("443"));
    assert!(combined.udp_ports.contains("50000-50100"));

    assert!(combined.args.contains(&"--new".to_string()));
}

#[test]
fn test_combine_empty_selection() {
    let strategies = vec![create_test_strategy("youtube_only", StrategyCategory::YouTube, "443", "443")];

    let combiner = StrategyCombiner::new(strategies, "hostlists", "blobs");
    let selection = StrategySelection::default();

    let result = combiner.combine(&selection);
    assert!(result.is_err());
}

#[test]
fn test_combine_nonexistent_strategy() {
    let strategies = vec![create_test_strategy("youtube_only", StrategyCategory::YouTube, "443", "443")];

    let combiner = StrategyCombiner::new(strategies, "hostlists", "blobs");
    let selection = StrategySelection { youtube: Some("nonexistent".to_string()), ..Default::default() };

    let result = combiner.combine(&selection);
    assert!(result.is_err());
}

#[test]
fn test_merge_ports_deduplication() {
    let strategies = vec![
        create_test_strategy("s1", StrategyCategory::YouTube, "80,443", "443"),
        create_test_strategy("s2", StrategyCategory::Discord, "443,8080", "443,50000"),
    ];

    let combiner = StrategyCombiner::new(strategies.clone(), "hostlists", "blobs");
    let refs: Vec<&JsonStrategy> = strategies.iter().collect();
    let (tcp, udp) = combiner.merge_ports(&refs);

    assert_eq!(tcp.matches("443").count(), 1);
    assert!(tcp.contains("80"));
    assert!(tcp.contains("8080"));

    assert_eq!(udp.matches("443").count(), 1);
    assert!(udp.contains("50000"));
}

#[test]
fn test_merge_ports_sorting() {
    let strategies = vec![create_test_strategy("s1", StrategyCategory::YouTube, "8080,443,80", "50000-50100,443")];

    let combiner = StrategyCombiner::new(strategies.clone(), "hostlists", "blobs");
    let refs: Vec<&JsonStrategy> = strategies.iter().collect();
    let (tcp, _udp) = combiner.merge_ports(&refs);

    let tcp_parts: Vec<&str> = tcp.split(',').collect();
    assert_eq!(tcp_parts[0], "80");
    assert_eq!(tcp_parts[1], "443");
    assert_eq!(tcp_parts[2], "8080");
}

#[test]
fn test_get_strategies_for_category() {
    let strategies = vec![
        create_test_strategy("yt-1", StrategyCategory::YouTube, "443", "443"),
        create_test_strategy("yt-2", StrategyCategory::YouTube, "443", "443"),
        create_test_strategy("discord-1", StrategyCategory::Discord, "443", "443"),
    ];

    let combiner = StrategyCombiner::new(strategies, "hostlists", "blobs");

    let youtube_strategies = combiner.get_strategies_for_category("youtube");
    assert_eq!(youtube_strategies.len(), 2);

    let discord_strategies = combiner.get_strategies_for_category("discord");
    assert_eq!(discord_strategies.len(), 1);

    let telegram_strategies = combiner.get_strategies_for_category("telegram");
    assert_eq!(telegram_strategies.len(), 0);
}

#[test]
fn test_get_strategies_for_category_case_insensitive() {
    let strategies = vec![create_test_strategy("yt-1", StrategyCategory::YouTube, "443", "443")];

    let combiner = StrategyCombiner::new(strategies, "hostlists", "blobs");

    assert_eq!(combiner.get_strategies_for_category("YouTube").len(), 1);
    assert_eq!(combiner.get_strategies_for_category("youtube").len(), 1);
    assert_eq!(combiner.get_strategies_for_category("YOUTUBE").len(), 1);
}

#[test]
fn test_generate_description() {
    let combiner = StrategyCombiner::new(vec![], "hostlists", "blobs");

    let desc1 = combiner.generate_description(&["YouTube".to_string()]);
    assert_eq!(desc1, "DPI bypass for YouTube");

    let desc2 = combiner.generate_description(&["YouTube".to_string(), "Discord".to_string()]);
    assert_eq!(desc2, "Combined DPI bypass for YouTube and Discord");

    let desc3 = combiner.generate_description(&[
        "YouTube".to_string(),
        "Discord".to_string(),
        "Telegram".to_string(),
    ]);
    assert_eq!(desc3, "Combined DPI bypass for YouTube, Discord and Telegram");
}

#[test]
fn test_generate_name() {
    let combiner = StrategyCombiner::new(vec![], "hostlists", "blobs");

    let name1 = combiner.generate_name(&["YouTube".to_string()]);
    assert_eq!(name1, "YouTube Strategy");

    let name2 = combiner.generate_name(&["YouTube".to_string(), "Discord".to_string()]);
    assert_eq!(name2, "Combined: YouTube + Discord");
}

#[test]
fn test_merge_profiles() {
    let strategies = vec![
        create_test_strategy("s1", StrategyCategory::YouTube, "443", "443"),
        create_test_strategy("s2", StrategyCategory::Discord, "443", "443"),
    ];

    let combiner = StrategyCombiner::new(strategies.clone(), "hostlists", "blobs");
    let refs: Vec<&JsonStrategy> = strategies.iter().collect();
    let profiles = combiner.merge_profiles(&refs);

    assert_eq!(profiles.len(), 2);
}

#[test]
fn merged_ports_put_numbers_before_names_and_keep_one_of_each() {
    let strategies = vec![
        create_test_strategy("a", StrategyCategory::YouTube, " 443 , http,80", ""),
        create_test_strategy("b", StrategyCategory::Discord, "50000-50100, 80,alpha", "1-5"),
    ];
    let combiner = StrategyCombiner::new(strategies.clone(), "h", "b");
    let refs: Vec<&JsonStrategy> = strategies.iter().collect();
    let (tcp, udp) = combiner.merge_ports(&refs);
    assert_eq!(tcp, "80,443,50000-50100,alpha,http");
    assert_eq!(udp, "1-5");
}

#[test]
fn combined_args_start_with_port_filters_and_separate_profiles() {
    let strategies = vec![
        create_test_strategy("a", StrategyCategory::YouTube, "443", ""),
        create_test_strategy("b", StrategyCategory::Discord, "80", ""),
    ];
    let combiner = StrategyCombiner::new(strategies.clone(), "h", "b");
    let refs: Vec<&JsonStrategy> = strategies.iter().collect();
    let args = combiner.generate_combined_args(&refs, "80,443", "").unwrap();
    assert_eq!(args[0], "--wf-tcp");
    assert_eq!(args[1], "80,443");
    assert_eq!(args[2], "--filter");
    assert_eq!(args[3], "tcp");
    assert_eq!(args.iter().filter(|a| a.as_str() == "--new").count(), 1);
    assert!(!args.contains(&"--wf-udp".to_string()));
    let repeats = args.iter().position(|a| a == "--dpi-desync-repeats").unwrap();
    assert_eq!(args[repeats + 1], "6");
}

#[test]
fn combine_skips_unknown_ids_and_names_the_rest() {
    let strategies = vec![
        create_test_strategy("yt", StrategyCategory::YouTube, "443", ""),
        create_test_strategy("tg", StrategyCategory::Telegram, "443", ""),
        create_test_strategy("gm", StrategyCategory::Games, "27015", "27015"),
    ];
    let combiner = StrategyCombiner::new(strategies, "h", "b");
    let selection = StrategySelection {
        youtube: Some("yt".to_string()),
        discord: Some("missing".to_string()),
        telegram: Some("tg".to_string()),
        games: Some("gm".to_string()),
        custom: None,
    };
    let combined = combiner.combine(&selection).unwrap();
    assert_eq!(combined.categories, vec!["YouTube", "Telegram", "Games"]);
    assert_eq!(combined.name, "Combined: YouTube + Telegram + Games");
    assert_eq!(combined.description, "Combined DPI bypass for YouTube, Telegram and Games");
    assert_eq!(combined.tcp_ports, "443,27015");
    assert_eq!(combined.udp_ports, "27015");
}

#[test]
fn combine_errors_name_their_cause() {
    let combiner = StrategyCombiner::new(vec![], "h", "b");
    let empty = combiner.combine(&StrategySelection::new()).err().unwrap();
    assert_eq!(empty.to_string(), "No strategies selected");
    let sel = StrategySelection { custom: Some("x".to_string()), ..Default::default() };
    let missing = combiner.combine(&sel).err().unwrap();
    assert_eq!(missing.to_string(), "None of the selected strategies were found");
}

#[test]
fn generate_description_and_name_edge_cases() {
    let combiner = StrategyCombiner::new(vec![], "h", "b");
    assert_eq!(combiner.generate_description(&[]), "No categories selected");
    assert_eq!(combiner.generate_name(&[]), "Combined: ");
}

#[test]
fn combined_profile_has_every_option_of_the_profile() {
    let mut profile = blank_profile("tcp", "fake");
    profile.ttl = Some(5);
    profile.wsize = Some("1:6".to_string());
    let combiner = StrategyCombiner::new(vec![], "h", "b");
    let mut combined = vec!["--wf-tcp".to_string(), "443".to_string()];
    combiner.add_profile_args(&mut combined, &profile).unwrap();
    let mut alone = vec!["--wf-tcp".to_string(), "443".to_string()];
    StrategyLoader::new("s").add_profile_args(&mut alone, &profile, "h", "b").unwrap();
    assert_eq!(combined, alone);
    let ttl = combined.iter().position(|a| a == "--dpi-desync-ttl").unwrap();
    assert_eq!(combined[ttl + 1], "5");
    let wsize = combined.iter().position(|a| a == "--wsize").unwrap();
    assert_eq!(combined[wsize + 1], "1:6");
}

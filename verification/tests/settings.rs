use alto_coro::celestia::{
    celestia_config_value, endpoints, env_file_from, env_value, key_file, namespace,
    parse_env_file, private_key_hex, private_key_hex_from_file, read_only_endpoint,
    try_celestia_config_value, try_endpoints, try_namespace, try_read_only_endpoint, EnvFile,
    NamespaceError, ProcessEnv,
};
use alto_coro::config::{
    chain_config, default_block_time_ms, default_confirmation_mode, default_env_file,
    default_grpc_url_env, default_history_listen, default_log_level, default_max_delay_ms,
    default_max_metadata_bytes, default_max_output_bytes, default_max_payload_bytes,
    default_max_tx_bytes, default_max_txs, default_partition_prefix, default_private_key_env,
    default_publish_concurrency, default_publish_queue, default_read_timeout_ms,
    default_readback_timeout_ms, default_replica_partition_prefix, default_replica_storage_dir,
    default_rpc_url_env, default_serve_payloads, default_signer_seed, default_storage_dir,
    default_sync_interval_ms, default_worker_threads, publisher_config, reader_config,
    replica_config, sequencer_config, try_chain_config, BatchConfig, CelestiaConfig,
    ConfirmationMode, RetryConfig, VerificationMode,
};
use alto_coro::crypto::{public_key_from_hex, sha256, signer, try_signer, KeyError, PrivateKey};
use alto_coro::hex::{from_hex, hex, hex29, hex32};
use alto_coro::text::{parse_decimal, push_decimal, Strip};

fn no_process() -> ProcessEnv {
    ProcessEnv { rpc_url: None, grpc_url: None, private_key: None }
}

#[test]
fn white_space_is_what_unicode_says() {
    for code in 0..=0x10ffffu32 {
        if let Some(c) = char::from_u32(code) {
            assert_eq!(Strip::WhiteSpace.strips(c), c.is_whitespace(), "{code:x}");
        }
    }
    assert!(Strip::Only('x').strips('x'));
    assert!(!Strip::Only('x').strips(' '));
}

#[test]
fn decimal_numbers_round_trip() {
    for n in [0u64, 1, 9, 10, 99, 100, 12_345, u64::MAX - 1, u64::MAX] {
        let mut text = String::new();
        push_decimal(&mut text, n);
        assert_eq!(text, n.to_string());
        assert_eq!(parse_decimal(&text), Some(n));
    }
}

#[test]
fn decimal_numbers_are_read_like_std_reads_them() {
    for text in [
        "", "+", "-1", "+5", "++5", "5+", " 5", "5 ", "007", "18446744073709551615",
        "18446744073709551616", "99999999999999999999999", "1_000", "0x10", "\u{0665}", "1a",
    ] {
        assert_eq!(parse_decimal(text), text.parse::<u64>().ok(), "{text:?}");
    }
}

#[test]
fn hexadecimal_text_round_trips() {
    assert_eq!(hex(&[]), "");
    assert_eq!(hex(&[0x00, 0x0f, 0xa5, 0xff]), "000fa5ff");
    let all: Vec<u8> = (0..=255).collect();
    assert_eq!(from_hex(&hex(&all)), Some(all));
    assert_eq!(hex32([0xab; 32]), "ab".repeat(32));
    assert_eq!(hex29([0x01; 29]), "01".repeat(29));
}

#[test]
fn hexadecimal_text_is_read_generously() {
    assert_eq!(from_hex("0x0aFF"), Some(vec![0x0a, 0xff]));
    assert_eq!(from_hex("0X0aFF"), Some(vec![0x0a, 0xff]));
    assert_eq!(from_hex("0X0x0aFF"), Some(vec![0x0a, 0xff]));
    assert_eq!(from_hex("0X0X0aFF"), Some(vec![0x0a, 0xff]));
    assert_eq!(from_hex("0x0x0a"), None);
    assert_eq!(from_hex("0x0X0a"), None);
    assert_eq!(from_hex(" 0 x\t0\na\r"), Some(vec![0x0a]));
    assert_eq!(from_hex(""), Some(vec![]));
    assert_eq!(from_hex("0x"), Some(vec![]));
    assert_eq!(from_hex("abc"), None);
    assert_eq!(from_hex("gg"), None);
    assert_eq!(from_hex("a\u{b}b"), None);
    assert_eq!(from_hex("\u{e9}"), None);
}

#[test]
fn hashes_are_sha256() {
    assert_eq!(
        hex32(sha256(b"")),
        "e3b0c44298fc1c149afbf4c8996fb92427ae41e4649b934ca495991b7852b855"
    );
    assert_eq!(
        hex32(sha256(b"abc")),
        "ba7816bf8f01cfea414140de5dae2223b00361a396177a9cb410ff61f20015ad"
    );
}

const SECRET: &str = "9d61b19deffd5a60ba844af492ec2cc44449c5697b326919703bac031cae7f60";
const PUBLIC: &str = "d75a980182b10ab7d54bfed3c964073a0ee172f3daa62325af021a68f707511a";

#[test]
fn public_keys_belong_to_private_keys() {
    let key = PrivateKey::from_exact_hex(SECRET);
    assert_eq!(PrivateKey::try_from_exact_hex(SECRET).ok().unwrap().secret, key.secret);
    assert_eq!(hex32(key.secret), SECRET);
    assert_eq!(hex32(key.public_key()), PUBLIC);
    assert_eq!(public_key_from_hex(PUBLIC), Ok(key.public_key()));
    assert_eq!(
        PrivateKey::from_seed(7).public_key(),
        PrivateKey::from_seed(7).public_key()
    );
    assert_ne!(
        PrivateKey::from_seed(7).public_key(),
        PrivateKey::from_seed(8).public_key()
    );
    assert_ne!(PrivateKey::from_seed(7).public_key(), PrivateKey::from_seed(7).secret);
}

#[test]
fn keys_must_be_keys() {
    let error = |text: &str| PrivateKey::try_from_exact_hex(text).err();
    assert_eq!(error("xyz"), Some(KeyError::NotHex));
    assert_eq!(error("00"), Some(KeyError::Invalid));
    assert_eq!(error(&"00".repeat(33)), Some(KeyError::Invalid));
    assert_eq!(public_key_from_hex("xyz"), Err(KeyError::NotHex));
    assert_eq!(public_key_from_hex(&PUBLIC[2..]), Err(KeyError::Invalid));
    assert_eq!(public_key_from_hex(&format!("{PUBLIC}00")), Err(KeyError::Invalid));
    assert_eq!(
        public_key_from_hex(&format!("02{}", "00".repeat(31))),
        Err(KeyError::Invalid)
    );
}

#[test]
fn signers_come_from_a_key_or_a_seed() {
    assert_eq!(signer(&None, 5).secret, PrivateKey::from_seed(5).secret);
    assert_eq!(hex32(signer(&Some(SECRET.to_string()), 5).secret), SECRET);
    let longer = format!("{SECRET}ffff");
    assert_eq!(hex32(signer(&Some(longer), 5).secret), SECRET);
    let error = |text: &str| try_signer(&Some(text.to_string()), 5).err();
    assert_eq!(error("private"), Some(KeyError::NotHex));
    assert_eq!(error(&SECRET[2..]), Some(KeyError::Invalid));
}

fn get(file: &EnvFile, name: &str) -> Option<String> {
    file.get(name).cloned()
}

#[test]
fn env_files_are_read_line_by_line() {
    let file = parse_env_file(
        "# comment\nA=1\r\n  B = \"two words\" \n\nC='3'\nD=\nnothing here\n#E=5\nA = 2\nF=a=b\n=g\nH=\"'q'\"\nI=\"'",
    );
    assert_eq!(get(&file, "A").as_deref(), Some("2"));
    assert_eq!(get(&file, "B").as_deref(), Some("two words"));
    assert_eq!(get(&file, "C").as_deref(), Some("3"));
    assert_eq!(get(&file, "D").as_deref(), Some(""));
    assert_eq!(get(&file, "E"), None);
    assert_eq!(get(&file, "nothing here"), None);
    assert_eq!(get(&file, "F").as_deref(), Some("a=b"));
    assert_eq!(get(&file, "").as_deref(), Some("g"));
    assert_eq!(get(&file, "H").as_deref(), Some("q"));
    assert_eq!(get(&file, "I").as_deref(), Some(""));
    assert_eq!(get(&parse_env_file(""), "A"), None);
    assert_eq!(get(&env_file_from(None), "A"), None);
    let text = "A=9".to_string();
    assert_eq!(get(&env_file_from(Some(&text)), "A").as_deref(), Some("9"));
}

#[test]
fn variables_of_the_process_come_first() {
    let file = parse_env_file("NAME=file\nEMPTY=");
    let process = "process".to_string();
    let empty = String::new();
    assert_eq!(env_value("NAME", Some(&process), &file).as_deref(), Some("process"));
    assert_eq!(env_value("NAME", Some(&empty), &file).as_deref(), Some("file"));
    assert_eq!(env_value("NAME", None, &file).as_deref(), Some("file"));
    assert_eq!(env_value("EMPTY", None, &file), None);
    assert_eq!(env_value("OTHER", None, &file), None);
}

#[test]
fn inline_settings_come_before_variables() {
    let file = parse_env_file("URL=file");
    let inline = "inline".to_string();
    let empty = String::new();
    let name = "URL".to_string();
    assert_eq!(
        celestia_config_value(Some(&inline), Some(&name), None, &file),
        "inline"
    );
    assert_eq!(
        celestia_config_value(Some(&empty), Some(&name), None, &file),
        "file"
    );
    assert_eq!(
        try_celestia_config_value(None, None, None, &file, "celestia.rpc_url"),
        Err("set celestia.rpc_url or its configured env var".to_string())
    );
}

#[test]
fn key_files_hold_a_key_or_assign_one() {
    assert_eq!(private_key_hex_from_file("  abcd\n"), "abcd");
    assert_eq!(
        private_key_hex_from_file("OTHER=1\r\nCELESTIA_PRIVATE_KEY_HEX = \"ef01\"\r\n"),
        "ef01"
    );
    assert_eq!(
        private_key_hex_from_file("CELESTIA_PRIVATE_KEY_HEX=a\nCELESTIA_PRIVATE_KEY_HEX=b"),
        "a"
    );
    assert_eq!(
        private_key_hex_from_file("CELESTIA_PRIVATE_KEY_HEX=\nCELESTIA_PRIVATE_KEY_HEX=b\n"),
        "CELESTIA_PRIVATE_KEY_HEX=\nCELESTIA_PRIVATE_KEY_HEX=b"
    );
    assert_eq!(private_key_hex_from_file("KEY=a"), "KEY=a");
    assert_eq!(private_key_hex_from_file(""), "");
}

#[test]
fn generated_keys_can_be_used() {
    let contents = key_file(&[0x0a, 0xbc]);
    assert_eq!(contents, "CELESTIA_PRIVATE_KEY_HEX=0abc\n");
    assert_eq!(private_key_hex_from_file(&contents), "0abc");
    let file = parse_env_file(&contents);
    assert_eq!(get(&file, "CELESTIA_PRIVATE_KEY_HEX").as_deref(), Some("0abc"));
}

#[test]
fn private_keys_are_looked_for_in_order() {
    let file = parse_env_file("CELESTIA_PRIVATE_KEY_HEX=env");
    let contents = "file\n".to_string();
    let mut config = CelestiaConfig::default();
    assert_eq!(private_key_hex(&config, Some(&contents), None, &file), "env");
    config.private_key_file = Some("key".to_string());
    assert_eq!(private_key_hex(&config, Some(&contents), None, &file), "file");
    assert_eq!(private_key_hex(&config, None, None, &file), "env");
    config.private_key_hex = Some(String::new());
    assert_eq!(private_key_hex(&config, Some(&contents), None, &file), "");
}

#[test]
fn endpoints_name_the_first_thing_missing() {
    let mut config = CelestiaConfig::default();
    let error = |config: &CelestiaConfig, text: &str| {
        try_endpoints(config, None, &no_process(), &parse_env_file(text)).err().unwrap()
    };
    assert_eq!(
        error(&config, ""),
        "set celestia.rpc_url or its configured env var"
    );
    assert_eq!(
        error(&config, "CELESTIA_RPC_URL=rpc"),
        "set celestia.grpc_url or its configured env var"
    );
    assert_eq!(
        error(&config, "CELESTIA_RPC_URL=rpc\nCELESTIA_GRPC_URL=grpc"),
        "set celestia.private_key_hex, celestia.private_key_file, or CELESTIA_PRIVATE_KEY_HEX"
    );
    config.grpc_url = Some("inline".to_string());
    let file = parse_env_file("CELESTIA_RPC_URL=rpc\nCELESTIA_PRIVATE_KEY_HEX=key");
    let process = ProcessEnv { rpc_url: Some("process".to_string()), ..no_process() };
    for found in [
        endpoints(&config, None, &process, &file),
        try_endpoints(&config, None, &process, &file).ok().unwrap(),
    ] {
        assert_eq!(found.rpc_url, "process");
        assert_eq!(found.grpc_url, "inline");
        assert_eq!(found.private_key_hex, "key");
    }
    assert_eq!(read_only_endpoint(&config, &no_process(), &file), "rpc");
    assert_eq!(
        try_read_only_endpoint(&config, &no_process(), &file),
        Ok("rpc".to_string())
    );
    assert_eq!(
        try_read_only_endpoint(&config, &no_process(), &EnvFile::empty()),
        Err("set celestia.rpc_url or its configured env var".to_string())
    );
}

#[test]
fn namespaces_are_whole_or_a_suffix() {
    let mut expected = [0u8; 29];
    expected[19..].copy_from_slice(&[0x00, 0x00, 0x00, 0x8e, 0x5f, 0x67, 0x9b, 0xf7, 0x11, 0x6c]);
    assert_eq!(namespace("0000008e5f679bf7116c"), expected);
    assert_eq!(namespace(&hex29(expected)), expected);
    assert_eq!(try_namespace("namespace"), Err(NamespaceError::NotHex));
    assert_eq!(try_namespace("0102"), Err(NamespaceError::Length(2)));
    assert_eq!(NamespaceError::NotHex.message(), "namespace must be hex");
    assert_eq!(
        NamespaceError::Length(12).message(),
        "namespace must be 10-byte suffix or full 29-byte namespace, got 12 bytes"
    );
}

#[test]
fn defaults_are_documented_values() {
    assert_eq!(default_storage_dir(), "local/alto-coro-sequencer");
    assert_eq!(default_replica_storage_dir(), "local/alto-coro-replica");
    assert_eq!(default_partition_prefix(), "alto-coro-sequencer");
    assert_eq!(default_replica_partition_prefix(), "alto-coro-replica");
    assert_eq!(default_worker_threads(), 2);
    assert_eq!(default_log_level(), "info");
    assert_eq!(default_history_listen(), "127.0.0.1:8081");
    assert_eq!(default_signer_seed(), 0);
    assert_eq!(default_max_txs(), 1);
    assert_eq!(default_max_payload_bytes(), 1024 * 1024);
    assert_eq!(default_max_tx_bytes(), 4096);
    assert_eq!(default_max_metadata_bytes(), 128);
    assert_eq!(default_max_output_bytes(), 128);
    assert_eq!(default_max_delay_ms(), 1_000);
    assert_eq!(default_readback_timeout_ms(), 60_000);
    assert_eq!(default_read_timeout_ms(), 60_000);
    assert_eq!(default_block_time_ms(), 500);
    assert_eq!(default_sync_interval_ms(), 1_000);
    assert!(default_serve_payloads());
    assert_eq!(default_confirmation_mode(), ConfirmationMode::Soft);
    assert_eq!(default_publish_queue(), 1024);
    assert_eq!(default_publish_concurrency(), 8);
    assert_eq!(default_env_file().as_deref(), Some(".env"));
    assert_eq!(default_rpc_url_env().as_deref(), Some("CELESTIA_RPC_URL"));
    assert_eq!(default_grpc_url_env().as_deref(), Some("CELESTIA_GRPC_URL"));
    assert_eq!(
        default_private_key_env().as_deref(),
        Some("CELESTIA_PRIVATE_KEY_HEX")
    );
    let config = CelestiaConfig::default();
    assert_eq!(config.env_file.as_deref(), Some(".env"));
    assert_eq!(config.namespace, "00000000000000000000");
    assert!(config.rpc_url.is_none() && config.grpc_url.is_none());
    assert!(config.private_key_hex.is_none() && config.private_key_file.is_none());
}

#[test]
fn engine_settings_follow_from_the_file() {
    let batch = BatchConfig {
        max_txs: 3,
        max_delay_ms: 70,
        readback_timeout_ms: 80,
        read_timeout_ms: 90,
        ..BatchConfig::default()
    };
    let mut celestia = CelestiaConfig::default();
    let chain = chain_config(&celestia, &batch);
    assert_eq!(chain.namespace, [0u8; 29]);
    assert_eq!(chain.max_payload_bytes, 1024 * 1024);
    celestia.namespace = "zz".to_string();
    assert_eq!(
        try_chain_config(&celestia, &batch),
        Err(NamespaceError::NotHex)
    );

    let publisher = publisher_config("prefix", &chain, &batch);
    assert_eq!(publisher.partition, "prefix-publisher");
    assert_eq!(publisher.chain, chain);
    assert_eq!(
        publisher.retry,
        RetryConfig {
            initial_backoff_ms: 500,
            max_backoff_ms: 5_000,
            max_attempts: Some(20)
        }
    );
    assert_eq!(publisher.readback_timeout_ms, 80);

    let reader = reader_config(&chain, &batch);
    assert_eq!(reader.verification, VerificationMode::RpcIncluded);
    assert_eq!(reader.read_timeout_ms, 90);

    let sequencer = sequencer_config("prefix", &batch);
    assert_eq!(sequencer.partition, "prefix-sequencer");
    assert_eq!(sequencer.batch_policy.max_txs, 3);
    assert_eq!(sequencer.batch_policy.max_delay_ms, 70);
    assert_eq!(sequencer.max_tx_bytes, 4096);
    assert_eq!(sequencer.max_metadata_bytes, 128);

    let replica = replica_config("prefix", &batch);
    assert_eq!(replica.partition, "prefix-replica");
    assert_eq!(replica.max_payload_bytes, 1024 * 1024);
    assert_eq!(replica.max_metadata_bytes, 128);
    assert_eq!(replica.max_output_bytes, 128);
}

use backflow::config::keyexpr_remap_serde::{serialize, RemapValue};
use backflow::config::{
    config_paths, config_paths_for, default_brokenithm_enabled, default_brokenithm_host,
    default_brokenithm_port, default_chuniio_proxy_enabled, default_chuniio_proxy_socket_path,
    default_slider_lights, default_unix_socket_path, default_web_enabled, default_web_enabled_bool,
    default_web_host, default_web_port, proxy_socket_path_for, unix_socket_path_for, AppConfig,
    BrokenithmConfig, BrokenithmIdeviceConfig, BrokenithmUdpConfig, ChuniIoRgbConfig,
    ChuniioProxyConfig, ConfigFile, DeviceConfig, FeedbackConfig, InputConfig, OutputConfig,
    UInputConfig, UnixDomainSocketConfig, WebBackend,
};
use backflow::device_filter::KeyExpr;
use backflow::environment::{runtime_dir, runtime_dir_for};
use backflow::table::Table;

fn text(table: &toml::Table, key: &str) -> Option<String> {
    table.get(key).map(|v| v.as_str().unwrap().to_string())
}

fn flag(table: &toml::Table, key: &str) -> Option<bool> {
    table.get(key).map(|v| v.as_bool().unwrap())
}

fn number(table: &toml::Table, key: &str) -> Option<u32> {
    table.get(key).map(|v| v.as_integer().unwrap() as u32)
}

fn section<'a>(table: &'a toml::Table, key: &str) -> Option<&'a toml::Table> {
    table.get(key).map(|v| v.as_table().unwrap())
}

fn remap_value(value: &toml::Value) -> RemapValue {
    match value {
        toml::Value::String(s) => RemapValue::Text(s.clone()),
        toml::Value::Array(list) => {
            RemapValue::List(list.iter().map(|v| v.as_str().map(|s| s.to_string())).collect())
        }
        _ => RemapValue::Other,
    }
}

fn device(table: &toml::Table) -> Result<DeviceConfig, String> {
    let remap: Vec<(String, RemapValue)> = match section(table, "remap") {
        Some(remap) => remap.iter().map(|(k, v)| (k.clone(), remap_value(v))).collect(),
        None => Vec::new(),
    };
    DeviceConfig::from_settings(
        text(table, "map_backend").unwrap(),
        text(table, "device_type").unwrap(),
        &remap,
        flag(table, "remap_whitelist"),
    )
}

fn config_of(toml_str: &str) -> AppConfig {
    let root: toml::Table = toml::from_str(toml_str).unwrap();
    let empty = toml::Table::new();
    let input = section(&root, "input").unwrap_or(&empty);
    let output = section(&root, "output").unwrap_or(&empty);
    let feedback = section(&root, "feedback").unwrap_or(&empty);
    let mut devices: Table<DeviceConfig> = Table::new();
    if let Some(all) = section(&root, "device") {
        for (name, value) in all {
            devices.insert(name.clone(), device(value.as_table().unwrap()).unwrap());
        }
    }
    AppConfig {
        input: InputConfig::from_settings(
            section(input, "web").map(|t| {
                WebBackend::from_settings(
                    flag(t, "enabled"),
                    number(t, "port").map(|n| n as u16),
                    text(t, "host"),
                )
            }),
            None,
            None,
        ),
        output: OutputConfig::from_settings(
            section(output, "uinput")
                .map(|t| UInputConfig { enabled: flag(t, "enabled").unwrap() }),
            None,
        ),
        feedback: FeedbackConfig {
            chuniio: section(feedback, "chuniio").map(|t| {
                ChuniIoRgbConfig::from_settings(
                    text(t, "socket_path"),
                    number(t, "slider_clamp_lights"),
                    number(t, "slider_id_offset"),
                )
            }),
        },
        device: devices,
        plugins: Vec::new(),
    }
}

#[test]
fn test_default_app_config() {
    let config = AppConfig::default();
    let web = config.input.web.as_ref().unwrap();
    assert!(web.enabled);
    assert_eq!(web.port, 8000);
    assert_eq!(web.host, "0.0.0.0");
    assert!(config.output.uinput.enabled);
    assert!(config.feedback.chuniio.is_none());
}

#[test]
fn test_disable_web_backend() {
    let config = config_of(
        r#"
            [input.web]
            enabled = false
        "#,
    );
    let web = config.input.web.unwrap();
    assert!(!web.enabled);
}

#[test]
fn test_custom_web_backend() {
    let config = config_of(
        r#"
            [input.web]
            port = 1234
            host = "127.0.0.1"
        "#,
    );
    let web = config.input.web.unwrap();
    assert!(web.enabled);
    assert_eq!(web.port, 1234);
    assert_eq!(web.host, "127.0.0.1");
}

#[test]
fn test_default_chuniio_rgb_config() {
    let config = config_of(
        r#"
            [feedback.chuniio]
            socket_path = "/tmp/chuniio.sock"
        "#,
    );
    let chuniio = config.feedback.chuniio.unwrap();
    assert_eq!(chuniio.socket_path, Some("/tmp/chuniio.sock".to_string()));
    assert_eq!(chuniio.slider_clamp_lights, 32);
    assert_eq!(chuniio.slider_id_offset, 0);
}

#[test]
fn test_custom_chuniio_rgb_config() {
    let config = config_of(
        r#"
            [feedback.chuniio]
            socket_path = "/tmp/chuniio.sock"
            slider_clamp_lights = 16
            slider_id_offset = 2
        "#,
    );
    let chuniio = config.feedback.chuniio.unwrap();
    assert_eq!(chuniio.socket_path, Some("/tmp/chuniio.sock".to_string()));
    assert_eq!(chuniio.slider_clamp_lights, 16);
    assert_eq!(chuniio.slider_id_offset, 2);
}

#[test]
fn test_chuniio_rgb_config_no_socket() {
    let config = config_of(
        r#"
            [feedback.chuniio]
            slider_clamp_lights = 16
        "#,
    );
    let chuniio = config.feedback.chuniio.unwrap();
    assert_eq!(chuniio.socket_path, None);
    assert_eq!(chuniio.slider_clamp_lights, 16);
    assert_eq!(chuniio.slider_id_offset, 0);
}

#[test]
fn test_default_uinput_config() {
    let config = OutputConfig::default();
    assert!(config.uinput.enabled);
}

#[test]
fn test_disable_uinput() {
    let config = config_of(
        r#"
            [output.uinput]
            enabled = false
        "#,
    );
    assert!(!config.output.uinput.enabled);
}

#[test]
fn test_device_config_basic() {
    let config = config_of(
        r#"
            [device."test_device"]
            map_backend = "uinput"
            device_type = "keyboard"
        "#,
    );
    let device_config = config.device.get("test_device").unwrap();
    assert_eq!(device_config.map_backend, "uinput");
    assert_eq!(device_config.device_type, "keyboard");
    assert!(device_config.remap.is_empty());
}

#[test]
fn test_device_config_with_remapping() {
    let config = config_of(
        r#"
            [device."slider_device"]
            map_backend = "uinput"
            device_type = "keyboard"

            [device."slider_device".remap]
            "SLIDER_1" = "KEY_A"
            "SLIDER_2" = "KEY_B"
            "GAME_1" = "KEY_SPACE"
        "#,
    );
    let device_config = config.device.get("slider_device").unwrap();
    assert_eq!(device_config.map_backend, "uinput");
    assert_eq!(device_config.device_type, "keyboard");
    assert_eq!(
        device_config.remap.get("SLIDER_1"),
        Some(&KeyExpr::Single("KEY_A".to_string()))
    );
    assert_eq!(
        device_config.remap.get("SLIDER_2"),
        Some(&KeyExpr::Single("KEY_B".to_string()))
    );
    assert_eq!(
        device_config.remap.get("GAME_1"),
        Some(&KeyExpr::Single("KEY_SPACE".to_string()))
    );
}

#[test]
fn test_multiple_devices() {
    let config = config_of(
        r#"
            [device."keyboard_device"]
            map_backend = "uinput"
            device_type = "keyboard"

            [device."gamepad_device"]
            map_backend = "inputplumber"
            device_type = "gamepad"

            [device."gamepad_device".remap]
            "BUTTON_A" = "BTN_A"
        "#,
    );
    let keyboard_config = config.device.get("keyboard_device").unwrap();
    assert_eq!(keyboard_config.map_backend, "uinput");
    assert_eq!(keyboard_config.device_type, "keyboard");

    let gamepad_config = config.device.get("gamepad_device").unwrap();
    assert_eq!(gamepad_config.map_backend, "inputplumber");
    assert_eq!(gamepad_config.device_type, "gamepad");
    assert_eq!(
        gamepad_config.remap.get("BUTTON_A"),
        Some(&KeyExpr::Single("BTN_A".to_string()))
    );
}

#[test]
fn test_device_example_config_format() {
    let config = config_of(
        r#"
            [input.web]
            enabled = true
            port = 8000
            host = "0.0.0.0"

            [output.uinput]
            enabled = true

            [device."slider_controller"]
            map_backend = "uinput"
            device_type = "keyboard"

            [device."slider_controller".remap]
            "SLIDER_1" = "KEY_A"
            "SLIDER_2" = "KEY_S"
            "SLIDER_3" = "KEY_D"

            [device."custom_gamepad"]
            map_backend = "uinput"
            device_type = "keyboard"

            [device."custom_gamepad".remap]
            "GAME_1" = "KEY_SPACE"
            "BUTTON_A" = "KEY_Z"
        "#,
    );

    let slider_config = config.device.get("slider_controller").unwrap();
    assert_eq!(slider_config.map_backend, "uinput");
    assert_eq!(slider_config.device_type, "keyboard");
    assert_eq!(
        slider_config.remap.get("SLIDER_1"),
        Some(&KeyExpr::Single("KEY_A".to_string()))
    );
    assert_eq!(
        slider_config.remap.get("SLIDER_2"),
        Some(&KeyExpr::Single("KEY_S".to_string()))
    );
    assert_eq!(
        slider_config.remap.get("SLIDER_3"),
        Some(&KeyExpr::Single("KEY_D".to_string()))
    );
    assert!(!slider_config.remap_whitelist);

    let gamepad_config = config.device.get("custom_gamepad").unwrap();
    assert_eq!(gamepad_config.map_backend, "uinput");
    assert_eq!(gamepad_config.device_type, "keyboard");
    assert_eq!(
        gamepad_config.remap.get("GAME_1"),
        Some(&KeyExpr::Single("KEY_SPACE".to_string()))
    );
    assert_eq!(
        gamepad_config.remap.get("BUTTON_A"),
        Some(&KeyExpr::Single("KEY_Z".to_string()))
    );
    assert!(!gamepad_config.remap_whitelist);

    assert!(config.input.web.is_some());
    assert!(config.output.uinput.enabled);
}

#[test]
fn test_device_config_with_whitelist_enabled() {
    let config = config_of(
        r#"
            [device."whitelist_device"]
            map_backend = "uinput"
            device_type = "keyboard"
            remap_whitelist = true

            [device."whitelist_device".remap]
            "SLIDER_1" = "KEY_A"
            "GAME_1" = "KEY_SPACE"
        "#,
    );
    let device_config = config.device.get("whitelist_device").unwrap();
    assert_eq!(device_config.map_backend, "uinput");
    assert_eq!(device_config.device_type, "keyboard");
    assert!(device_config.remap_whitelist);
    assert_eq!(
        device_config.remap.get("SLIDER_1"),
        Some(&KeyExpr::Single("KEY_A".to_string()))
    );
    assert_eq!(
        device_config.remap.get("GAME_1"),
        Some(&KeyExpr::Single("KEY_SPACE".to_string()))
    );
}

#[test]
fn test_device_config_with_whitelist_enabled_no_remap() {
    let config = config_of(
        r#"
            [device."ignore_all_device"]
            map_backend = "uinput"
            device_type = "keyboard"
            remap_whitelist = true
        "#,
    );
    let device_config = config.device.get("ignore_all_device").unwrap();
    assert_eq!(device_config.map_backend, "uinput");
    assert_eq!(device_config.device_type, "keyboard");
    assert!(device_config.remap_whitelist);
    assert!(device_config.remap.is_empty());
}

#[test]
fn test_device_config_with_whitelist_explicitly_disabled() {
    let config = config_of(
        r#"
            [device."passthrough_device"]
            map_backend = "uinput"
            device_type = "keyboard"
            remap_whitelist = false

            [device."passthrough_device".remap]
            "SLIDER_1" = "KEY_A"
        "#,
    );
    let device_config = config.device.get("passthrough_device").unwrap();
    assert_eq!(device_config.map_backend, "uinput");
    assert_eq!(device_config.device_type, "keyboard");
    assert!(!device_config.remap_whitelist);
    assert_eq!(
        device_config.remap.get("SLIDER_1"),
        Some(&KeyExpr::Single("KEY_A".to_string()))
    );
}

#[test]
fn test_device_config_with_keyexpr_combo_and_sequence() {
    let config = config_of(
        r#"
            [device."advanced_device"]
            map_backend = "uinput"
            device_type = "keyboard"

            [device."advanced_device".remap]
            "SLIDER_1" = "KEY_A+KEY_B"
            "SLIDER_2" = "KEY_C,KEY_D,KEY_E"
            "SLIDER_3" = ["KEY_X", "KEY_Y"]
            "GAME_1" = "KEY_SPACE"
        "#,
    );
    let device_config = config.device.get("advanced_device").unwrap();
    assert_eq!(device_config.map_backend, "uinput");
    assert_eq!(device_config.device_type, "keyboard");
    assert_eq!(
        device_config.remap.get("SLIDER_1"),
        Some(&KeyExpr::Combo(vec!["KEY_A".to_string(), "KEY_B".to_string()]))
    );
    assert_eq!(
        device_config.remap.get("SLIDER_2"),
        Some(&KeyExpr::Sequence(vec![
            "KEY_C".to_string(),
            "KEY_D".to_string(),
            "KEY_E".to_string()
        ]))
    );
    assert_eq!(
        device_config.remap.get("SLIDER_3"),
        Some(&KeyExpr::Combo(vec!["KEY_X".to_string(), "KEY_Y".to_string()]))
    );
    assert_eq!(
        device_config.remap.get("GAME_1"),
        Some(&KeyExpr::Single("KEY_SPACE".to_string()))
    );
}

#[test]
fn test_keyexpr_parsing() {
    let single = KeyExpr::parse("KEY_A");
    assert_eq!(single, KeyExpr::Single("KEY_A".to_string()));

    let combo = KeyExpr::parse("KEY_A+KEY_B");
    assert_eq!(combo, KeyExpr::Combo(vec!["KEY_A".to_string(), "KEY_B".to_string()]));

    let sequence = KeyExpr::parse("KEY_A,KEY_B,KEY_C");
    assert_eq!(
        sequence,
        KeyExpr::Sequence(vec!["KEY_A".to_string(), "KEY_B".to_string(), "KEY_C".to_string()])
    );

    let combo_spaces = KeyExpr::parse(" KEY_A + KEY_B ");
    assert_eq!(combo_spaces, KeyExpr::Combo(vec!["KEY_A".to_string(), "KEY_B".to_string()]));

    let sequence_spaces = KeyExpr::parse(" KEY_A , KEY_B , KEY_C ");
    assert_eq!(
        sequence_spaces,
        KeyExpr::Sequence(vec!["KEY_A".to_string(), "KEY_B".to_string(), "KEY_C".to_string()])
    );
}

#[test]
fn test_keyexpr_to_string() {
    let single = KeyExpr::Single("KEY_A".to_string());
    assert_eq!(single.to_string(), "KEY_A");

    let combo = KeyExpr::Combo(vec!["KEY_A".to_string(), "KEY_B".to_string()]);
    assert_eq!(combo.to_string(), "KEY_A+KEY_B");

    let sequence = KeyExpr::Sequence(vec![
        "KEY_A".to_string(),
        "KEY_B".to_string(),
        "KEY_C".to_string(),
    ]);
    assert_eq!(sequence.to_string(), "KEY_A,KEY_B,KEY_C");
}

#[test]
fn expressions_survive_writing_and_reading() {
    for text in ["KEY_A", "KEY_A+KEY_B", "KEY_A,KEY_B,KEY_C"] {
        let expr = KeyExpr::parse(text);
        assert_eq!(expr.to_string(), text);
        assert_eq!(KeyExpr::parse(expr.to_string().as_str()), expr);
    }
    // A plus sign goes before a comma.
    assert_eq!(
        KeyExpr::parse("A,B+C"),
        KeyExpr::Combo(vec!["A,B".to_string(), "C".to_string()])
    );
}

#[test]
fn remap_values_that_denote_no_expression() {
    let entries = vec![
        ("A".to_string(), RemapValue::Text("KEY_A".to_string())),
        ("B".to_string(), RemapValue::Other),
    ];
    let r = DeviceConfig::from_settings("uinput".to_string(), "keyboard".to_string(), &entries, None);
    assert_eq!(r.unwrap_err(), "Invalid value for KeyExpr");
}

#[test]
fn remap_lists_lose_empty_and_foreign_entries() {
    let entries = vec![
        ("ONE".to_string(), RemapValue::List(vec![Some("KEY_A".to_string()), None])),
        ("NONE".to_string(), RemapValue::List(vec![Some(String::new())])),
    ];
    let device =
        DeviceConfig::from_settings("uinput".to_string(), "keyboard".to_string(), &entries, None)
            .unwrap();
    assert_eq!(device.remap.get("ONE"), Some(&KeyExpr::Single("KEY_A".to_string())));
    assert_eq!(device.remap.get("NONE"), Some(&KeyExpr::Combo(Vec::new())));
    assert!(!device.remap_whitelist);
}

#[test]
fn a_remap_table_survives_writing_and_reading() {
    let entries = vec![
        ("A".to_string(), RemapValue::Text("KEY_A".to_string())),
        ("B".to_string(), RemapValue::Text("KEY_B+KEY_C".to_string())),
        ("C".to_string(), RemapValue::Text("KEY_D,KEY_E".to_string())),
    ];
    let device =
        DeviceConfig::from_settings("uinput".to_string(), "keyboard".to_string(), &entries, None)
            .unwrap();
    let written = serialize(&device.remap);
    assert_eq!(written.len(), 3);
    let again =
        DeviceConfig::from_settings("uinput".to_string(), "keyboard".to_string(), &written, None)
            .unwrap();
    for key in ["A", "B", "C"] {
        assert_eq!(again.remap.get(key), device.remap.get(key));
    }
}

#[test]
fn defaults() {
    assert!(default_web_enabled_bool());
    assert_eq!(default_web_port(), 8000);
    assert_eq!(default_web_host(), "0.0.0.0");
    assert!(default_web_enabled().is_some());
    assert_eq!(default_slider_lights(), 32);
    assert!(!default_chuniio_proxy_enabled());
    assert!(default_brokenithm_enabled());
    assert_eq!(default_brokenithm_port(), 24864);
    assert_eq!(default_brokenithm_host(), "0.0.0.0");

    let device = DeviceConfig::default();
    assert_eq!(device.map_backend, "uinput");
    assert_eq!(device.device_type, "keyboard");
    assert!(device.remap.is_empty());
    assert!(!device.remap_whitelist);

    assert_eq!(UnixDomainSocketConfig::default().path, "");
    assert_eq!(BrokenithmUdpConfig::default().port, 0);
    assert!(!BrokenithmConfig::default().enabled);
    assert_eq!(BrokenithmIdeviceConfig::default().local_port, 0);
}

#[test]
fn settings_that_a_file_leaves_out() {
    let udp = BrokenithmUdpConfig::from_settings(None, Some(9), None);
    assert!(udp.enabled);
    assert_eq!(udp.port, 9);
    assert_eq!(udp.host, "0.0.0.0");

    let idevice = BrokenithmIdeviceConfig::from_settings(Some(false), None, None, None);
    assert!(!idevice.enabled);
    assert_eq!(idevice.device_port, 24864);
    assert_eq!(idevice.local_port, 24864);

    let brokenithm = BrokenithmConfig::from_settings(None, None, None, Some(idevice));
    assert!(brokenithm.enabled);
    assert_eq!(brokenithm.port, 24864);
    assert!(brokenithm.idevice.is_some());

    let proxy = ChuniioProxyConfig::from_settings(None, None, "/tmp/here".to_string());
    assert!(!proxy.enabled);
    assert_eq!(proxy.socket_path, "/tmp/here");
    assert!(!ChuniioProxyConfig::default_at("/tmp/there".to_string()).enabled);

    let unix = UnixDomainSocketConfig::from_settings(Some("/a".to_string()), "/b".to_string());
    assert_eq!(unix.path, "/a");
}

#[test]
fn socket_paths() {
    assert_eq!(unix_socket_path_for(None, 0), "/run/backflow");
    assert_eq!(unix_socket_path_for(None, 1000), "/run/user/1000/backflow");
    assert_eq!(unix_socket_path_for(Some("/x".to_string()), 1000), "/x");
    assert_eq!(default_unix_socket_path(Some("/x".to_string())), "/x");

    assert_eq!(proxy_socket_path_for(None, 1000, true), "/run/user/1000/backflow_chuniio");
    assert_eq!(proxy_socket_path_for(None, 1000, false), "/tmp/backflow_chuniio");
    assert_eq!(proxy_socket_path_for(Some("/y".to_string()), 1000, true), "/y");
    assert_eq!(default_chuniio_proxy_socket_path(Some("/y".to_string()), true), "/y");
    assert_eq!(default_chuniio_proxy_socket_path(None, false), "/tmp/backflow_chuniio");
}

#[test]
fn the_machine_is_asked() {
    let uid = nix::unistd::Uid::effective().as_raw();
    assert_eq!(runtime_dir(), format!("/run/user/{uid}"));
    assert_eq!(runtime_dir_for(7), "/run/user/7");
    assert_eq!(default_unix_socket_path(None), unix_socket_path_for(None, uid));

    let paths = config_paths();
    assert_eq!(paths.len(), 3);
    let user = match dirs::config_dir() {
        Some(dir) => dir.join("backflow.toml").into_os_string().into_encoded_bytes(),
        None => b"backflow.toml".to_vec(),
    };
    assert_eq!(paths[1], user);
}

#[test]
fn places_of_the_configuration_file() {
    assert_eq!(
        config_paths_for(Some(b"/home/me/.config".to_vec())),
        vec![
            b"backflow.toml".to_vec(),
            b"/home/me/.config/backflow.toml".to_vec(),
            b"/etc/backflow/backflow.toml".to_vec(),
        ]
    );
    assert_eq!(config_paths_for(Some(b"/cfg/".to_vec()))[1], b"/cfg/backflow.toml");
    assert_eq!(config_paths_for(Some(Vec::new()))[1], b"backflow.toml");
    assert_eq!(config_paths_for(Some(vec![0x2f, 0xff]))[1], b"/\xff/backflow.toml");
    assert_eq!(config_paths_for(None)[1], b"backflow.toml");
}

fn with_proxy(enabled: bool) -> AppConfig {
    let mut config = AppConfig::default();
    config.output.chuniio_proxy =
        Some(ChuniioProxyConfig { enabled, socket_path: "/tmp/proxy".to_string() });
    config
}

#[test]
fn an_enabled_proxy_gives_the_feedback() {
    let mut config = with_proxy(true);
    config.validate_and_fix();
    let chuniio = config.feedback.chuniio.as_ref().unwrap();
    assert_eq!(chuniio.socket_path, None);
    assert_eq!(chuniio.slider_clamp_lights, 32);
    assert_eq!(chuniio.slider_id_offset, 0);

    let mut config = with_proxy(true);
    config.feedback.chuniio = Some(ChuniIoRgbConfig {
        socket_path: Some("/tmp/led".to_string()),
        slider_clamp_lights: 16,
        slider_id_offset: 3,
    });
    config.validate_and_fix();
    config.validate_and_fix();
    let chuniio = config.feedback.chuniio.unwrap();
    assert_eq!(chuniio.socket_path, None);
    assert_eq!(chuniio.slider_clamp_lights, 16);
    assert_eq!(chuniio.slider_id_offset, 3);
}

#[test]
fn a_disabled_proxy_leaves_the_feedback_alone() {
    let mut config = with_proxy(false);
    config.validate_and_fix();
    assert!(config.feedback.chuniio.is_none());

    config.feedback.chuniio = Some(ChuniIoRgbConfig {
        socket_path: Some("/tmp/led".to_string()),
        slider_clamp_lights: 16,
        slider_id_offset: 3,
    });
    config.validate_and_fix();
    assert_eq!(config.feedback.chuniio.unwrap().socket_path, Some("/tmp/led".to_string()));
}

#[test]
fn the_first_file_counts() {
    let config = AppConfig::load_or_default(vec![
        ConfigFile::Missing,
        ConfigFile::Loaded(with_proxy(true)),
        ConfigFile::Loaded(AppConfig::default()),
    ]);
    assert!(config.output.chuniio_proxy.is_some());
    assert!(config.feedback.chuniio.is_some());

    let config = AppConfig::load_or_default(vec![
        ConfigFile::Broken,
        ConfigFile::Loaded(with_proxy(true)),
    ]);
    assert!(config.output.chuniio_proxy.is_none());

    let config = AppConfig::load_or_default(vec![ConfigFile::Missing, ConfigFile::Missing]);
    assert!(config.input.web.is_some());
    assert!(config.output.chuniio_proxy.is_none());
}

#[test]
fn tables() {
    let mut table: Table<u32> = Table::new();
    assert!(table.is_empty());
    table.insert("a".to_string(), 1);
    table.insert("b".to_string(), 2);
    table.insert("a".to_string(), 3);
    assert_eq!(table.len(), 2);
    assert_eq!(table.get("a"), Some(&3));
    assert_eq!(table.get("c"), None);
    assert!(table.contains_key("b"));
    assert_eq!(table.name_at(0), "a");
    assert_eq!(table.value_at(1), &2);
}

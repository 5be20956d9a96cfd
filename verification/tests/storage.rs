use shutdown_on_lan::configuration::AppConfiguration;
use shutdown_on_lan::error::{ConfigurationError, ConfigurationRegistryKeys};
use shutdown_on_lan::file_storage::{
    FileChange, FileChanges, FileImage, FileRead, FileStorage, Ini, IniFileStorage, Plist,
    PropertyListStorage,
};
use shutdown_on_lan::ip_address::IpAddress;
use shutdown_on_lan::registry::{
    RegistryChanges, RegistryRead, RegistryStorage, RegistryValue, RegistryValues,
};
use shutdown_on_lan::storage::AppConfigurationStorage;
use shutdown_on_lan::{ini_file, property_list};

fn sample() -> AppConfiguration {
    AppConfiguration {
        port_number: 1234,
        addresses: vec![
            IpAddress::V4(10, 0, 0, 5),
            IpAddress::V6(0xfe80, 0, 0, 0, 0, 0, 0, 1),
            IpAddress::V4(10, 0, 0, 5),
            IpAddress::V6(0, 0, 0, 0, 0, 0xffff, 0x0a00, 0x0005),
        ],
        secret: "correct horse = battery; staple".to_string(),
    }
}

fn ini_storage() -> IniFileStorage {
    FileStorage::new("/etc".to_string(), Ini {})
}

fn plist_storage() -> PropertyListStorage {
    FileStorage::new("/Library/Application Support/ShutdownOnLan".to_string(), Plist {})
}

fn registry_storage() -> RegistryStorage {
    RegistryStorage::new("SOFTWARE\\ShutdownOnLan".to_string())
}

fn round_trip<S: AppConfigurationStorage>(mut storage: S, configuration: AppConfiguration) {
    AppConfiguration::create_configuration_storage_if_not_exists(&mut storage).unwrap();
    assert_eq!(configuration.save(&mut storage), Ok(()));
    assert_eq!(AppConfiguration::fetch(&storage), Ok(configuration));
}

#[test]
fn ini_save_then_fetch_gives_the_configuration_back() {
    round_trip(ini_storage(), sample());
    round_trip(ini_storage(), AppConfiguration::default());
    round_trip(
        ini_storage(),
        AppConfiguration { port_number: 0, addresses: vec![], secret: String::new() },
    );
    round_trip(
        ini_storage(),
        AppConfiguration { port_number: 65535, addresses: vec![], secret: "pässwörd ✓".to_string() },
    );
}

#[test]
fn plist_save_then_fetch_gives_the_configuration_back() {
    round_trip(plist_storage(), sample());
    round_trip(plist_storage(), AppConfiguration::default());
    round_trip(
        plist_storage(),
        AppConfiguration { port_number: 0, addresses: vec![], secret: String::new() },
    );
    round_trip(
        plist_storage(),
        AppConfiguration {
            port_number: 65535,
            addresses: vec![],
            secret: " <&> pässwörd ✓\n ".to_string(),
        },
    );
}

#[test]
fn registry_save_then_fetch_gives_the_configuration_back() {
    round_trip(registry_storage(), sample());
    round_trip(registry_storage(), AppConfiguration::default());
    round_trip(
        registry_storage(),
        AppConfiguration { port_number: 0, addresses: vec![], secret: " \n ".to_string() },
    );
}

#[test]
fn ini_refuses_a_secret_that_a_line_cannot_hold() {
    for secret in [" leading", "trailing ", "two\nlines", "carriage return\r", "\u{a0}x"] {
        let mut storage = ini_storage();
        AppConfiguration::create_configuration_storage_if_not_exists(&mut storage).unwrap();
        let mut configuration = AppConfiguration::default();
        configuration.set_secret(secret.to_string());
        assert_eq!(
            configuration.save(&mut storage),
            Err(ConfigurationError::InvalidConfiguration),
            "{:?}",
            secret
        );
        assert_eq!(storage.image, FileImage::NoFile);
    }
}

#[test]
fn failed_save_keeps_what_was_stored() {
    let mut storage = ini_storage();
    AppConfiguration::validate(&mut storage).unwrap();
    let before = storage.clone();
    let mut configuration = sample();
    configuration.set_secret("two\nlines".to_string());
    assert_eq!(configuration.save(&mut storage), Err(ConfigurationError::InvalidConfiguration));
    assert_eq!(storage, before);
    assert_eq!(AppConfiguration::fetch(&storage), Ok(AppConfiguration::default()));
}

#[test]
fn ini_file_has_one_line_for_each_value() {
    let bytes = ini_file::encode(&sample());
    assert_eq!(
        String::from_utf8(bytes).unwrap(),
        "port=1234\r\nip_addresses=10.0.0.5,fe80::1,10.0.0.5,::ffff:10.0.0.5\r\n\
         secret=correct horse = battery; staple\r\n"
    );
    let bytes = ini_file::encode(&AppConfiguration::default());
    assert_eq!(
        String::from_utf8(bytes).unwrap(),
        "port=53632\r\nip_addresses=127.0.0.1\r\nsecret=Super Secret String\r\n"
    );
}

#[test]
fn ini_file_is_read_leniently() {
    let text = "; written by hand\n\n  port = 8080 \nip_addresses=127.0.0.1,not-an-ip,10.0.0.5\n\
                # the secret\nsecret=hunter2\nunknown=1\n[section]\nport=1\n";
    assert_eq!(
        ini_file::decode(&text.as_bytes().to_vec()),
        Some(AppConfiguration {
            port_number: 8080,
            addresses: vec![IpAddress::V4(127, 0, 0, 1), IpAddress::V4(10, 0, 0, 5)],
            secret: "hunter2".to_string(),
        })
    );
}

#[test]
fn malformed_ini_file_is_invalid() {
    for text in [
        "",
        "port=1\nip_addresses=\n",
        "port=1\nip_addresses=\nsecret=x\nport=2\n",
        "port=65536\nip_addresses=\nsecret=x\n",
        "port=-1\nip_addresses=\nsecret=x\n",
        "port=\nip_addresses=\nsecret=x\n",
        "port=1\nip_addresses=\nsecret=x\nno equals sign\n",
        "[section\nport=1\nip_addresses=\nsecret=x\n",
        "[section]\nport=1\nip_addresses=\nsecret=x\n",
    ] {
        assert_eq!(ini_file::decode(&text.as_bytes().to_vec()), None, "{:?}", text);
        let mut storage = ini_storage();
        storage.image = FileImage::File(text.as_bytes().to_vec());
        assert_eq!(
            AppConfiguration::fetch(&storage),
            Err(ConfigurationError::InvalidConfigurationFile)
        );
        assert_eq!(
            AppConfiguration::validate(&mut storage),
            Err(ConfigurationError::InvalidConfigurationFile)
        );
    }
    assert_eq!(ini_file::decode(&vec![b'p', 0xff]), None);
}

#[test]
fn plist_document_holds_the_three_values() {
    let bytes = property_list::encode(&sample()).unwrap();
    let text = String::from_utf8(bytes.clone()).unwrap();
    assert!(text.contains("<key>port</key>"));
    assert!(text.contains("<integer>1234</integer>"));
    assert!(text.contains("<key>ip_addresses</key>"));
    assert!(text.contains("<string>10.0.0.5,fe80::1,10.0.0.5,::ffff:10.0.0.5</string>"));
    assert!(text.contains("<key>secret</key>"));
    assert_eq!(property_list::decode(&bytes), Some(sample()));
    assert_eq!(property_list::decode(&bytes[1..].to_vec()), None);
}

#[test]
fn plist_document_written_by_hand_is_read() {
    let text = "<?xml version=\"1.0\" encoding=\"UTF-8\"?>\n<plist version=\"1.0\">\n<dict>\n\
                <key>secret</key><string>hunter2</string>\n<key>extra</key><true/>\n\
                <key>ip_addresses</key><string>::1,bogus</string>\n\
                <key>port</key><integer>8080</integer>\n</dict>\n</plist>\n";
    assert_eq!(
        property_list::decode(&text.as_bytes().to_vec()),
        Some(AppConfiguration {
            port_number: 8080,
            addresses: vec![IpAddress::V6(0, 0, 0, 0, 0, 0, 0, 1)],
            secret: "hunter2".to_string(),
        })
    );
}

#[test]
fn corrupt_plist_document_is_invalid() {
    let head = "<?xml version=\"1.0\" encoding=\"UTF-8\"?>\n<plist version=\"1.0\">\n";
    for body in [
        "<dict>",
        "<array><integer>1</integer></array>",
        "<dict><key>port</key><integer>1</integer></dict>",
        "<dict><key>port</key><string>1</string><key>ip_addresses</key><string></string>\
         <key>secret</key><string>x</string></dict>",
        "<dict><key>port</key><integer>65536</integer><key>ip_addresses</key><string></string>\
         <key>secret</key><string>x</string></dict>",
        "<dict><key>port</key><integer>-1</integer><key>ip_addresses</key><string></string>\
         <key>secret</key><string>x</string></dict>",
        "<dict><key>port</key><integer>1</integer><key>ip_addresses</key><string></string>\
         <key>secret</key><integer>7</integer></dict>",
    ] {
        let text = format!("{}{}\n</plist>\n", head, body);
        let mut storage = plist_storage();
        storage.image = FileImage::File(text.into_bytes());
        assert_eq!(
            AppConfiguration::fetch(&storage),
            Err(ConfigurationError::InvalidConfigurationFile),
            "{:?}",
            body
        );
        assert_eq!(
            Plist::read_configuration(&storage.image),
            Err(ConfigurationError::InvalidConfigurationFile)
        );
    }
    let mut storage = plist_storage();
    storage.image = FileImage::File(b"not a property list".to_vec());
    assert_eq!(
        AppConfiguration::fetch(&storage),
        Err(ConfigurationError::InvalidConfigurationFile)
    );
}

#[test]
fn plist_read_and_write_work_on_the_image() {
    let mut image = FileImage::NoDirectory;
    assert_eq!(
        Plist::write_configuration(&sample(), &mut image, "/nowhere"),
        Err(ConfigurationError::ConfigurationStorageUnwritable { path: "/nowhere".to_string() })
    );
    assert_eq!(image, FileImage::NoDirectory);
    assert_eq!(
        Plist::read_configuration(&image),
        Err(ConfigurationError::MissingConfigurationFile)
    );
    image = FileImage::NoFile;
    assert_eq!(
        Plist::read_configuration(&image),
        Err(ConfigurationError::MissingConfigurationFile)
    );
    assert_eq!(Plist::write_configuration(&sample(), &mut image, "/somewhere"), Ok(()));
    assert_eq!(Plist::read_configuration(&image), Ok(sample()));
}

fn missing_configuration<S: AppConfigurationStorage + Clone + PartialEq + std::fmt::Debug>(
    fresh: S,
    path: &str,
) {
    assert_eq!(AppConfiguration::fetch(&fresh), Err(ConfigurationError::MissingConfigurationFile));
    assert!(!fresh.configuration_exists());
    let mut storage = fresh.clone();
    assert_eq!(
        sample().save(&mut storage),
        Err(ConfigurationError::ConfigurationStorageUnwritable { path: path.to_string() })
    );
    assert_eq!(storage, fresh);
    assert_eq!(sample().delete(&mut storage), Ok(()));
    assert_eq!(storage, fresh);

    assert_eq!(AppConfiguration::validate(&mut storage), Ok(()));
    assert!(storage.configuration_exists());
    assert_eq!(AppConfiguration::fetch(&storage), Ok(AppConfiguration::default()));

    let once = storage.clone();
    assert_eq!(AppConfiguration::create_configuration_if_not_exists(&mut storage), Ok(()));
    assert_eq!(storage, once);
    assert_eq!(AppConfiguration::validate(&mut storage), Ok(()));
    assert_eq!(storage, once);

    let mut other = fresh.clone();
    assert_eq!(AppConfiguration::create_configuration_storage_if_not_exists(&mut other), Ok(()));
    let empty = other.clone();
    assert_eq!(AppConfiguration::create_configuration_storage_if_not_exists(&mut other), Ok(()));
    assert_eq!(other, empty);
    assert_eq!(AppConfiguration::fetch(&other), Err(ConfigurationError::MissingConfigurationFile));
    assert_eq!(AppConfiguration::create_configuration_if_not_exists(&mut other), Ok(()));
    assert_eq!(other, once);
}

#[test]
fn ini_first_run_creates_the_default_configuration() {
    missing_configuration(ini_storage(), "/etc");
}

#[test]
fn plist_first_run_creates_the_default_configuration() {
    missing_configuration(plist_storage(), "/Library/Application Support/ShutdownOnLan");
}

#[test]
fn registry_first_run_creates_the_default_configuration() {
    missing_configuration(registry_storage(), "SOFTWARE\\ShutdownOnLan");
}

fn existing_configuration_is_kept<S: AppConfigurationStorage + Clone + PartialEq + std::fmt::Debug>(
    mut storage: S,
) {
    AppConfiguration::create_configuration_storage_if_not_exists(&mut storage).unwrap();
    sample().save(&mut storage).unwrap();
    let before = storage.clone();
    assert_eq!(AppConfiguration::create_configuration_if_not_exists(&mut storage), Ok(()));
    assert_eq!(storage, before);
    assert_eq!(AppConfiguration::validate(&mut storage), Ok(()));
    assert_eq!(AppConfiguration::fetch(&storage), Ok(sample()));

    let mut changed = AppConfiguration::fetch(&storage).unwrap();
    changed.set_port_number(4321);
    changed.set_address("10.0.1.1".to_string());
    changed.save(&mut storage).unwrap();
    let fetched = AppConfiguration::fetch(&storage).unwrap();
    assert_eq!(fetched.port_number, 4321);
    assert_eq!(fetched.addresses.first().unwrap().to_text(), "10.0.1.1");
    assert_eq!(fetched.secret, sample().secret);

    assert_eq!(fetched.delete(&mut storage), Ok(()));
    assert!(!storage.configuration_exists());
    assert_eq!(AppConfiguration::fetch(&storage), Err(ConfigurationError::MissingConfigurationFile));
    assert_eq!(fetched.delete(&mut storage), Ok(()));
    assert_eq!(AppConfiguration::validate(&mut storage), Ok(()));
    assert_eq!(AppConfiguration::fetch(&storage), Ok(AppConfiguration::default()));
}

#[test]
fn ini_keeps_an_existing_configuration() {
    existing_configuration_is_kept(ini_storage());
}

#[test]
fn plist_keeps_an_existing_configuration() {
    existing_configuration_is_kept(plist_storage());
}

#[test]
fn registry_keeps_an_existing_configuration() {
    existing_configuration_is_kept(registry_storage());
}

#[test]
fn registry_values_are_the_three_named_ones() {
    let mut storage = registry_storage();
    AppConfiguration::create_configuration_storage_if_not_exists(&mut storage).unwrap();
    sample().save(&mut storage).unwrap();
    assert_eq!(
        storage.key,
        Some(RegistryValues {
            ip_addresses: RegistryValue::Text(
                "10.0.0.5,fe80::1,10.0.0.5,::ffff:10.0.0.5".to_string()
            ),
            port: RegistryValue::Number(1234),
            secret: RegistryValue::Text("correct horse = battery; staple".to_string()),
        })
    );
}

#[test]
fn unreadable_registry_values_are_invalid() {
    let good = RegistryValues {
        ip_addresses: RegistryValue::Text("127.0.0.1,not-an-ip,10.0.0.5".to_string()),
        port: RegistryValue::Number(8080),
        secret: RegistryValue::Text("hunter2".to_string()),
    };
    let mut storage = registry_storage();
    storage.key = Some(good.clone());
    assert_eq!(
        AppConfiguration::fetch(&storage),
        Ok(AppConfiguration {
            port_number: 8080,
            addresses: vec![IpAddress::V4(127, 0, 0, 1), IpAddress::V4(10, 0, 0, 5)],
            secret: "hunter2".to_string(),
        })
    );
    let broken = vec![
        RegistryValues { port: RegistryValue::Number(65536), ..good.clone() },
        RegistryValues { port: RegistryValue::Text("8080".to_string()), ..good.clone() },
        RegistryValues { port: RegistryValue::Absent, ..good.clone() },
        RegistryValues { ip_addresses: RegistryValue::Absent, ..good.clone() },
        RegistryValues { ip_addresses: RegistryValue::Number(1), ..good.clone() },
        RegistryValues { secret: RegistryValue::Other, ..good.clone() },
        RegistryValues { secret: RegistryValue::Absent, ..good.clone() },
    ];
    for values in broken {
        storage.key = Some(values);
        assert!(storage.configuration_exists());
        assert_eq!(
            AppConfiguration::fetch(&storage),
            Err(ConfigurationError::InvalidConfigurationFile)
        );
        let before = storage.clone();
        assert_eq!(
            AppConfiguration::validate(&mut storage),
            Err(ConfigurationError::InvalidConfigurationFile)
        );
        assert_eq!(storage, before);
    }
}


#[test]
fn file_image_is_built_from_what_was_found() {
    assert_eq!(FileImage::load(false, FileRead::NotFound), Ok(FileImage::NoDirectory));
    assert_eq!(FileImage::load(false, FileRead::Failed), Ok(FileImage::NoDirectory));
    assert_eq!(FileImage::load(false, FileRead::Bytes(vec![1])), Ok(FileImage::NoDirectory));
    assert_eq!(FileImage::load(true, FileRead::NotFound), Ok(FileImage::NoFile));
    assert_eq!(FileImage::load(true, FileRead::Bytes(vec![1, 2])), Ok(FileImage::File(vec![1, 2])));
    assert_eq!(
        FileImage::load(true, FileRead::Failed),
        Err(ConfigurationError::InvalidConfigurationFile)
    );
}

#[test]
fn file_changes_lead_from_one_image_to_the_other() {
    let file = FileImage::File(vec![1, 2, 3]);
    let other = FileImage::File(vec![4]);
    let cases = vec![
        (FileImage::NoDirectory, FileImage::NoDirectory, false, FileChange::Keep),
        (FileImage::NoDirectory, FileImage::NoFile, true, FileChange::Keep),
        (FileImage::NoDirectory, file.clone(), true, FileChange::Write(vec![1, 2, 3])),
        (FileImage::NoFile, FileImage::NoFile, false, FileChange::Keep),
        (FileImage::NoFile, file.clone(), false, FileChange::Write(vec![1, 2, 3])),
        (file.clone(), other.clone(), false, FileChange::Write(vec![4])),
        (file.clone(), file.clone(), false, FileChange::Write(vec![1, 2, 3])),
        (file.clone(), FileImage::NoFile, false, FileChange::Remove),
        (file.clone(), FileImage::NoDirectory, false, FileChange::Keep),
    ];
    for (before, after, create_directory, change) in cases {
        assert_eq!(
            before.changes(&after),
            FileChanges { create_directory, file: change },
            "{:?} -> {:?}",
            before,
            after
        );
    }
}

#[test]
fn failed_changes_have_their_errors() {
    assert_eq!(
        FileChanges::directory_failure("/etc"),
        ConfigurationError::ConfigurationStorageUnwritable { path: "/etc".to_string() }
    );
    assert_eq!(FileChanges::file_failure(), ConfigurationError::ConfigurationFileUnwritable);
    assert_eq!(
        RegistryChanges::key_failure("SOFTWARE\\ShutdownOnLan"),
        ConfigurationError::ConfigurationStorageUnwritable {
            path: "SOFTWARE\\ShutdownOnLan".to_string()
        }
    );
    assert_eq!(
        RegistryChanges::value_failure(ConfigurationRegistryKeys::Port),
        ConfigurationError::RegistryKeyNotWritable(ConfigurationRegistryKeys::Port)
    );
}

#[test]
fn registry_image_is_built_from_what_was_read() {
    let text = |t: &str| RegistryRead::Value(RegistryValue::Text(t.to_string()));
    let number = |n: u32| RegistryRead::Value(RegistryValue::Number(n));
    let path = "SOFTWARE\\ShutdownOnLan".to_string();
    assert_eq!(RegistryStorage::load(path.clone(), None), Ok(registry_storage()));
    assert_eq!(
        RegistryStorage::load(path.clone(), Some((text("::1"), number(7), text("s")))),
        Ok(RegistryStorage {
            path: path.clone(),
            key: Some(RegistryValues {
                ip_addresses: RegistryValue::Text("::1".to_string()),
                port: RegistryValue::Number(7),
                secret: RegistryValue::Text("s".to_string()),
            }),
        })
    );
    assert_eq!(
        RegistryStorage::load(
            path.clone(),
            Some((RegistryRead::Failed, RegistryRead::Failed, RegistryRead::Failed))
        ),
        Err(ConfigurationError::RegistryKeyNotReadable(ConfigurationRegistryKeys::IpAddress))
    );
    assert_eq!(
        RegistryStorage::load(
            path.clone(),
            Some((text("::1"), RegistryRead::Failed, RegistryRead::Failed))
        ),
        Err(ConfigurationError::RegistryKeyNotReadable(ConfigurationRegistryKeys::Port))
    );
    assert_eq!(
        RegistryStorage::load(path.clone(), Some((text("::1"), number(7), RegistryRead::Failed))),
        Err(ConfigurationError::RegistryKeyNotReadable(ConfigurationRegistryKeys::Secret))
    );
    let absent = RegistryRead::Value(RegistryValue::Absent);
    let fresh =
        RegistryStorage::load(path.clone(), Some((absent.clone(), absent.clone(), absent)))
            .unwrap();
    assert!(!fresh.configuration_exists());
    assert_eq!(AppConfiguration::fetch(&fresh), Err(ConfigurationError::MissingConfigurationFile));
}

#[test]
fn registry_changes_lead_from_one_image_to_the_other() {
    let missing = registry_storage();
    let mut stored = registry_storage();
    AppConfiguration::validate(&mut stored).unwrap();
    assert_eq!(
        missing.changes(&stored),
        RegistryChanges { create_key: true, values: stored.key.clone() }
    );
    let mut changed = stored.clone();
    sample().save(&mut changed).unwrap();
    assert_eq!(
        stored.changes(&changed),
        RegistryChanges { create_key: false, values: changed.key.clone() }
    );
    assert_eq!(missing.changes(&missing), RegistryChanges { create_key: false, values: None });
    assert_eq!(stored.changes(&missing), RegistryChanges { create_key: false, values: None });
    let mut deleted = stored.clone();
    sample().delete(&mut deleted).unwrap();
    assert_eq!(
        stored.changes(&deleted),
        RegistryChanges {
            create_key: false,
            values: Some(RegistryValues {
                ip_addresses: RegistryValue::Absent,
                port: RegistryValue::Absent,
                secret: RegistryValue::Absent,
            }),
        }
    );
}

fn value(key: &str, text: &str) -> ini_file::IniItem {
    ini_file::IniItem::Value { key: key.to_string(), value: text.to_string() }
}

#[test]
fn ini_lines_give_the_configuration() {
    let items = vec![
        ini_file::IniItem::Comment { text: "; by hand".to_string() },
        value("secret", "hunter2"),
        ini_file::IniItem::Empty,
        value("other", "1"),
        value("ip_addresses", "10.0.0.5,x,::1"),
        value("port", "00080"),
        ini_file::IniItem::Section { name: "later".to_string() },
        value("port", "81"),
    ];
    assert_eq!(
        ini_file::configuration_from(&items),
        Some(AppConfiguration {
            port_number: 80,
            addresses: vec![IpAddress::V4(10, 0, 0, 5), IpAddress::V6(0, 0, 0, 0, 0, 0, 0, 1)],
            secret: "hunter2".to_string(),
        })
    );
    assert_eq!(ini_file::find_field(&items, "port"), Some("00080".to_string()));
    assert_eq!(ini_file::find_field(&items, "later"), None);
    assert_eq!(ini_file::find_field(&items, "missing"), None);
}

#[test]
fn ini_lines_without_the_three_values_give_nothing() {
    let good = vec![value("port", "80"), value("ip_addresses", ""), value("secret", "")];
    assert!(ini_file::configuration_from(&good).is_some());
    for missing in 0..3 {
        let mut items = good.clone();
        items.remove(missing);
        assert_eq!(ini_file::configuration_from(&items), None);
    }
    for twice in 0..3 {
        let mut items = good.clone();
        items.push(good[twice].clone());
        assert_eq!(ini_file::configuration_from(&items), None);
    }
    for port in ["", "65536", "123456", "+80", "8 0", "0x50", "-1"] {
        let items = vec![value("port", port), value("ip_addresses", ""), value("secret", "")];
        assert_eq!(ini_file::configuration_from(&items), None, "{:?}", port);
    }
    let mut items = good.clone();
    items.insert(0, ini_file::IniItem::Section { name: "s".to_string() });
    assert_eq!(ini_file::configuration_from(&items), None);
    assert_eq!(ini_file::configuration_from(&Vec::new()), None);
}

#[test]
fn ini_text_is_the_three_lines() {
    assert_eq!(
        ini_file::document_text(&AppConfiguration {
            port_number: 7,
            addresses: vec![],
            secret: String::new(),
        }),
        "port=7\r\nip_addresses=\r\nsecret=\r\n"
    );
}

#[test]
fn plist_entries_give_the_configuration() {
    let entries = vec![
        ("secret".to_string(), Some(property_list::PlistField::Text("hunter2".to_string()))),
        ("extra".to_string(), None),
        ("port".to_string(), Some(property_list::PlistField::Integer(65535))),
        ("ip_addresses".to_string(), Some(property_list::PlistField::Text("::1,".to_string()))),
        ("port".to_string(), Some(property_list::PlistField::Integer(1))),
    ];
    assert_eq!(
        property_list::configuration_from(&entries),
        Some(AppConfiguration {
            port_number: 65535,
            addresses: vec![IpAddress::V6(0, 0, 0, 0, 0, 0, 0, 1)],
            secret: "hunter2".to_string(),
        })
    );
    assert_eq!(
        property_list::find_entry(&entries, "port"),
        Some(property_list::PlistField::Integer(65535))
    );
    assert_eq!(property_list::find_entry(&entries, "extra"), None);
    assert_eq!(property_list::find_entry(&entries, "missing"), None);
    assert_eq!(property_list::configuration_from(&Vec::new()), None);
    let mut wrong = entries.clone();
    wrong[2].1 = Some(property_list::PlistField::Integer(65536));
    assert_eq!(property_list::configuration_from(&wrong), None);
    let mut wrong = entries.clone();
    wrong[0].1 = None;
    assert_eq!(property_list::configuration_from(&wrong), None);
}

#[test]
fn plist_entries_are_the_three_values() {
    assert_eq!(
        property_list::entries_for(&sample()),
        vec![
            ("port".to_string(), property_list::PlistField::Integer(1234)),
            (
                "ip_addresses".to_string(),
                property_list::PlistField::Text(
                    "10.0.0.5,fe80::1,10.0.0.5,::ffff:10.0.0.5".to_string()
                )
            ),
            (
                "secret".to_string(),
                property_list::PlistField::Text("correct horse = battery; staple".to_string())
            ),
        ]
    );
}

#[test]
fn image_stores_only_what_reads_back() {
    let configuration = sample();
    let mut image = FileImage::NoDirectory;
    assert_eq!(
        image.store(&configuration, Some((vec![1], Some(sample()))), "/etc"),
        Err(ConfigurationError::ConfigurationStorageUnwritable { path: "/etc".to_string() })
    );
    assert_eq!(image, FileImage::NoDirectory);
    image = FileImage::NoFile;
    assert_eq!(
        image.store(&configuration, None, "/etc"),
        Err(ConfigurationError::InvalidConfiguration)
    );
    assert_eq!(
        image.store(&configuration, Some((vec![1], None)), "/etc"),
        Err(ConfigurationError::InvalidConfiguration)
    );
    assert_eq!(
        image.store(&configuration, Some((vec![1], Some(AppConfiguration::default()))), "/etc"),
        Err(ConfigurationError::InvalidConfiguration)
    );
    assert_eq!(image, FileImage::NoFile);
    assert_eq!(image.store(&configuration, Some((vec![1, 2], Some(sample()))), "/etc"), Ok(()));
    assert_eq!(image, FileImage::File(vec![1, 2]));
    assert_eq!(image.store(&configuration, Some((vec![3], Some(sample()))), "/etc"), Ok(()));
    assert_eq!(image, FileImage::File(vec![3]));
}

fn document(body: &str) -> Vec<u8> {
    format!(
        "<?xml version=\"1.0\" encoding=\"UTF-8\"?>\n<plist version=\"1.0\">\n{}\n</plist>\n",
        body
    )
    .into_bytes()
}

#[test]
fn plist_document_with_a_date_is_invalid() {
    let entries = "<key>port</key><integer>8080</integer><key>ip_addresses</key>\
                   <string>::1</string><key>secret</key><string>hunter2</string>";
    assert!(property_list::decode(&document(&format!("<dict>{}</dict>", entries))).is_some());
    for date in [
        "<date>9999-12-31T23:59:59-01:00</date>",
        "<date>2001-01-01T00:00:00Z</date>",
        "<date>no date at all</date>",
        "<x:date>9999-12-31T23:59:59-01:00</x:date>",
        "<date />",
        "<date",
    ] {
        let bytes = document(&format!("<dict>{}<key>when</key>{}</dict>", entries, date));
        assert!(property_list::mentions_date(&bytes), "{:?}", date);
        assert_eq!(property_list::decode(&bytes), None, "{:?}", date);
        let mut storage = plist_storage();
        storage.image = FileImage::File(bytes);
        assert_eq!(
            AppConfiguration::fetch(&storage),
            Err(ConfigurationError::InvalidConfigurationFile)
        );
        assert_eq!(
            AppConfiguration::validate(&mut storage),
            Err(ConfigurationError::InvalidConfigurationFile)
        );
    }
    let bare = b"<date>9999-12-31T23:59:59-01:00</date>".to_vec();
    assert!(property_list::mentions_date(&bare));
    assert_eq!(property_list::decode(&bare), None);
    assert_eq!(
        Plist::read_configuration(&FileImage::File(bare)),
        Err(ConfigurationError::InvalidConfigurationFile)
    );
}

#[test]
fn date_elements_are_found_by_their_name() {
    for bytes in ["<date", ":date", "x<date>", "a:datex", "<<date", "<plist><date/>"] {
        assert!(property_list::mentions_date(&bytes.as_bytes().to_vec()), "{:?}", bytes);
    }
    for bytes in ["", "date", "<dat", "<Date>", "< date>", "update", "&lt;date", "<data>", ":dat", "</date>"] {
        assert!(!property_list::mentions_date(&bytes.as_bytes().to_vec()), "{:?}", bytes);
    }
}

#[test]
fn plist_holds_a_secret_that_speaks_of_dates() {
    for secret in ["date", "update", "<date>", "a < date", "&lt;date"] {
        let mut configuration = AppConfiguration::default();
        configuration.set_secret(secret.to_string());
        round_trip(plist_storage(), configuration);
    }
}

#[test]
fn plist_refuses_a_secret_that_reads_as_a_date_element() {
    let mut storage = plist_storage();
    AppConfiguration::validate(&mut storage).unwrap();
    let before = storage.clone();
    let mut configuration = AppConfiguration::default();
    configuration.set_secret("up:date".to_string());
    assert_eq!(configuration.save(&mut storage), Err(ConfigurationError::InvalidConfiguration));
    assert_eq!(storage, before);
    round_trip(ini_storage(), configuration.clone());
    round_trip(registry_storage(), configuration);
}

fn shorter_replaces_longer<S: AppConfigurationStorage + Clone + PartialEq + std::fmt::Debug>(
    fresh: S,
) {
    let mut long = sample();
    long.set_secret("0123456789012345678901234567890123456789".to_string());
    let short = AppConfiguration { port_number: 7, addresses: vec![], secret: "a".to_string() };
    let mut storage = fresh.clone();
    AppConfiguration::create_configuration_storage_if_not_exists(&mut storage).unwrap();
    assert_eq!(long.save(&mut storage), Ok(()));
    assert_eq!(short.save(&mut storage), Ok(()));
    assert_eq!(AppConfiguration::fetch(&storage), Ok(short.clone()));
    let mut only_short = fresh;
    AppConfiguration::create_configuration_storage_if_not_exists(&mut only_short).unwrap();
    assert_eq!(short.save(&mut only_short), Ok(()));
    assert_eq!(storage, only_short);
}

#[test]
fn ini_shorter_configuration_replaces_a_longer_one() {
    shorter_replaces_longer(ini_storage());
    let mut storage = ini_storage();
    AppConfiguration::create_configuration_storage_if_not_exists(&mut storage).unwrap();
    sample().save(&mut storage).unwrap();
    let short = AppConfiguration { port_number: 7, addresses: vec![], secret: "a".to_string() };
    short.save(&mut storage).unwrap();
    assert_eq!(
        storage.image,
        FileImage::File(b"port=7\r\nip_addresses=\r\nsecret=a\r\n".to_vec())
    );
}

#[test]
fn plist_shorter_configuration_replaces_a_longer_one() {
    shorter_replaces_longer(plist_storage());
    let mut storage = plist_storage();
    AppConfiguration::create_configuration_storage_if_not_exists(&mut storage).unwrap();
    sample().save(&mut storage).unwrap();
    let short = AppConfiguration { port_number: 7, addresses: vec![], secret: "a".to_string() };
    short.save(&mut storage).unwrap();
    assert_eq!(storage.image, FileImage::File(property_list::encode(&short).unwrap()));
}

#[test]
fn registry_shorter_configuration_replaces_a_longer_one() {
    shorter_replaces_longer(registry_storage());
}

#[test]
fn registry_stores_the_list_the_port_and_the_secret() {
    let mut storage = registry_storage();
    AppConfiguration::create_configuration_storage_if_not_exists(&mut storage).unwrap();
    let configuration = AppConfiguration {
        port_number: 1234,
        addresses: vec![IpAddress::V4(127, 0, 0, 1), IpAddress::V4(10, 0, 0, 5)],
        secret: "s".to_string(),
    };
    assert_eq!(configuration.save(&mut storage), Ok(()));
    assert_eq!(
        storage.key,
        Some(RegistryValues {
            ip_addresses: RegistryValue::Text("127.0.0.1,10.0.0.5".to_string()),
            port: RegistryValue::Number(1234),
            secret: RegistryValue::Text("s".to_string()),
        })
    );
    let empty = AppConfiguration { port_number: 0, addresses: vec![], secret: String::new() };
    assert_eq!(empty.save(&mut storage), Ok(()));
    assert_eq!(
        storage.key,
        Some(RegistryValues {
            ip_addresses: RegistryValue::Text(String::new()),
            port: RegistryValue::Number(0),
            secret: RegistryValue::Text(String::new()),
        })
    );
}

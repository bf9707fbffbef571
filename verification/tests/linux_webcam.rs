use tandem_client::webcam_labels::{
    combine_manufacturer_product, device_path_from_description, disambiguate_duplicate_labels, label_cameras,
    lookup_usb_name, parse_hex_id, parse_usb_ids, parse_uvc_ids, read_sysfs_value, resolve_label, resolve_usb_key,
    sysfs_video_node, usb_ids_for_sysfs_node, usb_ids_from_human_name, CameraEntry, CameraFacts, UsbNameTable,
    UsbSysfsFacts,
};

#[test]
fn parses_device_path_from_nokhwa_description() {
    assert_eq!(
        device_path_from_description("Video4Linux Device @ /dev/video0").as_deref(),
        Some("/dev/video0")
    );
}

#[test]
fn parses_uvc_ids_from_human_name() {
    assert_eq!(
        parse_uvc_ids("UVC Camera (046d:0823)"),
        Some(("046d".to_string(), "0823".to_string()))
    );
    assert_eq!(
        usb_ids_from_human_name("UVC Camera (046d:0823)"),
        Some((0x046d, 0x0823))
    );
}

#[test]
fn parses_usb_ids_product_entries() {
    let content = "046d  Logitech, Inc.\n\t0823  HD Webcam B910\n";
    let names = parse_usb_ids(content);
    assert_eq!(
        names.get(&(0x046d, 0x0823)),
        Some(&"HD Webcam B910".to_string())
    );
}

fn camera(human_name: &str, description: &str, usb: Option<UsbSysfsFacts>) -> CameraFacts {
    CameraFacts { human_name: human_name.to_string(), description: description.to_string(), usb }
}

#[test]
fn resolves_label_from_uvc_human_name() {
    let usb_names = parse_usb_ids("046d  Logitech, Inc.\n\t0823  HD Webcam B910\n");
    let cam = camera("UVC Camera (046d:0823)", "Video4Linux Device @ /dev/video0", None);
    assert_eq!(resolve_label(&cam, &usb_names), "HD Webcam B910");
}

fn usb(path: &str, vendor: &str, product: &str, manufacturer: Option<&str>, name: Option<&str>) -> UsbSysfsFacts {
    UsbSysfsFacts {
        sysfs_path: path.to_string(),
        id_vendor: Some(vendor.to_string()),
        id_product: Some(product.to_string()),
        manufacturer: manufacturer.map(str::to_string),
        product: name.map(str::to_string),
    }
}

#[test]
fn description_without_dev_path_has_no_device() {
    assert_eq!(device_path_from_description("Integrated Camera"), None);
    assert_eq!(device_path_from_description("a @ b @  /dev/video2 ").as_deref(), Some("/dev/video2"));
    assert_eq!(device_path_from_description("x @ /tmp/video0"), None);
}

#[test]
fn uvc_ids_need_four_digits_each() {
    assert_eq!(parse_uvc_ids("Camera (46d:0823)"), None);
    assert_eq!(parse_uvc_ids("Camera without ids"), None);
    assert_eq!(parse_uvc_ids("Camera (046d-0823)"), None);
    assert_eq!(usb_ids_from_human_name("Camera (zzzz:0823)"), None);
}

#[test]
fn usb_ids_skip_comments_and_unknown_vendors() {
    let content = "# comment\n\t1111  Orphan product\n046d  Logitech, Inc.\n\t0823  HD Webcam B910\n\t0825  Webcam C270\n\n04f2  Chicony\n\tb604  Integrated Camera\n";
    let names = parse_usb_ids(content);
    assert_eq!(names.len(), 3);
    assert_eq!(names.get(&(0x046d, 0x0825)), Some(&"Webcam C270".to_string()));
    assert_eq!(names.get(&(0x04f2, 0xb604)), Some(&"Integrated Camera".to_string()));
    assert_eq!(names.get(&(0x0000, 0x1111)), None);
}

#[test]
fn hex_ids_are_trimmed() {
    assert_eq!(parse_hex_id(" 046d\n"), Some(0x046d));
    assert_eq!(parse_hex_id("xyz"), None);
    assert_eq!(parse_hex_id("10000"), None);
}

#[test]
fn sysfs_values_are_trimmed_and_blank_is_none() {
    assert_eq!(read_sysfs_value(&Some("  Logitech \n".to_string())).as_deref(), Some("Logitech"));
    assert_eq!(read_sysfs_value(&Some(" \n".to_string())), None);
    assert_eq!(read_sysfs_value(&None), None);
}

#[test]
fn video_node_is_found_under_video4linux() {
    assert_eq!(sysfs_video_node("/dev/video0").as_deref(), Some("/sys/class/video4linux/video0"));
    assert_eq!(sysfs_video_node("/"), None);
}

#[test]
fn manufacturer_and_product_are_combined() {
    assert_eq!(combine_manufacturer_product(Some("Logitech"), Some("HD Webcam")).as_deref(), Some("Logitech HD Webcam"));
    assert_eq!(
        combine_manufacturer_product(Some("Logitech"), Some("Logitech HD Webcam")).as_deref(),
        Some("Logitech HD Webcam")
    );
    assert_eq!(combine_manufacturer_product(Some(" "), Some(" Cam ")).as_deref(), Some("Cam"));
    assert_eq!(combine_manufacturer_product(Some("Maker"), Some("  ")), None);
    assert_eq!(combine_manufacturer_product(None, Some(" Cam ")).as_deref(), Some("Cam"));
    assert_eq!(combine_manufacturer_product(Some(" Maker "), None).as_deref(), Some("Maker"));
    assert_eq!(combine_manufacturer_product(None, None), None);
}

#[test]
fn sysfs_ids_and_names_are_looked_up() {
    let facts = usb("/sys/bus/usb/devices/1-2", "046d\n", "0823\n", Some("Logitech"), Some("B910"));
    assert_eq!(usb_ids_for_sysfs_node(&facts), Some((0x046d, 0x0823)));
    let table = parse_usb_ids("046d  Logitech, Inc.\n\t0823  HD Webcam B910\n");
    assert_eq!(lookup_usb_name(0x046d, 0x0823, &facts, &table).as_deref(), Some("Logitech B910"));
    let bare = usb("/sys/bus/usb/devices/1-2", "046d", "0823", None, None);
    assert_eq!(lookup_usb_name(0x046d, 0x0823, &bare, &table).as_deref(), Some("HD Webcam B910"));
    assert_eq!(lookup_usb_name(0x1234, 0x5678, &bare, &UsbNameTable::new()), None);
}

#[test]
fn usb_keys_prefer_sysfs_then_name_then_position() {
    let with_usb = camera(
        "UVC Camera (046d:0823)",
        "Video4Linux Device @ /dev/video0",
        Some(usb("/sys/bus/usb/devices/1-2", "046d", "0823", None, None)),
    );
    assert_eq!(resolve_usb_key(&with_usb, 0), "046d:0823@/sys/bus/usb/devices/1-2");
    let by_name = camera("UVC Camera (046d:0823)", "Video4Linux Device @ /dev/video0", None);
    assert_eq!(resolve_usb_key(&by_name, 1), "046d:0823");
    let unknown = camera("Integrated Camera", "Video4Linux Device @ /dev/video4", None);
    assert_eq!(resolve_usb_key(&unknown, 3), "fallback:3");
}

#[test]
fn duplicate_labels_are_numbered() {
    let mut entries = vec![
        CameraEntry { index: 0, usb_key: "a".to_string(), label: "Cam".to_string() },
        CameraEntry { index: 1, usb_key: "b".to_string(), label: "Other".to_string() },
        CameraEntry { index: 2, usb_key: "c".to_string(), label: "Cam".to_string() },
    ];
    disambiguate_duplicate_labels(&mut entries);
    let labels: Vec<&str> = entries.iter().map(|e| e.label.as_str()).collect();
    assert_eq!(labels, vec!["Cam #1", "Other", "Cam #2"]);
    assert_eq!(entries[2].index, 2);
    assert_eq!(entries[2].usb_key, "c");
}

#[test]
fn cameras_of_one_device_are_listed_once() {
    let table = parse_usb_ids("046d  Logitech, Inc.\n\t0823  HD Webcam B910\n");
    let cameras = vec![
        camera("UVC Camera (046d:0823)", "Video4Linux Device @ /dev/video0", None),
        camera("UVC Camera (046d:0823)", "Video4Linux Device @ /dev/video1", None),
        camera("Integrated Camera", "Video4Linux Device @ /dev/video2", None),
        camera("Integrated Camera", "Video4Linux Device @ /dev/video3", None),
    ];
    let labelled = label_cameras(&cameras, &table);
    assert_eq!(
        labelled,
        vec![
            (0, "HD Webcam B910".to_string()),
            (2, "Integrated Camera #1".to_string()),
            (3, "Integrated Camera #2".to_string()),
        ]
    );
}

use opentainer_core::volumes::{
    apply_usage_entry, augment_volumes, CliUsage, CliVolumeEntry, VolumeRecord, VolumeUsage,
};

fn vol(name: &str) -> VolumeRecord {
    VolumeRecord {
        name: name.to_string(),
        usage_data: None,
    }
}

#[test]
fn nested_usage_object_wins() {
    let mut vols = vec![vol("data"), vol("cache")];
    let entry = CliVolumeEntry {
        name: "data".to_string(),
        usage: CliUsage::Parsed(VolumeUsage {
            size: 4096,
            ref_count: 2,
        }),
        size: Some("10MB".to_string()),
        links: Some(9),
    };
    apply_usage_entry(&mut vols, &entry);
    assert_eq!(
        vols[0].usage_data,
        Some(VolumeUsage {
            size: 4096,
            ref_count: 2
        })
    );
    assert_eq!(vols[1].usage_data, None);
}

#[test]
fn top_level_size_is_parsed_when_no_usage_object() {
    let mut vols = vec![vol("data")];
    let entry = CliVolumeEntry {
        name: "data".to_string(),
        usage: CliUsage::Absent,
        size: Some("1.5GiB".to_string()),
        links: Some(3),
    };
    apply_usage_entry(&mut vols, &entry);
    assert_eq!(
        vols[0].usage_data,
        Some(VolumeUsage {
            size: 1_610_612_736,
            ref_count: 3
        })
    );
}

#[test]
fn missing_link_count_defaults_to_minus_one() {
    let mut vols = vec![vol("data")];
    let entry = CliVolumeEntry {
        name: "data".to_string(),
        usage: CliUsage::Absent,
        size: Some("10MB".to_string()),
        links: None,
    };
    apply_usage_entry(&mut vols, &entry);
    assert_eq!(
        vols[0].usage_data,
        Some(VolumeUsage {
            size: 10_000_000,
            ref_count: -1
        })
    );
}

#[test]
fn malformed_usage_object_changes_nothing() {
    let mut vols = vec![VolumeRecord {
        name: "data".to_string(),
        usage_data: Some(VolumeUsage {
            size: 1,
            ref_count: 1,
        }),
    }];
    let entry = CliVolumeEntry {
        name: "data".to_string(),
        usage: CliUsage::Malformed,
        size: Some("10MB".to_string()),
        links: Some(5),
    };
    apply_usage_entry(&mut vols, &entry);
    assert_eq!(
        vols[0].usage_data,
        Some(VolumeUsage {
            size: 1,
            ref_count: 1
        })
    );
}

#[test]
fn unmatched_entry_changes_nothing() {
    let mut vols = vec![vol("data")];
    let entry = CliVolumeEntry {
        name: "other".to_string(),
        usage: CliUsage::Absent,
        size: Some("10MB".to_string()),
        links: None,
    };
    apply_usage_entry(&mut vols, &entry);
    assert_eq!(vols[0].usage_data, None);
}

#[test]
fn whole_report_merges_line_by_line() {
    let mut vols = vec![vol("a"), vol("b"), vol("c")];
    let entries = vec![
        CliVolumeEntry {
            name: "a".to_string(),
            usage: CliUsage::Parsed(VolumeUsage {
                size: 7,
                ref_count: 1,
            }),
            size: None,
            links: None,
        },
        CliVolumeEntry {
            name: "c".to_string(),
            usage: CliUsage::Absent,
            size: Some("2kB".to_string()),
            links: Some(0),
        },
        CliVolumeEntry {
            name: "missing".to_string(),
            usage: CliUsage::Absent,
            size: Some("1MB".to_string()),
            links: None,
        },
    ];
    augment_volumes(&mut vols, &entries);
    assert_eq!(
        vols[0].usage_data,
        Some(VolumeUsage {
            size: 7,
            ref_count: 1
        })
    );
    assert_eq!(vols[1].usage_data, None);
    assert_eq!(
        vols[2].usage_data,
        Some(VolumeUsage {
            size: 2000,
            ref_count: 0
        })
    );
}

#[test]
fn only_first_volume_of_a_name_is_updated() {
    let mut vols = vec![vol("dup"), vol("dup")];
    let entry = CliVolumeEntry {
        name: "dup".to_string(),
        usage: CliUsage::Parsed(VolumeUsage {
            size: 5,
            ref_count: 5,
        }),
        size: None,
        links: None,
    };
    apply_usage_entry(&mut vols, &entry);
    assert!(vols[0].usage_data.is_some());
    assert!(vols[1].usage_data.is_none());
}

use pump_index::model::Resolution;

#[test]
fn widths_in_seconds() {
    assert_eq!(Resolution::S1.to_seconds(), 1);
    assert_eq!(Resolution::M1.to_seconds(), 60);
    assert_eq!(Resolution::M5.to_seconds(), 300);
    assert_eq!(Resolution::M15.to_seconds(), 900);
    assert_eq!(Resolution::H1.to_seconds(), 3600);
    assert_eq!(Resolution::D1.to_seconds(), 86400);
}

#[test]
fn widths_in_millis() {
    assert_eq!(Resolution::S1.to_millis(), 1000);
    assert_eq!(Resolution::D1.to_millis(), 86_400_000);
}

#[test]
fn width_synonyms_agree() {
    for resolution in Resolution::all() {
        assert_eq!(resolution.as_seconds(), resolution.to_seconds());
        assert_eq!(resolution.as_millis(), resolution.to_millis());
    }
}

#[test]
fn all_resolutions_in_order() {
    let all = Resolution::all();
    assert_eq!(all.len(), 6);
    assert_eq!(all[0], Resolution::S1);
    assert_eq!(all[1], Resolution::M1);
    assert_eq!(all[2], Resolution::M5);
    assert_eq!(all[3], Resolution::M15);
    assert_eq!(all[4], Resolution::H1);
    assert_eq!(all[5], Resolution::D1);
}

#[test]
fn align_rounds_down_to_bucket_start() {
    assert_eq!(Resolution::M1.align(125), 120);
    assert_eq!(Resolution::M1.align(60), 60);
    assert_eq!(Resolution::M1.align(59), 0);
    assert_eq!(Resolution::H1.align(7199), 3600);
    assert_eq!(Resolution::D1.align(86_401), 86_400);
    assert_eq!(Resolution::S1.align(12345), 12345);
}

#[test]
fn align_is_idempotent() {
    for resolution in Resolution::all() {
        for t in [0u64, 1, 59, 60, 61, 3599, 86_399, 86_400, 1_700_000_000, u64::MAX] {
            let once = resolution.align(t);
            assert_eq!(resolution.align(once), once);
        }
    }
}

#[test]
fn short_names_follow_wire_encoding() {
    assert_eq!(Resolution::S1.short_name(), "S1");
    assert_eq!(Resolution::M1.short_name(), "M1");
    assert_eq!(Resolution::M5.short_name(), "M5");
    assert_eq!(Resolution::M15.short_name(), "M15");
    assert_eq!(Resolution::H1.short_name(), "H1");
    assert_eq!(Resolution::D1.short_name(), "D1");
}

use gatya_seed::gatya_data::{
    filter_valid_events, get_cat_list_from_ids, get_gatya_event, get_gatya_event_from_index,
    get_gatya_slot_data,
    get_slot_from_id, parse_gatya_cat_data, parse_gatya_events, parse_unitbuy_cat_data,
    thresholds_from_event, tier_sizes_from_slot_data, GatyaEvent,
};
use gatya_seed::model::RarityTier;
use gatya_seed::signature::{generate_signature, get_random_hex_str, sign_with_nonce};

fn event_line_one_variant() -> String {
    let mut fields: Vec<String> = (0..25).map(|i| format!("f{}", i)).collect();
    fields[0] = "20200101".to_string();
    fields[2] = "20200131".to_string();
    fields[9] = "1".to_string();
    fields[10] = "512".to_string();
    fields[16] = "6970".to_string();
    fields[18] = "2500".to_string();
    fields[20] = "500".to_string();
    fields[22] = "30".to_string();
    fields[24] = "Banner A".to_string();
    fields.join("\t")
}

fn event_line_two_variants() -> String {
    let mut fields: Vec<String> = (0..40).map(|i| format!("g{}", i)).collect();
    fields[0] = "20210501".to_string();
    fields[2] = "20210531".to_string();
    fields[9] = "2".to_string();
    fields[25] = "777".to_string();
    fields[31] = "9000".to_string();
    fields[33] = "900".to_string();
    fields[35] = "90".to_string();
    fields[37] = "10".to_string();
    fields[39] = "Banner B".to_string();
    fields.join("\t")
}

#[test]
fn event_table_parses_single_variant_banner() {
    let data = format!("{}\nshort\tline\n{}", event_line_one_variant(), event_line_two_variants());
    let events = parse_gatya_events(data).unwrap();
    assert_eq!(events.len(), 2);

    assert_eq!(events[0].index, 0);
    assert_eq!(events[0].start, "20200101");
    assert_eq!(events[0].end, "20200131");
    assert_eq!(events[0].gatya_id, "512");
    assert_eq!(events[0].rare_chance, "6970");
    assert_eq!(events[0].super_rare_chance, "2500");
    assert_eq!(events[0].uber_rare_chance, "500");
    assert_eq!(events[0].legend_rare_chance, "30");
    assert_eq!(events[0].banner_txt, "Banner A");

    assert_eq!(events[1].index, 2);
    assert_eq!(events[1].gatya_id, "777");
    assert_eq!(events[1].super_rare_chance, "900");
    assert_eq!(events[1].banner_txt, "Banner B");
}

#[test]
fn event_table_rejects_unreadable_variant_count() {
    let mut fields: Vec<String> = (0..25).map(|_| "0".to_string()).collect();
    fields[9] = "abc".to_string();
    let data = format!("{}\n{}", event_line_one_variant(), fields.join("\t"));
    let err = parse_gatya_events(data).unwrap_err();
    assert_eq!(err.record_index, 1);
}

#[test]
fn event_table_rejects_variant_count_past_record_end() {
    let mut fields: Vec<String> = (0..25).map(|_| "0".to_string()).collect();
    fields[9] = "3".to_string();
    let err = parse_gatya_events(fields.join("\t")).unwrap_err();
    assert_eq!(err.record_index, 0);
}

fn sample_events() -> Vec<GatyaEvent> {
    let mk = |index: u32, gatya_id: &str| GatyaEvent {
        index,
        start: "20200101".to_string(),
        end: "20200131".to_string(),
        gatya_id: gatya_id.to_string(),
        rare_chance: "6970".to_string(),
        super_rare_chance: "2500".to_string(),
        uber_rare_chance: "500".to_string(),
        legend_rare_chance: "30".to_string(),
        banner_txt: "B".to_string(),
    };
    vec![mk(0, "512"), mk(3, "88"), mk(5, "512")]
}

#[test]
fn event_lookup_by_id_returns_first_match() {
    let events = sample_events();
    let found = get_gatya_event(&events, 512).unwrap();
    assert_eq!(found.index, 0);
    let found = get_gatya_event(&events, 88).unwrap();
    assert_eq!(found.index, 3);
    assert!(get_gatya_event(&events, 999).is_none());
}

#[test]
fn events_without_banner_label_are_filtered_out() {
    let mut events = sample_events();
    events[1].banner_txt = String::new();
    let valid = filter_valid_events(&events);
    assert_eq!(valid.len(), 2);
    assert_eq!(valid[0].index, 0);
    assert_eq!(valid[1].index, 5);
}

#[test]
fn event_lookup_by_index() {
    let events = sample_events();
    let found = get_gatya_event_from_index(&events, 5).unwrap();
    assert_eq!(found.gatya_id, "512");
    assert!(get_gatya_event_from_index(&events, 4).is_none());
}

#[test]
fn cat_table_rows_stop_at_minus_one() {
    let rows = parse_gatya_cat_data("1,2,3,-1,9\n4,x,5".to_string());
    assert_eq!(rows, vec![vec![1, 2, 3], vec![4, 5]]);
}

#[test]
fn unit_table_rows_keep_every_integer() {
    let rows = parse_unitbuy_cat_data("7,-1,8\n,x,9".to_string());
    assert_eq!(rows, vec![vec![7, -1, 8], vec![9]]);
}

fn sample_slot_data() -> Vec<Vec<i32>> {
    // Unit rows: 14 columns, rarity code in the last one.
    let unit_row = |code: i32| -> Vec<i32> {
        let mut row = vec![0; 14];
        row[13] = code;
        row
    };
    let units: Vec<Vec<i32>> = vec![
        unit_row(2), // cat 0: Rare
        unit_row(2), // cat 1: Rare
        unit_row(3), // cat 2: SuperRare
        unit_row(4), // cat 3: UberRare
        unit_row(5), // cat 4: LegendRare
        unit_row(0), // cat 5: dropped
        unit_row(2), // cat 6: Rare
    ];
    let banners = vec![vec![0, 2, 3, 1, 4, 5, 6]];
    get_gatya_slot_data(0, banners, units)
}

#[test]
fn slot_data_sorts_cats_into_tiers() {
    let slots = sample_slot_data();
    assert_eq!(slots, vec![vec![0, 1, 6], vec![2], vec![3], vec![4]]);
}

#[test]
fn tier_sizes_come_from_slot_data() {
    let slots = sample_slot_data();
    let sizes = tier_sizes_from_slot_data(&slots);
    assert_eq!(sizes.rare, 3);
    assert_eq!(sizes.super_rare, 1);
    assert_eq!(sizes.uber_rare, 1);
    assert_eq!(sizes.legend_rare, 1);
}

#[test]
fn slot_lookup_finds_row_and_position() {
    let slots = sample_slot_data();
    assert_eq!(get_slot_from_id(&slots, 6), Some((0, 2)));
    assert_eq!(get_slot_from_id(&slots, 2), Some((1, 0)));
    assert_eq!(get_slot_from_id(&slots, 4), Some((3, 0)));
    assert_eq!(get_slot_from_id(&slots, 99), None);
}

#[test]
fn cat_ids_become_observations() {
    let slots = sample_slot_data();
    let obs = get_cat_list_from_ids(&slots, &vec![1, -2, 2]).unwrap();
    assert_eq!(obs.len(), 3);
    assert_eq!(obs[0].tier, RarityTier::Rare);
    assert_eq!(obs[0].slot, Some(1));
    assert_eq!(obs[1].tier, RarityTier::Blank);
    assert_eq!(obs[1].slot, None);
    assert_eq!(obs[2].tier, RarityTier::SuperRare);
    assert_eq!(obs[2].slot, Some(0));
}

#[test]
fn unknown_cat_id_rejects_the_list() {
    let slots = sample_slot_data();
    assert!(get_cat_list_from_ids(&slots, &vec![1, 42]).is_none());
}

#[test]
fn integer_fields_accept_signs_and_leading_zeros() {
    // The variant count "+01" must read as 1, placing the fields like "1".
    let line = event_line_one_variant().replace("\t1\t", "\t+01\t");
    let events = parse_gatya_events(line).unwrap();
    assert_eq!(events.len(), 1);
    assert_eq!(events[0].gatya_id, "512");
}

#[test]
fn integer_fields_reject_overflow_and_padding() {
    // A variant count past the 32-bit range is unreadable.
    let line = event_line_one_variant().replace("\t1\t", "\t99999999999\t");
    assert_eq!(parse_gatya_events(line).unwrap_err().record_index, 0);
    // So is one with trailing whitespace.
    let line = event_line_one_variant().replace("\t1\t", "\t1 \t");
    assert_eq!(parse_gatya_events(line).unwrap_err().record_index, 0);
}

fn event_with_chances(super_rare: &str, uber: &str, legend: &str) -> GatyaEvent {
    GatyaEvent {
        index: 0,
        start: "20200101".to_string(),
        end: "20200131".to_string(),
        gatya_id: "512".to_string(),
        rare_chance: "6970".to_string(),
        super_rare_chance: super_rare.to_string(),
        uber_rare_chance: uber.to_string(),
        legend_rare_chance: legend.to_string(),
        banner_txt: "B".to_string(),
    }
}

#[test]
fn event_thresholds_follow_the_chance_fields() {
    let th = thresholds_from_event(&event_with_chances("900", "90", "10")).unwrap();
    assert_eq!(th.super_rare_boundary, 9000);
    assert_eq!(th.uber_boundary, 9900);
    assert_eq!(th.legend_boundary, 9990);
    // An explicit plus sign reads like the plain number.
    let th = thresholds_from_event(&event_with_chances("+900", "90", "10")).unwrap();
    assert_eq!(th.super_rare_boundary, 9000);
}

#[test]
fn event_thresholds_reject_bad_chance_fields() {
    assert!(thresholds_from_event(&event_with_chances("x", "90", "10")).is_none());
    assert!(thresholds_from_event(&event_with_chances("-900", "90", "10")).is_none());
    assert!(thresholds_from_event(&event_with_chances("4294967296", "90", "10")).is_none());
    assert!(thresholds_from_event(&event_with_chances("9000", "900", "200")).is_none());
}

#[test]
fn signature_is_nonce_plus_keyed_digest() {
    let signed = sign_with_nonce("inquiry", "payload", "nonce0123");
    let mut mac =
        <hmac::Hmac<sha2::Sha256> as hmac::Mac>::new_from_slice(b"inquirynonce0123").unwrap();
    hmac::Mac::update(&mut mac, b"payload");
    let digest = hmac::Mac::finalize(mac).into_bytes();
    let expected = format!("nonce0123{}", hex::encode(digest));
    assert_eq!(signed, expected);
}

#[test]
fn generated_signature_has_nonce_and_digest() {
    let signed = generate_signature("inquiry".to_string(), "payload".to_string());
    assert_eq!(signed.len(), 64 + 64);
    assert!(signed.chars().all(|c| c.is_ascii_hexdigit() && !c.is_ascii_uppercase()));
}

#[test]
fn random_hex_has_requested_width() {
    let s = get_random_hex_str(16);
    assert_eq!(s.len(), 32);
    assert!(s.chars().all(|c| c.is_ascii_hexdigit() && !c.is_ascii_uppercase()));
    let t = get_random_hex_str(16);
    // Two 128-bit draws colliding would mean the generator is not random.
    assert_ne!(s, t);
}

use financetracker::identity::Identity;

#[test]
fn identity_text_is_lowercase_hyphenated() {
    let id = Identity { value: 0x67e5_5044_10b1_426f_9247_bb68_0e5f_e0c8 };
    assert_eq!(id.to_text(), "67e55044-10b1-426f-9247-bb680e5fe0c8");
}

#[test]
fn identity_text_reads_back() {
    let id = Identity { value: 0x0123_4567_89ab_cdef_fedc_ba98_7654_3210 };
    assert_eq!(Identity::parse(&id.to_text()), Some(id));
    assert_eq!(Identity::parse(&Identity { value: 0 }.to_text()), Some(Identity { value: 0 }));
}

#[test]
fn identity_parse_rejects_non_uuid_text() {
    assert_eq!(Identity::parse("not-a-uuid"), None);
    assert_eq!(Identity::parse(""), None);
}

#[test]
fn identity_parse_accepts_other_uuid_formats() {
    let id = Identity::parse("550E8400E29B41D4A716446655440000").unwrap();
    assert_eq!(id.value, 0x550e_8400_e29b_41d4_a716_4466_5544_0000);
}

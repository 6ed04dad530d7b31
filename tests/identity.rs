use cursor_reset::identity::{
    generate_hex_str, generate_identity, hex_string_from_digits, identity_from_parts,
    sqm_id_from_uuid, upper_hex_string,
};

fn is_lower_uuid(s: &str) -> bool {
    let b = s.as_bytes();
    b.len() == 36
        && b.iter().enumerate().all(|(i, c)| {
            if [8, 13, 18, 23].contains(&i) {
                *c == b'-'
            } else {
                c.is_ascii_digit() || (b'a'..=b'f').contains(c)
            }
        })
        && b[14] == b'4'
        && b"89ab".contains(&b[19])
}

#[test]
fn generated_identity_has_the_field_formats() {
    let d = generate_identity();
    assert!(is_lower_uuid(&d.mac_machine_id));
    assert!(is_lower_uuid(&d.dev_device_id));
    assert_eq!(d.machine_id.len(), 64);
    assert!(d.machine_id.bytes().all(|c| c.is_ascii_digit() || (b'a'..=b'f').contains(&c)));
    assert_eq!(d.sqm_id.len(), 38);
    assert!(d.sqm_id.starts_with('{') && d.sqm_id.ends_with('}'));
    let inner = &d.sqm_id[1..37];
    assert!(inner.bytes().all(|c| c == b'-' || c.is_ascii_digit() || (b'A'..=b'F').contains(&c)));
    assert!(is_lower_uuid(&inner.to_lowercase()));
}

#[test]
fn successive_identities_are_distinct() {
    let a = generate_identity();
    let b = generate_identity();
    let all = [
        a.mac_machine_id, a.machine_id, a.sqm_id, a.dev_device_id,
        b.mac_machine_id, b.machine_id, b.sqm_id, b.dev_device_id,
    ];
    for i in 0..all.len() {
        for j in (i + 1)..all.len() {
            assert_ne!(all[i], all[j]);
        }
    }
}

#[test]
fn hex_str_has_requested_length() {
    let s = generate_hex_str(64);
    assert_eq!(s.len(), 64);
    assert!(s.bytes().all(|c| c.is_ascii_digit() || (b'a'..=b'f').contains(&c)));
    assert_eq!(generate_hex_str(0), "");
}

#[test]
fn hex_digits_map_to_lowercase_text() {
    assert_eq!(hex_string_from_digits(&vec![0, 9, 10, 15, 4]), "09af4");
    assert_eq!(hex_string_from_digits(&vec![]), "");
}

#[test]
fn uppercase_touches_hex_letters_only() {
    assert_eq!(upper_hex_string("ab-09-ef-xyz"), "AB-09-EF-xyz");
}

#[test]
fn sqm_id_is_braced_uppercase() {
    assert_eq!(
        sqm_id_from_uuid("6f1c2d3e-4a5b-4c6d-8e7f-0123456789ab"),
        "{6F1C2D3E-4A5B-4C6D-8E7F-0123456789AB}"
    );
}

#[test]
fn identity_from_parts_places_each_field() {
    let d = identity_from_parts(
        "11111111-1111-4111-8111-111111111111".to_string(),
        &vec![1, 2, 11],
        "abcdefab-cdef-4abc-9def-abcdefabcdef",
        "22222222-2222-4222-a222-222222222222".to_string(),
    );
    assert_eq!(d.mac_machine_id, "11111111-1111-4111-8111-111111111111");
    assert_eq!(d.machine_id, "12b");
    assert_eq!(d.sqm_id, "{ABCDEFAB-CDEF-4ABC-9DEF-ABCDEFABCDEF}");
    assert_eq!(d.dev_device_id, "22222222-2222-4222-a222-222222222222");
}

use sonify_health::scale::{domain_from_hostname, root_offset_from_digest, scale_root_offset};

#[test]
fn domain_extraction() {
    assert_eq!(domain_from_hostname("gpu-1.lab.example.com"), "lab.example.com");
    assert_eq!(domain_from_hostname("foo.local"), "local");
    assert_eq!(domain_from_hostname("silicon"), "local");
}

#[test]
fn trailing_dot_falls_back_to_local() {
    assert_eq!(domain_from_hostname("host."), "local");
    assert_eq!(domain_from_hostname(".example"), "example");
}

#[test]
fn root_offset_is_first_digest_byte_mod_twelve() {
    assert_eq!(root_offset_from_digest(&[150, 1, 2]), 6);
    assert_eq!(scale_root_offset("lab.example.com"), 6);
    assert_eq!(scale_root_offset("prod.acme.io"), 8);
    assert_eq!(scale_root_offset("local"), 1);
}

#[test]
fn different_keys_different_roots() {
    assert_ne!(scale_root_offset("lab.example.com"), scale_root_offset("prod.acme.io"));
}

#[test]
fn same_domain_same_scale() {
    let a = domain_from_hostname("gpu-1.lab.example.com");
    let b = domain_from_hostname("gpu-2.lab.example.com");
    assert_eq!(scale_root_offset(&a), scale_root_offset(&b));
}

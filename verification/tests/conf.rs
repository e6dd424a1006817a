use spl_tool::{HeaderConf, DEF_BACKUP, DEF_SPL_FILE, DEF_VERS, PATH_MAX};

#[test]
fn path_constants() {
    assert_eq!(PATH_MAX, 4096);
    assert_eq!(DEF_SPL_FILE, "u-boot-spl.bin");
}

#[test]
fn new_conf_has_defaults() {
    let conf = HeaderConf::new();
    assert_eq!(conf.name(), "");
    assert_eq!(conf.name_len(), 0);
    assert_eq!(conf.vers(), DEF_VERS);
    assert_eq!(conf.vers(), 0x0101_0101);
    assert_eq!(conf.bofs(), DEF_BACKUP);
    assert_eq!(conf.bofs(), 0x20_0000);
    assert!(!conf.create_header());
    assert!(!conf.fix_image_header());
    assert_eq!(HeaderConf::default(), conf);
}

#[test]
fn name_is_stored_and_read_back() {
    let mut conf = HeaderConf::new();
    conf.set_name("u-boot-spl.bin");
    assert_eq!(conf.name(), "u-boot-spl.bin");
    assert_eq!(conf.name_len(), 14);
    conf.set_name("/tmp/a");
    assert_eq!(conf.name(), "/tmp/a");
    assert_eq!(conf.name_len(), 6);
    conf.set_name("");
    assert_eq!(conf.name(), "");
    assert_eq!(conf.name_len(), 0);
}

#[test]
fn name_may_hold_any_utf8() {
    let conf = HeaderConf::new().with_name("Büro/größe/日本語.bin");
    assert_eq!(conf.name(), "Büro/größe/日本語.bin");
    assert_eq!(conf.name_len(), "Büro/größe/日本語.bin".len());
}

#[test]
fn name_ends_at_first_zero_byte() {
    let conf = HeaderConf::new().with_name("abc\0def");
    assert_eq!(conf.name(), "abc");
    assert_eq!(conf.name_len(), 3);
    let conf = HeaderConf::new().with_name("\0abc");
    assert_eq!(conf.name(), "");
    assert_eq!(conf.name_len(), 0);
}

#[test]
fn longest_name_is_kept_whole() {
    let long = "x".repeat(4095);
    let conf = HeaderConf::new().with_name(&long);
    assert_eq!(conf.name(), long);
    assert_eq!(conf.name_len(), 4095);
}

#[test]
fn longer_names_are_cut() {
    let kept = "y".repeat(4095);
    for extra in [1usize, 2, 1000] {
        let long = "y".repeat(4095 + extra);
        let conf = HeaderConf::new().with_name(&long);
        assert_eq!(conf.name(), kept);
        assert_eq!(conf.name_len(), 4095);
    }
}

#[test]
fn name_cut_inside_a_character_reads_as_empty() {
    let mut long = "z".repeat(4094);
    long.push('é');
    assert_eq!(long.len(), 4096);
    let conf = HeaderConf::new().with_name(&long);
    assert_eq!(conf.name_len(), 4095);
    assert_eq!(conf.name(), "");
}

#[test]
fn name_cut_between_characters_is_kept() {
    let mut long = "z".repeat(4093);
    long.push('é');
    long.push('é');
    assert_eq!(long.len(), 4097);
    let mut kept = "z".repeat(4093);
    kept.push('é');
    let conf = HeaderConf::new().with_name(&long);
    assert_eq!(conf.name_len(), 4095);
    assert_eq!(conf.name(), kept);
}

#[test]
fn shorter_name_replaces_longer_one() {
    let mut conf = HeaderConf::new().with_name("a/very/long/path/to/the/image.bin");
    conf.set_name("b");
    assert_eq!(conf.name(), "b");
    assert_eq!(conf.name_len(), 1);
    assert_eq!(conf, HeaderConf::new().with_name("b"));
}

#[test]
fn conf_setters_change_one_field_each() {
    let mut conf = HeaderConf::new();
    conf.set_name("img");
    conf.set_vers(0x0505_0505);
    assert_eq!(conf.vers(), 0x0505_0505);
    assert_eq!(conf.bofs(), DEF_BACKUP);
    conf.set_bofs(0x30_0000);
    assert_eq!(conf.bofs(), 0x30_0000);
    conf.set_create_header(true);
    assert!(conf.create_header());
    assert!(!conf.fix_image_header());
    conf.set_fix_image_header(true);
    assert!(conf.fix_image_header());
    conf.set_create_header(false);
    assert!(!conf.create_header());
    assert!(conf.fix_image_header());
    assert_eq!(conf.name(), "img");
    assert_eq!(conf.vers(), 0x0505_0505);
    assert_eq!(conf.bofs(), 0x30_0000);
}

#[test]
fn conf_builders_match_setters() {
    let built = HeaderConf::new()
        .with_name("spl.bin")
        .with_vers(0)
        .with_bofs(0)
        .with_create_header(true)
        .with_fix_image_header(false);
    let mut set = HeaderConf::new();
    set.set_name("spl.bin");
    set.set_vers(0);
    set.set_bofs(0);
    set.set_create_header(true);
    set.set_fix_image_header(false);
    assert_eq!(built, set);
    assert_eq!(built.name(), "spl.bin");
    assert_eq!(built.vers(), 0);
    assert_eq!(built.bofs(), 0);
    assert!(built.create_header());
    assert!(!built.fix_image_header());
}

#[test]
fn new_conf_equals_default_conf() {
    assert_eq!(HeaderConf::new(), HeaderConf::default());
    assert_eq!(HeaderConf::default().name(), "");
    assert_eq!(HeaderConf::default().name_len(), 0);
}

#[test]
fn nothing_of_an_earlier_name_is_left() {
    let long = "q".repeat(4095);
    let fresh = HeaderConf::new().with_name("short");
    let reused = HeaderConf::new().with_name(&long).with_name("short");
    assert_eq!(reused, fresh);
    let emptied = HeaderConf::new().with_name(&long).with_name("");
    assert_eq!(emptied, HeaderConf::new());
    let cut = HeaderConf::new().with_name("abc\0def").with_name("abc");
    assert_eq!(cut, HeaderConf::new().with_name("abc"));
}

#[test]
fn bytes_behind_a_zero_byte_are_stored_but_not_read() {
    let hidden = HeaderConf::new().with_name("abc\0def");
    let plain = HeaderConf::new().with_name("abc");
    assert_eq!(hidden.name(), plain.name());
    assert_eq!(hidden.name_len(), plain.name_len());
    assert_ne!(hidden, plain);
}

#[test]
fn other_setters_keep_the_name_buffer() {
    let named = HeaderConf::new().with_name("abc\0def");
    let changed = named
        .with_vers(9)
        .with_bofs(8)
        .with_create_header(true)
        .with_fix_image_header(true);
    assert_eq!(changed.name(), "abc");
    let back = changed
        .with_vers(named.vers())
        .with_bofs(named.bofs())
        .with_create_header(false)
        .with_fix_image_header(false);
    assert_eq!(back, named);
}

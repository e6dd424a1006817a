use spl_tool::{
    crc32, crc32_final, create_header, fix_existing_header, spl_create_header,
    spl_fix_image_header, Error, HeaderConf, UbootSplHeader, CRC_FAILED, DEF_BACKUP, DEF_VERS,
    MAX_SPL_LEN, SPL_HEADER_LEN,
};

fn image(len: usize) -> Vec<u8> {
    let mut bytes = Vec::with_capacity(len);
    for i in 0..len {
        bytes.push((i * 7 + 3) as u8);
    }
    bytes
}

fn header_bytes_with(bofs: u32, vers: u32, fsiz: u32, crcs: u32) -> Vec<u8> {
    let mut bytes = vec![0u8; 1024];
    bytes[0..4].copy_from_slice(&0x240u32.to_le_bytes());
    bytes[4..8].copy_from_slice(&bofs.to_le_bytes());
    bytes[644..648].copy_from_slice(&vers.to_le_bytes());
    bytes[648..652].copy_from_slice(&fsiz.to_le_bytes());
    bytes[652..656].copy_from_slice(&0x400u32.to_le_bytes());
    bytes[656..660].copy_from_slice(&crcs.to_le_bytes());
    bytes
}

#[test]
fn size_limit_constant() {
    assert_eq!(MAX_SPL_LEN, 180048);
}

#[test]
fn create_header_for_four_bytes() {
    let payload = [0x00u8, 0x01, 0x02, 0x03];
    let (bytes, header) = create_header(&payload, None, None).unwrap();
    assert_eq!(header.sofs(), 0x240);
    assert_eq!(header.bofs(), 0x20_0000);
    assert_eq!(header.vers(), 0x0101_0101);
    assert_eq!(header.fsiz(), 4);
    assert_eq!(header.resl(), 0x400);
    assert_eq!(header.crcs(), 0x8BB9_8613);
    assert_eq!(
        &bytes[..],
        &header_bytes_with(0x20_0000, 0x0101_0101, 4, 0x8BB9_8613)[..]
    );
    assert_eq!(bytes, header.serialize());
}

#[test]
fn create_header_stores_the_checksum_of_the_payload() {
    let payload = image(5000);
    let (_, header) = create_header(&payload, None, None).unwrap();
    assert_eq!(
        header.crcs(),
        crc32_final(crc32(0xFFFF_FFFF, 0x04C1_1DB7, &payload))
    );
    assert_eq!(header.fsiz(), 5000);
}

#[test]
fn create_header_rejects_empty_payload() {
    assert_eq!(
        create_header(&[], None, None),
        Err(Error::InvalidSplLen((0, 180048)))
    );
    assert_eq!(
        create_header(&[], Some(5), Some(6)),
        Err(Error::InvalidSplLen((0, 180048)))
    );
}

#[test]
fn create_header_rejects_payload_at_the_limit() {
    let payload = image(180048);
    assert_eq!(
        create_header(&payload, None, None),
        Err(Error::InvalidSplLen((180048, 180048)))
    );
}

#[test]
fn create_header_rejects_payload_over_the_limit() {
    let payload = image(180049);
    assert_eq!(
        create_header(&payload, None, None),
        Err(Error::InvalidSplLen((180049, 180048)))
    );
    let payload = image(400_000);
    assert_eq!(
        create_header(&payload, None, None),
        Err(Error::InvalidSplLen((400_000, 180048)))
    );
}

#[test]
fn create_header_accepts_longest_payload() {
    let payload = image(180047);
    let (bytes, header) = create_header(&payload, None, None).unwrap();
    assert_eq!(header.fsiz(), 180047);
    assert_eq!(header.crcs(), 0x3B0F_CCDF);
    assert_eq!(&bytes[648..652], &[0x4F, 0xBF, 0x02, 0x00]);
    assert_eq!(&bytes[656..660], &[0xDF, 0xCC, 0x0F, 0x3B]);
}

#[test]
fn create_header_accepts_single_byte() {
    let (bytes, header) = create_header(&[0xFF], None, None).unwrap();
    assert_eq!(header.fsiz(), 1);
    assert_eq!(header.crcs(), 0xFF00_0000);
    assert_eq!(UbootSplHeader::deserialize(&bytes), Ok(header));
}

#[test]
fn zero_version_override_means_default() {
    let payload = image(64);
    let none = create_header(&payload, None, None).unwrap();
    let zero = create_header(&payload, Some(0), None).unwrap();
    assert_eq!(zero, none);
    assert_eq!(zero.1.vers(), 0x0101_0101);
}

#[test]
fn zero_backup_override_means_default() {
    let payload = image(64);
    let none = create_header(&payload, None, None).unwrap();
    let zero = create_header(&payload, None, Some(0)).unwrap();
    let both = create_header(&payload, Some(0), Some(0)).unwrap();
    assert_eq!(zero, none);
    assert_eq!(both, none);
    assert_eq!(zero.1.bofs(), 0x20_0000);
}

#[test]
fn overrides_replace_defaults() {
    let payload = image(64);
    let (bytes, header) = create_header(&payload, Some(0x0202_0202), Some(0x40_0000)).unwrap();
    assert_eq!(header.vers(), 0x0202_0202);
    assert_eq!(header.bofs(), 0x40_0000);
    assert_eq!(&bytes[4..8], &[0x00, 0x00, 0x40, 0x00]);
    assert_eq!(&bytes[644..648], &[0x02, 0x02, 0x02, 0x02]);
    let (_, only_version) = create_header(&payload, Some(1), None).unwrap();
    assert_eq!(only_version.vers(), 1);
    assert_eq!(only_version.bofs(), DEF_BACKUP);
    let (_, only_backup) = create_header(&payload, None, Some(u32::MAX)).unwrap();
    assert_eq!(only_backup.vers(), DEF_VERS);
    assert_eq!(only_backup.bofs(), u32::MAX);
}

#[test]
fn fix_sets_failed_checksum_whatever_it_was() {
    for old in [0u32, 1, 0x8BB9_8613, 0x5A5A_5A5A, 0xFFFF_FFFF] {
        let mut existing = [0u8; SPL_HEADER_LEN];
        existing.copy_from_slice(&header_bytes_with(0x20_0000, 0x0101_0101, 4, old));
        let fixed = fix_existing_header(existing, None).unwrap();
        let header = UbootSplHeader::deserialize(&fixed).unwrap();
        assert_eq!(header.crcs(), 0x5A5A_5A5A);
        assert_eq!(&fixed[656..660], &[0x5A, 0x5A, 0x5A, 0x5A]);
    }
}

#[test]
fn fix_sets_backup_offset() {
    let mut existing = [0u8; SPL_HEADER_LEN];
    existing.copy_from_slice(&header_bytes_with(0x1234, 0x0101_0101, 4, 7));

    let fixed = fix_existing_header(existing, Some(0x60_0000)).unwrap();
    assert_eq!(UbootSplHeader::deserialize(&fixed).unwrap().bofs(), 0x60_0000);
    assert_eq!(&fixed[4..8], &[0x00, 0x00, 0x60, 0x00]);

    let fixed = fix_existing_header(existing, None).unwrap();
    assert_eq!(UbootSplHeader::deserialize(&fixed).unwrap().bofs(), 0x20_0000);

    let fixed = fix_existing_header(existing, Some(0)).unwrap();
    assert_eq!(UbootSplHeader::deserialize(&fixed).unwrap().bofs(), 0x20_0000);
    assert_eq!(&fixed[4..8], &[0x00, 0x00, 0x20, 0x00]);
}

#[test]
fn fix_keeps_every_other_byte() {
    let mut existing = [0u8; SPL_HEADER_LEN];
    for (i, b) in existing.iter_mut().enumerate() {
        *b = (i % 253) as u8 ^ 0xA5;
    }
    let fixed = fix_existing_header(existing, Some(0x0BAD_F00D)).unwrap();
    assert_eq!(&fixed[0..4], &existing[0..4]);
    assert_eq!(&fixed[4..8], &[0x0D, 0xF0, 0xAD, 0x0B]);
    assert_eq!(&fixed[8..656], &existing[8..656]);
    assert_eq!(&fixed[656..660], &[0x5A, 0x5A, 0x5A, 0x5A]);
    assert_eq!(&fixed[660..1024], &existing[660..1024]);
}

#[test]
fn fix_twice_is_fix_once() {
    let mut existing = [0u8; SPL_HEADER_LEN];
    existing.copy_from_slice(&header_bytes_with(3, 4, 5, 6));
    let once = fix_existing_header(existing, Some(9)).unwrap();
    let twice = fix_existing_header(once, Some(9)).unwrap();
    assert_eq!(once, twice);
}

#[test]
fn fix_of_created_header() {
    let (bytes, header) = create_header(&image(100), Some(3), None).unwrap();
    let fixed = fix_existing_header(bytes, None).unwrap();
    let expected = header.with_crcs(CRC_FAILED).with_bofs(DEF_BACKUP);
    assert_eq!(UbootSplHeader::deserialize(&fixed), Ok(expected));
}

#[test]
fn configured_create_does_nothing_unless_asked() {
    let conf = HeaderConf::new();
    assert_eq!(spl_create_header(&conf, &image(10)), Ok(None));
    assert_eq!(spl_create_header(&conf, &[]), Ok(None));
    let conf = HeaderConf::new().with_fix_image_header(true);
    assert_eq!(spl_create_header(&conf, &image(10)), Ok(None));
}

#[test]
fn configured_create_uses_the_configuration() {
    let payload = image(10);
    let conf = HeaderConf::new()
        .with_create_header(true)
        .with_vers(0)
        .with_bofs(0);
    assert_eq!(
        spl_create_header(&conf, &payload),
        Ok(Some(create_header(&payload, None, None).unwrap()))
    );
    let conf = conf.with_vers(0x0303_0303).with_bofs(0x80_0000);
    let (bytes, header) = spl_create_header(&conf, &payload).unwrap().unwrap();
    assert_eq!(header.vers(), 0x0303_0303);
    assert_eq!(header.bofs(), 0x80_0000);
    assert_eq!(bytes, header.serialize());
}

#[test]
fn configured_create_reports_bad_length() {
    let conf = HeaderConf::new().with_create_header(true);
    assert_eq!(
        spl_create_header(&conf, &[]),
        Err(Error::InvalidSplLen((0, 180048)))
    );
    assert_eq!(
        spl_create_header(&conf, &image(180048)),
        Err(Error::InvalidSplLen((180048, 180048)))
    );
    assert!(spl_create_header(&conf, &image(180047)).unwrap().is_some());
}

#[test]
fn configured_fix_does_nothing_unless_asked() {
    let existing = [0x11u8; SPL_HEADER_LEN];
    assert_eq!(spl_fix_image_header(&HeaderConf::new(), existing), Ok(None));
    let conf = HeaderConf::new().with_create_header(true);
    assert_eq!(spl_fix_image_header(&conf, existing), Ok(None));
}

#[test]
fn configured_fix_uses_the_configuration() {
    let existing = [0x11u8; SPL_HEADER_LEN];
    let conf = HeaderConf::new().with_fix_image_header(true);
    assert_eq!(
        spl_fix_image_header(&conf, existing),
        Ok(Some(fix_existing_header(existing, Some(DEF_BACKUP)).unwrap()))
    );
    let conf = conf.with_bofs(0);
    assert_eq!(
        spl_fix_image_header(&conf, existing),
        Ok(Some(fix_existing_header(existing, None).unwrap()))
    );
    let conf = conf.with_bofs(0x0070_0000);
    let fixed = spl_fix_image_header(&conf, existing).unwrap().unwrap();
    assert_eq!(&fixed[4..8], &[0x00, 0x00, 0x70, 0x00]);
    assert_eq!(&fixed[656..660], &[0x5A, 0x5A, 0x5A, 0x5A]);
    assert_eq!(&fixed[8..656], &existing[8..656]);
}

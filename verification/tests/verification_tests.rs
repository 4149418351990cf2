use llvmup::verification::{hex_decode, parse_sha512_checksum_line, parse_sha512_checksums, Error};

fn sample_digest() -> String {
    // 64 bytes: 0x00, 0x01, ..., 0x3f.
    (0u8..64).map(|b| format!("{b:02x}")).collect()
}

#[test]
fn hex_decoding_reads_pairs_of_digits() {
    assert_eq!(hex_decode("00ff10Ab"), Some(vec![0x00, 0xff, 0x10, 0xab]));
    assert_eq!(hex_decode(""), Some(Vec::new()));
    assert_eq!(hex_decode("abc"), None);
    assert_eq!(hex_decode("zz"), None);
}

#[test]
fn checksum_line_yields_file_and_digest() {
    let line = format!("{}  clang-17.0.2.tar.xz", sample_digest());
    let (file, digest) = parse_sha512_checksum_line(&line).unwrap();
    assert_eq!(file, "clang-17.0.2.tar.xz");
    assert_eq!(digest.len(), 64);
    assert_eq!(digest[0], 0);
    assert_eq!(digest[63], 63);
}

#[test]
fn checksum_line_errors_name_the_missing_part() {
    assert!(matches!(
        parse_sha512_checksum_line(""),
        Err(Error::Sha512EntryMissingDigest)
    ));
    assert!(matches!(
        parse_sha512_checksum_line("nothex file"),
        Err(Error::HexDecode)
    ));
    assert!(matches!(
        parse_sha512_checksum_line("00ff file"),
        Err(Error::DigestFromExactIter)
    ));
    let digest_only = sample_digest();
    assert!(matches!(
        parse_sha512_checksum_line(&digest_only),
        Err(Error::Sha512EntryMissingFilename)
    ));
}

#[test]
fn checksum_listing_is_keyed_and_sorted_by_file_name() {
    let text = format!(
        "{d}  zeta.tar.xz\n{d}  alpha.tar.xz\r\n",
        d = sample_digest()
    );
    let table = parse_sha512_checksums(&text).unwrap();
    assert_eq!(table.len(), 2);
    assert_eq!(table[0].0, "alpha.tar.xz");
    assert_eq!(table[1].0, "zeta.tar.xz");
    assert_eq!(parse_sha512_checksums("").unwrap().len(), 0);
}

#[test]
fn checksum_listing_stops_at_a_malformed_line() {
    let text = format!("{}  good.tar.xz\nbroken\n", sample_digest());
    assert!(matches!(
        parse_sha512_checksums(&text),
        Err(Error::HexDecode)
    ));
}

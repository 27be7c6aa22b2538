use dms_fetch::fetcher::{derive_filename, dmo_prompt, filenames_unique, hash_marker, req_prompt, Fetcher};

fn step_pair(f: &Fetcher, i: usize) -> (Vec<u8>, Vec<u8>) {
    let s = f.step_at(i);
    (s.send_bytes().clone(), s.expect_bytes().clone())
}

#[test]
fn filename_is_uppercased_and_joined() {
    assert_eq!(derive_filename("net", "dslk"), b"NET/DSLK.txt".to_vec());
}

#[test]
fn filename_ignores_input_case() {
    assert_eq!(derive_filename("NeT", "DsLk"), derive_filename("net", "dslk"));
    assert_eq!(derive_filename("NET", "DSLK"), b"NET/DSLK.txt".to_vec());
}

#[test]
fn dmo_prompt_pads_short_words_to_four() {
    assert_eq!(dmo_prompt("REQ"), b"    REQ   ".to_vec());
    assert_eq!(dmo_prompt("TG"), b"    TG    ".to_vec());
}

#[test]
fn dmo_prompt_leaves_long_words_unpadded() {
    assert_eq!(dmo_prompt("HTGP"), b"    HTGP  ".to_vec());
    assert_eq!(dmo_prompt("EBSG1"), b"    EBSG1  ".to_vec());
}

#[test]
fn marker_constructors_match_their_literals() {
    assert_eq!(hash_marker(), b"  # ".to_vec());
    assert_eq!(req_prompt(), b"    REQ   ".to_vec());
}

#[test]
fn common_dmo_has_the_standard_five_steps() {
    let f = Fetcher::common_dmo("cpk", "pack");
    assert_eq!(f.filename(), &b"CPK/PACK.txt".to_vec());
    assert_eq!(f.step_count(), 5);
    assert_eq!(step_pair(&f, 0), (b"****\n".to_vec(), b"  # ".to_vec()));
    assert_eq!(step_pair(&f, 1), (b"ovly cpk\n".to_vec(), b"    REQ   ".to_vec()));
    assert_eq!(step_pair(&f, 2), (b"que\n".to_vec(), b"    TYP   ".to_vec()));
    assert_eq!(step_pair(&f, 3), (b"pack\n".to_vec(), b"    PACK  ".to_vec()));
    assert_eq!(step_pair(&f, 4), (b"all\n".to_vec(), b"    REQ   ".to_vec()));
}

#[test]
fn common_dmo_with_prompt_takes_the_prompt_verbatim() {
    let f = Fetcher::common_dmo_with_prompt("hunt", "dnh", "    HTGP   ");
    assert_eq!(f.filename(), &b"HUNT/DNH.txt".to_vec());
    assert_eq!(f.step_count(), 5);
    assert_eq!(step_pair(&f, 2), (b"que\n".to_vec(), b"    TYP   ".to_vec()));
    assert_eq!(step_pair(&f, 3), (b"dnh\n".to_vec(), b"    HTGP   ".to_vec()));
}

#[test]
fn wide_dmo_uses_the_wider_type_prompt() {
    let f = Fetcher::wide_dmo_with_prompt("mbs", "mbs", "    MBS    ");
    assert_eq!(f.filename(), &b"MBS/MBS.txt".to_vec());
    assert_eq!(f.step_count(), 5);
    assert_eq!(step_pair(&f, 2), (b"que\n".to_vec(), b"    TYP    ".to_vec()));
    assert_eq!(step_pair(&f, 3), (b"mbs\n".to_vec(), b"    MBS    ".to_vec()));
}

#[test]
fn no_prompt_shape_skips_the_selection_step() {
    let f = Fetcher::common_dmo_no_prompt("ain", "adsc");
    assert_eq!(f.filename(), &b"AIN/ADSC.txt".to_vec());
    assert_eq!(f.step_count(), 4);
    assert_eq!(step_pair(&f, 2), (b"que\n".to_vec(), b"    TYP   ".to_vec()));
    assert_eq!(step_pair(&f, 3), (b"adsc\n".to_vec(), b"    REQ   ".to_vec()));
}

#[test]
fn cli_shape_nests_an_extra_selection() {
    let f = Fetcher::cli("cli", "tg", "    TG    ");
    assert_eq!(f.filename(), &b"CLI/TG.txt".to_vec());
    assert_eq!(f.step_count(), 6);
    assert_eq!(step_pair(&f, 2), (b"que\n".to_vec(), b"    TYP   ".to_vec()));
    assert_eq!(step_pair(&f, 3), (b"cli\n".to_vec(), b"    CLI   ".to_vec()));
    assert_eq!(step_pair(&f, 4), (b"tg\n".to_vec(), b"    TG    ".to_vec()));
    assert_eq!(step_pair(&f, 5), (b"all\n".to_vec(), b"    REQ   ".to_vec()));
}

#[test]
fn trns_active_files_under_the_active_prefix() {
    let f = Fetcher::trns_active("dns");
    assert_eq!(f.filename(), &b"TRNS/active/DNS.txt".to_vec());
    assert_eq!(f.step_count(), 5);
    assert_eq!(step_pair(&f, 1), (b"ovly trns\n".to_vec(), b"    REQ   ".to_vec()));
    assert_eq!(step_pair(&f, 2), (b"que\n".to_vec(), b"    TYP   ".to_vec()));
    assert_eq!(step_pair(&f, 3), (b"dns\n".to_vec(), b"    DNS   ".to_vec()));
}

#[test]
fn trns_inactive_queries_with_quei() {
    let f = Fetcher::trns_inactive("ebsp");
    assert_eq!(f.filename(), &b"TRNS/inactive/EBSP.txt".to_vec());
    assert_eq!(f.step_count(), 5);
    assert_eq!(step_pair(&f, 2), (b"quei\n".to_vec(), b"    TYP   ".to_vec()));
    assert_eq!(step_pair(&f, 3), (b"ebsp\n".to_vec(), b"    EBSP  ".to_vec()));
}

#[test]
fn distinct_filenames_pass_the_uniqueness_check() {
    let catalogue = vec![
        Fetcher::common_dmo("cpk", "pack"),
        Fetcher::common_dmo("cpk", "slc"),
        Fetcher::trns_active("dns"),
    ];
    assert!(filenames_unique(&catalogue));
}

#[test]
fn duplicate_filenames_fail_the_uniqueness_check() {
    let catalogue = vec![
        Fetcher::common_dmo("cpk", "pack"),
        Fetcher::common_dmo_with_prompt("cpk", "pack", "    PACK  "),
    ];
    assert!(!filenames_unique(&catalogue));
}

#[test]
fn begin_starts_with_nothing_collected() {
    let f = Fetcher::common_dmo("trk", "trk");
    let e = f.begin();
    assert!(!e.is_done(&f));
    assert_eq!(e.into_output(), Vec::<u8>::new());
}

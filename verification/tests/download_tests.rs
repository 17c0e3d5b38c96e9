use photobooth::download::{download_file, download_zip_file, zip_filename};

#[test]
fn zip_download_builds_a_data_url() {
    // 0xFF 0xFF 0xFF is four times the 63rd alphabet character, which in
    // URL-safe base64 is an underscore.
    let r = download_zip_file(vec![255, 255, 255], String::from("x.zip"));
    assert_eq!(r.href, "data:application/zip;base64,____");
    assert_eq!(r.filename, "x.zip");
    assert_eq!(r.mime, "application/zip");
}

#[test]
fn download_file_carries_the_given_mime_type() {
    let r = download_file(vec![0, 0, 0], String::from("n"), String::from("text/plain"));
    assert_eq!(r.href, "data:text/plain;base64,AAAA");
    assert_eq!(r.mime, "text/plain");
}

#[test]
fn empty_payload_encodes_to_bare_prefix() {
    let r = download_zip_file(Vec::new(), String::from("empty.zip"));
    assert_eq!(r.href, "data:application/zip;base64,");
}

#[test]
fn zip_filename_appends_the_suffix() {
    assert_eq!(zip_filename("2024-01-05 09-30-07"), "2024-01-05 09-30-07 Photos.zip");
}

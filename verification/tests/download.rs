use nsis_tauri_utils::download::{
    content_length, download_status, parse_decimal_u128, progress_rows, style_is_visible,
    DownloadOutcome, DownloadProgress, ProgressRows, RequestError,
};

#[test]
fn download_status_codes() {
    assert_eq!(download_status(DownloadOutcome::Saved), 0);
    assert_eq!(download_status(DownloadOutcome::SaveFailed), 1);
    assert_eq!(download_status(DownloadOutcome::RequestFailed(RequestError::Status(404))), 404);
    assert_eq!(download_status(DownloadOutcome::RequestFailed(RequestError::Transport)), 499);
}

#[test]
fn visibility_bit() {
    assert!(style_is_visible(0x1000_0000));
    assert!(style_is_visible(0x5000_0000));
    assert!(!style_is_visible(0x4000_0000));
    assert!(!style_is_visible(0));
    assert!(style_is_visible(-1));
}

#[test]
fn rows_move_up_when_details_are_shown() {
    assert_eq!(progress_rows(true), ProgressRows { bar: 40, title: 60, counter: 78 });
    assert_eq!(progress_rows(false), ProgressRows { bar: 75, title: 95, counter: 113 });
}

#[test]
fn progress_moves_and_hides_once() {
    let mut p = DownloadProgress::new(4096);
    let u = p.on_chunk(1024, false);
    assert!(!u.move_rows);
    assert_eq!((u.read, u.read_kib, u.total_kib), (1024, 1, 4));
    assert!(!p.on_percentage(false));
    let u = p.on_chunk(2048, true);
    assert!(u.move_rows);
    assert_eq!(u.read_kib, 3);
    let u = p.on_chunk(1024, true);
    assert!(!u.move_rows);
    assert_eq!(u.read, 4096);
    assert!(p.on_percentage(true));
    assert!(!p.on_percentage(true));
}

#[test]
fn decimal_numbers_as_std_reads_them() {
    for text in ["0", "123", "+7", "", "+", "-1", " 12", "12a", "340282366920938463463374607431768211455",
        "340282366920938463463374607431768211456", "0007"] {
        assert_eq!(parse_decimal_u128(text), text.parse::<u128>().ok(), "{text:?}");
    }
}

#[test]
fn content_length_defaults_to_zero() {
    assert_eq!(content_length(None), Some(0));
    assert_eq!(content_length(Some("1048576")), Some(1_048_576));
    assert_eq!(content_length(Some("large")), None);
}

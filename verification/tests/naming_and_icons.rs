use skipuac::icon::{bgra_to_rgba, encode_icon_png, icon_buffer_len, icon_data_url, png_outcome, PngFailure};
use skipuac::naming::{icon_file_name_for, identity_hash_hex, sanitize_for_task_name, task_name_for};

#[test]
fn sanitize_replaces_and_trims() {
    assert_eq!(sanitize_for_task_name("My App!"), "My_App");
    assert_eq!(sanitize_for_task_name("__x__"), "x");
    assert_eq!(sanitize_for_task_name("Café Tool"), "Caf__Tool");
    assert_eq!(sanitize_for_task_name("***"), "App");
    assert_eq!(sanitize_for_task_name(""), "App");
}

#[test]
fn sanitize_is_idempotent_on_examples() {
    for s in ["My App!", "", "__", "a-b-c", "日本語", "x_1"] {
        let once = sanitize_for_task_name(s);
        assert_eq!(sanitize_for_task_name(&once), once);
    }
}

#[test]
fn identity_hash_is_blake3_hex() {
    assert_eq!(
        identity_hash_hex("", None),
        "af1349b9f5f9a1a6a0404dea36dcc9499bcb25c9adc112b7cc9a93cae41f3262"
    );
    assert_eq!(
        identity_hash_hex("C:\\a.exe", Some("--x")),
        blake3::hash(b"C:\\a.exe\n--x").to_hex().to_string()
    );
}

#[test]
fn task_name_layout() {
    let hex = blake3::hash("C:\\Tools\\a.exe".as_bytes()).to_hex().to_string();
    assert_eq!(
        task_name_for("My App", "C:\\Tools\\a.exe", None),
        format!("elevated_My_App_{}", &hex[..10])
    );
    let hex2 = blake3::hash(b"C:\\Tools\\a.exe\n-v").to_hex().to_string();
    assert_eq!(
        task_name_for("!!", "C:\\Tools\\a.exe", Some("-v")),
        format!("elevated_App_{}", &hex2[..10])
    );
}

#[test]
fn task_name_charset_on_example() {
    let t = task_name_for("Ünï côdé", "C:\\x.exe", Some("a b"));
    assert!(t.starts_with("elevated_"));
    assert!(t.chars().all(|c| c.is_ascii_alphanumeric() || c == '_'));
}

#[test]
fn icon_file_name_uses_sixteen_hex_digits() {
    let hex = blake3::hash(b"C:\\x.exe").to_hex().to_string();
    assert_eq!(icon_file_name_for("C:\\x.exe", None), format!("{}.png", &hex[..16]));
}

#[test]
fn channel_swap() {
    let mut px = vec![1u8, 2, 3, 4, 5, 6, 7, 8, 9];
    bgra_to_rgba(&mut px);
    assert_eq!(px, vec![3u8, 2, 1, 4, 7, 6, 5, 8, 9]);
    bgra_to_rgba(&mut px);
    assert_eq!(px, vec![1u8, 2, 3, 4, 5, 6, 7, 8, 9]);
}

#[test]
fn icon_buffer_sizes() {
    assert_eq!(icon_buffer_len(16, 16), Ok(1024));
    assert_eq!(icon_buffer_len(0, 16), Err("invalid icon bitmap size".to_string()));
    assert_eq!(icon_buffer_len(3, -1), Err("invalid icon bitmap size".to_string()));
}

#[test]
fn icon_png_round_trip() {
    let bgra = vec![10u8, 20, 30, 255, 40, 50, 60, 128];
    let bytes = encode_icon_png(2, 1, bgra).unwrap();
    let decoder = png::Decoder::new(std::io::Cursor::new(bytes));
    let mut reader = decoder.read_info().unwrap();
    let mut buf = vec![0u8; reader.output_buffer_size()];
    let info = reader.next_frame(&mut buf).unwrap();
    assert_eq!((info.width, info.height), (2, 1));
    assert_eq!(&buf[..info.buffer_size()], &[30u8, 20, 10, 255, 60, 50, 40, 128]);
}

#[test]
fn icon_png_wrong_buffer_is_an_error() {
    let r = encode_icon_png(2, 2, vec![0u8; 3]);
    assert!(r.unwrap_err().starts_with("png write failed: "));
}

#[test]
fn data_url_is_base64_of_the_file() {
    assert_eq!(
        icon_data_url(Some(b"hello".to_vec())),
        Some("data:image/png;base64,aGVsbG8=".to_string())
    );
    assert_eq!(icon_data_url(Some(vec![])), Some("data:image/png;base64,".to_string()));
    assert_eq!(icon_data_url(Some(vec![0xff, 0xfe])), Some("data:image/png;base64,//4=".to_string()));
    assert_eq!(icon_data_url(None), None);
}

#[test]
fn encoder_answers_become_bytes_or_messages() {
    assert_eq!(png_outcome(Ok(vec![1, 2, 3])), Ok(vec![1, 2, 3]));
    assert_eq!(
        png_outcome(Err(PngFailure::Header("bad size".to_string()))),
        Err("png header failed: bad size".to_string())
    );
    assert_eq!(
        png_outcome(Err(PngFailure::Data("short".to_string()))),
        Err("png write failed: short".to_string())
    );
}

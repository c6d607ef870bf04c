use windows_volume_control::path::file_stem_of;
use windows_volume_control::process_api::{
    get_process_info, get_process_name, read_first_translation, LangCodePage, ProcessInfo,
    ResolveError, ResolveReply, Resolver, WindowsPlatformApi,
};
use windows_volume_control::naming::suffixed_name;
use windows_volume_control::text::{
    chars_of, decimal_text, hex4_text, occurs, without_trailing_nuls,
};

fn utf16(text: &str) -> Vec<u16> {
    text.encode_utf16().collect()
}

fn chars(text: &str) -> Vec<char> {
    text.chars().collect()
}

/// Runs a resolution up to the point where the path is known and the handle released.
fn with_path(process_id: u32, path: &str) -> Resolver {
    let state = get_process_info(process_id);
    let state = state.advance(ResolveReply::Done);
    let state = state.advance(ResolveReply::Path(path.to_string()));
    state.advance(ResolveReply::Done)
}

/// Runs a resolution up to the query for the file description.
fn with_translation(process_id: u32, path: &str, table: Vec<u8>) -> Resolver {
    let state = with_path(process_id, path);
    let state = state.advance(ResolveReply::Size(1024));
    let state = state.advance(ResolveReply::Done);
    state.advance(ResolveReply::Translation(table))
}

fn english() -> LangCodePage {
    LangCodePage { w_language: 0x0409, w_code_page: 0x04b0 }
}

/// The bytes of a translation table whose one row is US English in Unicode.
fn english_table() -> Vec<u8> {
    vec![0x09, 0x04, 0xb0, 0x04]
}

fn outcome(state: Resolver) -> Result<ProcessInfo, ResolveError> {
    match state {
        Resolver::Finished { outcome } => outcome,
        _ => panic!("the resolution has not finished"),
    }
}

#[test]
fn decimal_text_of_numbers() {
    assert_eq!(decimal_text(0), "0");
    assert_eq!(decimal_text(7), "7");
    assert_eq!(decimal_text(10), "10");
    assert_eq!(decimal_text(2024), "2024");
    assert_eq!(decimal_text(1234567890), "1234567890");
    assert_eq!(decimal_text(u128::MAX), "340282366920938463463374607431768211455");
}

#[test]
fn hex4_text_is_lower_case_and_padded() {
    assert_eq!(hex4_text(0), "0000");
    assert_eq!(hex4_text(0x0409), "0409");
    assert_eq!(hex4_text(0x04b0), "04b0");
    assert_eq!(hex4_text(0xabcd), "abcd");
    assert_eq!(hex4_text(0xffff), "ffff");
    assert_eq!(hex4_text(0x1e2f), "1e2f");
}

#[test]
fn version_resource_queries() {
    assert_eq!(WindowsPlatformApi::translation_query(), "\\VarFileInfo\\Translation");
    assert_eq!(
        WindowsPlatformApi::description_query(english()),
        "\\StringFileInfo\\040904b0\\FileDescription"
    );
    assert_eq!(
        WindowsPlatformApi::description_query(LangCodePage { w_language: 0, w_code_page: 0xfde9 }),
        "\\StringFileInfo\\0000fde9\\FileDescription"
    );
}

#[test]
fn trailing_nuls_are_stripped() {
    assert_eq!(without_trailing_nuls("Game\0\0"), "Game");
    assert_eq!(without_trailing_nuls("Game"), "Game");
    assert_eq!(without_trailing_nuls("\0\0"), "");
    assert_eq!(without_trailing_nuls(""), "");
    assert_eq!(without_trailing_nuls("a\0b\0"), "a\0b");
    assert_eq!(without_trailing_nuls("\0Game"), "\0Game");
}

#[test]
fn file_stems() {
    assert_eq!(file_stem_of("C:\\bin\\tool.exe"), "tool");
    assert_eq!(file_stem_of("C:/bin/tool.exe"), "tool");
    assert_eq!(file_stem_of("C:\\bin/mixed\\tool.exe"), "tool");
    assert_eq!(file_stem_of("tool.exe"), "tool");
    assert_eq!(file_stem_of("tool"), "tool");
    assert_eq!(file_stem_of("C:\\bin\\archive.tar.gz"), "archive.tar");
    assert_eq!(file_stem_of("C:\\bin\\.hidden"), ".hidden");
    assert_eq!(file_stem_of("C:\\bin\\.hidden.txt"), ".hidden");
    assert_eq!(file_stem_of("C:\\bin\\name."), "name");
    assert_eq!(file_stem_of("C:\\bin.d\\tool"), "tool");
    assert_eq!(file_stem_of("C:\\bin\\..."), "..");
    assert_eq!(file_stem_of("\\\\server\\share\\Jeu \u{e9}t\u{e9}.exe"), "Jeu \u{e9}t\u{e9}");
}

#[test]
fn a_path_that_ends_in_the_parent_has_no_file_stem() {
    assert_eq!(file_stem_of(".."), "");
    assert_eq!(file_stem_of("C:\\bin\\.."), "");
    assert_eq!(file_stem_of("C:\\bin\\..\\"), "");
    assert_eq!(file_stem_of("C:\\bin\\..\\."), "");
    assert_eq!(file_stem_of("C:.."), "");
    assert_eq!(file_stem_of("../.."), "");
    assert_eq!(file_stem_of("..\\tool.exe"), "tool");
    assert_eq!(get_process_name("C:\\bin\\..", None), "");
}

#[test]
fn a_path_without_components_has_no_file_stem() {
    assert_eq!(file_stem_of(""), "");
    assert_eq!(file_stem_of("\\"), "");
    assert_eq!(file_stem_of("/"), "");
    assert_eq!(file_stem_of("."), "");
    assert_eq!(file_stem_of(".\\"), "");
    assert_eq!(file_stem_of("C:"), "");
    assert_eq!(file_stem_of("C:\\"), "");
    assert_eq!(file_stem_of("C:."), "");
    assert_eq!(file_stem_of("C:\\.\\.\\"), "");
}

#[test]
fn separators_and_dots_at_the_end_are_passed_over() {
    assert_eq!(file_stem_of("C:\\bin\\"), "bin");
    assert_eq!(file_stem_of("C:\\bin\\\\"), "bin");
    assert_eq!(file_stem_of("C:\\bin\\."), "bin");
    assert_eq!(file_stem_of("C:\\bin\\.\\"), "bin");
    assert_eq!(file_stem_of("C:\\bin\\./.\\"), "bin");
    assert_eq!(file_stem_of("C:\\bin\\tool.exe\\"), "tool");
    assert_eq!(file_stem_of("C:\\bin\\\\tool.exe"), "tool");
    assert_eq!(file_stem_of("./tool.exe"), "tool");
}

#[test]
fn a_drive_is_no_part_of_the_file_name() {
    assert_eq!(file_stem_of("C:tool.exe"), "tool");
    assert_eq!(file_stem_of("c:tool"), "tool");
    assert_eq!(file_stem_of("z:a.b"), "a");
    assert_eq!(file_stem_of("Z:\\a.b"), "a");
    // Only a letter of the ASCII alphabet names a drive.
    assert_eq!(file_stem_of("1:tool.exe"), "1:tool");
    assert_eq!(file_stem_of("\u{e9}:tool.exe"), "\u{e9}:tool");
    assert_eq!(file_stem_of("@:tool.exe"), "@:tool");
    assert_eq!(file_stem_of("[:tool.exe"), "[:tool");
    assert_eq!(file_stem_of("`:tool.exe"), "`:tool");
    assert_eq!(file_stem_of("{:tool.exe"), "{:tool");
    assert_eq!(file_stem_of("ab:tool.exe"), "ab:tool");
}

#[test]
fn a_server_and_its_share_are_no_file_name() {
    assert_eq!(file_stem_of("\\\\server\\share"), "");
    assert_eq!(file_stem_of("\\\\server\\share\\"), "");
    assert_eq!(file_stem_of("//server/share"), "");
    assert_eq!(file_stem_of("\\\\server\\share\\tool.exe"), "tool");
    assert_eq!(file_stem_of("\\\\server\\share\\bin\\tool.exe"), "tool");
    assert_eq!(file_stem_of("\\\\server\\share.d"), "");
    // Without a share there is no prefix, and the server is a component.
    assert_eq!(file_stem_of("\\\\server"), "server");
    assert_eq!(file_stem_of("\\\\server\\"), "server");
    assert_eq!(file_stem_of("\\\\server\\\\share"), "share");
    assert_eq!(file_stem_of("\\\\\\server\\share"), "share");
}

#[test]
fn a_device_is_no_file_name() {
    assert_eq!(file_stem_of("\\\\.\\COM1"), "");
    assert_eq!(file_stem_of("//./COM1"), "");
    assert_eq!(file_stem_of("\\\\.\\"), "");
    assert_eq!(file_stem_of("\\\\.\\pipe\\name.x"), "name");
    assert_eq!(file_stem_of("\\\\.\\pipe\\name.x\\."), "name");
}

#[test]
fn verbatim_paths_are_taken_as_they_stand() {
    assert_eq!(file_stem_of("\\\\?\\C:\\bin\\tool.exe"), "tool");
    assert_eq!(file_stem_of("\\\\?\\C:\\bin\\tool.exe\\"), "tool");
    assert_eq!(file_stem_of("\\\\?\\C:\\bin\\\\tool.exe"), "tool");
    // `/` parts nothing in a verbatim path, and `.` is not passed over.
    assert_eq!(file_stem_of("\\\\?\\C:\\bin\\a/b.exe"), "a/b");
    assert_eq!(file_stem_of("\\\\?\\C:\\bin\\."), "");
    assert_eq!(file_stem_of("\\\\?\\C:\\bin\\.."), "");
    assert_eq!(file_stem_of("\\\\?\\C:"), "");
    assert_eq!(file_stem_of("\\\\?\\C:\\"), "");
    assert_eq!(file_stem_of("\\\\?\\C:foo\\bar.txt"), "bar");
    assert_eq!(file_stem_of("\\\\?\\pictures"), "");
    assert_eq!(file_stem_of("\\\\?\\pictures\\cat.png"), "cat");
    assert_eq!(file_stem_of("\\\\?\\"), "");
    assert_eq!(file_stem_of("\\\\?\\UNC\\server\\share"), "");
    assert_eq!(file_stem_of("\\\\?\\UNC\\server"), "");
    assert_eq!(file_stem_of("\\\\?\\UNC\\server\\share\\tool.exe"), "tool");
    assert_eq!(file_stem_of("\\\\?\\UNC"), "");
    // With `/` among the first four characters the path is not verbatim.
    assert_eq!(file_stem_of("//?/C:/bin/."), "bin");
    assert_eq!(file_stem_of("\\\\?/C:\\bin\\a/b.exe"), "b");
    assert_eq!(file_stem_of("\\\\?"), "?");
}

#[test]
fn text_search() {
    assert!(occurs(&chars("game"), &chars("endgame(2)")));
    assert!(occurs(&chars(""), &chars("")));
    assert!(occurs(&chars(""), &chars("a")));
    assert!(occurs(&chars("abc"), &chars("abc")));
    assert!(occurs(&chars("bc"), &chars("abc")));
    assert!(occurs(&chars("ab"), &chars("aab")));
    assert!(!occurs(&chars("abcd"), &chars("abc")));
    assert!(!occurs(&chars("ac"), &chars("abc")));
    assert!(!occurs(&chars("a"), &chars("")));
}

#[test]
fn process_name_prefers_the_description() {
    assert_eq!(
        get_process_name("C:\\bin\\tool.exe", Some("A Tool\0".to_string())),
        "A Tool"
    );
}

#[test]
fn process_name_falls_back_to_the_file_stem() {
    assert_eq!(get_process_name("C:\\bin\\tool.exe", None), "tool");
    assert_eq!(get_process_name("C:\\bin\\tool.exe", Some("".to_string())), "tool");
    assert_eq!(get_process_name("C:\\bin\\tool.exe", Some("\0\0\0".to_string())), "tool");
}

#[test]
fn resolution_begins_by_opening_the_process() {
    match get_process_info(42) {
        Resolver::OpenProcess { process_id } => assert_eq!(process_id, 42),
        _ => panic!("the first request is to open the process"),
    }
}

#[test]
fn a_process_that_cannot_be_opened_is_unavailable() {
    let state = get_process_info(42).advance(ResolveReply::Failed);
    assert_eq!(outcome(state), Err(ResolveError::ProcessUnavailable));
}

#[test]
fn the_handle_is_released_when_the_path_query_fails() {
    let state = get_process_info(42).advance(ResolveReply::Done);
    assert!(matches!(state, Resolver::QueryImagePath { process_id: 42 }));
    let state = state.advance(ResolveReply::Failed);
    assert!(matches!(state, Resolver::CloseProcess { process_id: 42, found: None }));
    let state = state.advance(ResolveReply::Done);
    assert_eq!(outcome(state), Err(ResolveError::PathUnavailable));
}

#[test]
fn the_handle_is_released_when_the_path_query_succeeds() {
    let state = get_process_info(42).advance(ResolveReply::Done);
    let state = state.advance(ResolveReply::Path("C:\\bin\\tool.exe".to_string()));
    match &state {
        Resolver::CloseProcess { process_id, found } => {
            assert_eq!(*process_id, 42);
            assert_eq!(found.as_deref(), Some("C:\\bin\\tool.exe"));
        }
        _ => panic!("the handle is to be released"),
    }
    // Whatever releasing the handle answers, the resolution goes on.
    let state = state.advance(ResolveReply::Failed);
    match state {
        Resolver::QueryInfoSize { process_id, path } => {
            assert_eq!(process_id, 42);
            assert_eq!(path, "C:\\bin\\tool.exe");
        }
        _ => panic!("the size of the version resource is to be asked for"),
    }
}

#[test]
fn absent_version_resource_falls_back_to_the_file_stem() {
    let state = with_path(7, "C:\\bin\\tool.exe").advance(ResolveReply::Size(0));
    let info = outcome(state).unwrap();
    assert_eq!(info.process_id, 7);
    assert_eq!(info.process_name, "tool");
    assert_eq!(info.process_path, "C:\\bin\\tool.exe");
}

#[test]
fn failed_size_query_falls_back_to_the_file_stem() {
    let state = with_path(7, "C:\\bin\\tool.exe").advance(ResolveReply::Failed);
    assert_eq!(outcome(state).unwrap().process_name, "tool");
}

#[test]
fn unreadable_version_resource_falls_back_to_the_file_stem() {
    let state = with_path(7, "C:\\bin\\tool.exe").advance(ResolveReply::Size(512));
    match &state {
        Resolver::LoadInfo { process_id, path, size } => {
            assert_eq!(*process_id, 7);
            assert_eq!(path, "C:\\bin\\tool.exe");
            assert_eq!(*size, 512);
        }
        _ => panic!("the version resource is to be loaded"),
    }
    let state = state.advance(ResolveReply::Failed);
    assert_eq!(outcome(state).unwrap().process_name, "tool");
}

#[test]
fn missing_translation_table_falls_back_to_the_file_stem() {
    let state = with_path(7, "C:\\bin\\tool.exe").advance(ResolveReply::Size(512));
    let state = state.advance(ResolveReply::Done);
    assert!(matches!(state, Resolver::QueryTranslation { process_id: 7, .. }));
    let state = state.advance(ResolveReply::Failed);
    assert_eq!(outcome(state).unwrap().process_name, "tool");
}

#[test]
fn empty_translation_table_falls_back_to_the_file_stem() {
    let state = with_translation(7, "C:\\bin\\tool.exe", vec![]);
    assert_eq!(outcome(state).unwrap().process_name, "tool");
    let state = with_translation(7, "C:\\bin\\tool.exe", vec![0x09, 0x04, 0xb0]);
    assert_eq!(outcome(state).unwrap().process_name, "tool");
}

#[test]
fn first_translation_is_read_low_byte_first() {
    assert_eq!(read_first_translation(&english_table()), Some(english()));
    assert_eq!(
        read_first_translation(&vec![0xff, 0xff, 0x00, 0x01, 0x02]),
        Some(LangCodePage { w_language: 0xffff, w_code_page: 0x0100 })
    );
    assert_eq!(read_first_translation(&vec![]), None);
    assert_eq!(read_first_translation(&vec![1, 2, 3]), None);
}

#[test]
fn the_description_is_asked_for_in_the_first_translation() {
    let table = vec![0x09, 0x04, 0xb0, 0x04, 0x07, 0x04, 0xe4, 0x04];
    match with_translation(7, "C:\\bin\\tool.exe", table) {
        Resolver::QueryDescription { process_id, path, key } => {
            assert_eq!(process_id, 7);
            assert_eq!(path, "C:\\bin\\tool.exe");
            assert_eq!(key, "\\StringFileInfo\\040904b0\\FileDescription");
        }
        _ => panic!("the file description is to be asked for"),
    }
}

#[test]
fn missing_description_falls_back_to_the_file_stem() {
    let state = with_translation(7, "C:\\bin\\tool.exe", english_table());
    let state = state.advance(ResolveReply::Failed);
    let info = outcome(state).unwrap();
    assert_eq!(info.process_name, "tool");
    assert_eq!(info.process_path, "C:\\bin\\tool.exe");
}

#[test]
fn empty_description_falls_back_to_the_file_stem() {
    let state = with_translation(7, "C:\\bin\\tool.exe", english_table());
    let state = state.advance(ResolveReply::Text(vec![0, 0]));
    assert_eq!(outcome(state).unwrap().process_name, "tool");
    let state = with_translation(7, "C:\\bin\\tool.exe", english_table());
    let state = state.advance(ResolveReply::Text(vec![]));
    assert_eq!(outcome(state).unwrap().process_name, "tool");
}

#[test]
fn the_description_names_the_process() {
    let state = with_translation(7, "C:\\bin\\tool.exe", english_table());
    let mut units = utf16("A Fine Tool");
    units.push(0);
    let state = state.advance(ResolveReply::Text(units));
    let info = outcome(state).unwrap();
    assert_eq!(info.process_id, 7);
    assert_eq!(info.process_name, "A Fine Tool");
    assert_eq!(info.process_path, "C:\\bin\\tool.exe");
}

#[test]
fn the_description_is_decoded_from_utf16() {
    let state = with_translation(7, "C:\\bin\\tool.exe", english_table());
    // "é", a pair of surrogates for U+1F50A, and a lone surrogate.
    let state = state.advance(ResolveReply::Text(vec![0x00e9, 0xd83d, 0xdd0a, 0xd800, 0]));
    assert_eq!(outcome(state).unwrap().process_name, "\u{e9}\u{1f50a}\u{fffd}");
}

#[test]
fn a_finished_resolution_stays_finished() {
    let state = get_process_info(42).advance(ResolveReply::Failed);
    let state = state.advance(ResolveReply::Path("C:\\x.exe".to_string()));
    assert_eq!(outcome(state), Err(ResolveError::ProcessUnavailable));
    let state = with_path(7, "C:\\bin\\tool.exe").advance(ResolveReply::Size(0));
    let state = state.advance(ResolveReply::Done);
    assert_eq!(outcome(state).unwrap().process_name, "tool");
}

#[test]
fn an_answer_of_the_wrong_kind_counts_as_failure() {
    let state = get_process_info(42).advance(ResolveReply::Size(3));
    assert_eq!(outcome(state), Err(ResolveError::ProcessUnavailable));
    let state = with_path(7, "C:\\bin\\tool.exe").advance(ResolveReply::Done);
    assert_eq!(outcome(state).unwrap().process_name, "tool");
}

#[test]
fn suffixed_names() {
    assert_eq!(suffixed_name(&"app".to_string(), 2), "app(2)");
    assert_eq!(suffixed_name(&"app".to_string(), 10), "app(10)");
    assert_eq!(suffixed_name(&"".to_string(), 3), "(3)");
    assert_eq!(suffixed_name(&"app(2)".to_string(), 2), "app(2)(2)");
}

#[test]
fn characters_of_a_text() {
    assert_eq!(chars_of("a\u{e9}\u{1f50a}"), vec!['a', '\u{e9}', '\u{1f50a}']);
    assert!(chars_of("").is_empty());
}

#[test]
fn resolution_of_a_path_without_file_name_gives_the_empty_name() {
    let state = with_path(7, "C:\\bin\\..").advance(ResolveReply::Size(0));
    let info = outcome(state).unwrap();
    assert_eq!(info.process_name, "");
    assert_eq!(info.process_path, "C:\\bin\\..");
    let state = with_path(7, "C:\\bin\\").advance(ResolveReply::Failed);
    assert_eq!(outcome(state).unwrap().process_name, "bin");
    let state = with_path(7, "C:tool.exe").advance(ResolveReply::Failed);
    assert_eq!(outcome(state).unwrap().process_name, "tool");
}

use fileserver::file_loader::{get_404, get_500, get_file_content_or_err, file_exists, Directory, FileEntry};
use fileserver::handler::handle_request;
use fileserver::path_resolver::{get_full_path, get_index_file, join_path, remove_traversals};
use fileserver::response::{format_response, usize_to_string, Status};
use fileserver::strutil::str_equal;

fn entry(path: &str, content: &str) -> FileEntry {
    FileEntry { path: path.to_string(), content: Some(content.to_string()) }
}

fn unreadable(path: &str) -> FileEntry {
    FileEntry { path: path.to_string(), content: None }
}

fn dir(files: Vec<FileEntry>) -> Directory {
    Directory { files }
}

#[test]
fn sanitized_target_has_no_traversal() {
    let fs = dir(vec![]);
    let resolved = get_full_path(&fs, "public", "/../../etc/passwd");
    assert_eq!(resolved, "public/etc/passwd");
    assert!(!resolved.contains("../"));
}

#[test]
fn sanitize_removes_every_plain_traversal() {
    assert_eq!(remove_traversals("../a/../b/../"), "a/b/");
    assert_eq!(remove_traversals("no/dots/here"), "no/dots/here");
    assert_eq!(remove_traversals(""), "");
    assert_eq!(remove_traversals(".."), "..");
}

#[test]
fn masked_traversal_splices_a_new_one() {
    // The single left-to-right pass removes the inner `../` of `....//`
    // and the remaining characters splice into a new one: the known
    // weakness of textual stripping.
    assert_eq!(remove_traversals("....//"), "../");
}

#[test]
fn root_request_serves_existing_index() {
    let fs = dir(vec![entry("public/index.html", "<h1>home</h1>")]);
    let response = handle_request(&fs, "public", "GET / HTTP/1.1");
    assert_eq!(response, "HTTP/1.1 200 OK\r\nContent-Length: 13\r\n\r\n<h1>home</h1>");
}

#[test]
fn root_request_prefers_first_candidate() {
    let fs = dir(vec![
        entry("public/index.htm", "second"),
        entry("public/index.html", "first"),
    ]);
    assert_eq!(get_index_file(&fs, "public"), "/index.html");
    let response = handle_request(&fs, "public", "GET / HTTP/1.1");
    assert_eq!(response, "HTTP/1.1 200 OK\r\nContent-Length: 5\r\n\r\nfirst");
}

#[test]
fn root_request_falls_back_through_candidates() {
    let fs = dir(vec![entry("public/index.txt", "plain")]);
    assert_eq!(get_index_file(&fs, "public"), "/index.txt");
    let response = handle_request(&fs, "public", "GET / HTTP/1.1");
    assert_eq!(response, "HTTP/1.1 200 OK\r\nContent-Length: 5\r\n\r\nplain");
}

#[test]
fn root_request_without_any_index_is_not_found() {
    let fs = dir(vec![entry("public/about.html", "about")]);
    assert_eq!(get_index_file(&fs, "public"), "/index.html");
    let response = handle_request(&fs, "public", "GET / HTTP/1.1");
    assert_eq!(
        response,
        "HTTP/1.1 404 NOT FOUND\r\nContent-Length: 29\r\n\r\nCould not find requested file"
    );
}

#[test]
fn missing_file_is_not_found_with_fixed_body() {
    let fs = dir(vec![entry("public/index.html", "home")]);
    let response = handle_request(&fs, "public", "GET /nothing.html HTTP/1.1");
    assert_eq!(
        response,
        "HTTP/1.1 404 NOT FOUND\r\nContent-Length: 29\r\n\r\nCould not find requested file"
    );
}

#[test]
fn unreadable_file_is_server_error_with_fixed_body() {
    let fs = dir(vec![unreadable("public/broken.html")]);
    let response = handle_request(&fs, "public", "GET /broken.html HTTP/1.1");
    assert_eq!(
        response,
        "HTTP/1.1 500 INTERNAL SERVER ERROR\r\nContent-Length: 32\r\n\r\nAn unexpected error has occurred"
    );
}

#[test]
fn unsupported_method_is_server_error() {
    let fs = dir(vec![entry("public/index.html", "home")]);
    let response = handle_request(&fs, "public", "POST /index.html HTTP/1.1");
    assert_eq!(
        response,
        "HTTP/1.1 500 INTERNAL SERVER ERROR\r\nContent-Length: 18\r\n\r\nMethod unsupported"
    );
}

#[test]
fn unsupported_method_ignores_target() {
    let fs = dir(vec![entry("public/index.html", "home")]);
    let a = handle_request(&fs, "public", "DELETE /index.html HTTP/1.1");
    let b = handle_request(&fs, "public", "BOGUS");
    assert_eq!(a, b);
    assert!(a.ends_with("Method unsupported"));
}

#[test]
fn rendered_response_for_ok_hello() {
    let r = format_response(Status::Okay, "hello".to_string());
    assert_eq!(r, "HTTP/1.1 200 OK\r\nContent-Length: 5\r\n\r\nhello");
}

#[test]
fn rendered_response_statuses() {
    assert!(format_response(Status::NotFound, String::new())
        .starts_with("HTTP/1.1 404 NOT FOUND\r\n"));
    assert!(format_response(Status::ServerError, String::new())
        .starts_with("HTTP/1.1 500 INTERNAL SERVER ERROR\r\n"));
    assert_eq!(
        format_response(Status::Okay, String::new()),
        "HTTP/1.1 200 OK\r\nContent-Length: 0\r\n\r\n"
    );
}

#[test]
fn content_length_counts_bytes_not_chars() {
    // a two-byte UTF-8 character
    let r = format_response(Status::Okay, "é".to_string());
    assert_eq!(r, "HTTP/1.1 200 OK\r\nContent-Length: 2\r\n\r\né");
}

#[test]
fn round_trip_serves_written_content_unchanged() {
    let content = "body { color: red; }";
    let fs = dir(vec![entry("public/style.css", content)]);
    let first = handle_request(&fs, "public", "GET /style.css HTTP/1.1");
    let second = handle_request(&fs, "public", "GET /style.css HTTP/1.1");
    assert_eq!(first, second);
    assert_eq!(first, format!("HTTP/1.1 200 OK\r\nContent-Length: 20\r\n\r\n{}", content));
}

#[test]
fn decimal_rendering_is_exact() {
    assert_eq!(usize_to_string(0), "0");
    assert_eq!(usize_to_string(7), "7");
    assert_eq!(usize_to_string(10), "10");
    assert_eq!(usize_to_string(90107), "90107");
}

#[test]
fn join_path_follows_filesystem_join_rules() {
    assert_eq!(join_path("public", "a.html"), "public/a.html");
    assert_eq!(join_path("public/", "a.html"), "public/a.html");
    assert_eq!(join_path("", "a.html"), "a.html");
    // an absolute right-hand side replaces the base
    assert_eq!(join_path("public", "/etc/passwd"), "/etc/passwd");
}

#[test]
fn double_slash_target_escapes_to_absolute_path() {
    // `//etc/passwd` keeps one slash after stripping, so the join
    // replaces the base: the resolver always produces some path and
    // leaves existence to the loader.
    let fs = dir(vec![]);
    assert_eq!(get_full_path(&fs, "public", "//etc/passwd"), "/etc/passwd");
}

#[test]
fn file_lookup_matches_snapshot() {
    let fs = dir(vec![entry("public/a", "x"), unreadable("public/b")]);
    assert!(file_exists(&fs, &"public/a".to_string()));
    assert!(file_exists(&fs, &"public/b".to_string()));
    assert!(!file_exists(&fs, &"public/c".to_string()));
    let (ok, body) = get_file_content_or_err(&fs, &"public/a".to_string());
    assert_eq!(ok, Status::Okay);
    assert_eq!(body, "x");
    let (err, msg) = get_file_content_or_err(&fs, &"public/b".to_string());
    assert_eq!(err, Status::ServerError);
    assert_eq!(msg, get_500());
    let (missing, msg2) = get_file_content_or_err(&fs, &"public/c".to_string());
    assert_eq!(missing, Status::NotFound);
    assert_eq!(msg2, get_404());
}

#[test]
fn fixed_bodies_are_exact() {
    assert_eq!(get_404(), "Could not find requested file");
    assert_eq!(get_500(), "An unexpected error has occurred");
}

#[test]
fn str_equal_matches_string_equality() {
    assert!(str_equal("GET", "GET"));
    assert!(!str_equal("GET", "GE"));
    assert!(!str_equal("GET", "PUT"));
    assert!(str_equal("", ""));
}
